//! Errors of the pool and flash-loan operations.
use vstd::prelude::*;

verus! {

/// Every way an operation of this library can fail. Each one is terminal
/// for the instruction that met it.
#[derive(Clone, Copy, Debug, PartialEq, Eq, Structural)]
pub enum EscrowError {
    /// Fewer accounts than the instruction's fixed layout names.
    NotEnoughAccountKeys,
    /// The instruction payload has the wrong length or an invalid field.
    InvalidInstructionData,
    /// Account data has the wrong length or content, or a set of accounts
    /// does not match what was recorded for it.
    InvalidAccountData,
    /// A supplied account does not match the pool (a mint that differs).
    InvalidArgument,
    /// The pool is locked: deposits, withdrawals and swaps are refused.
    PoolLocked,
    /// The pool's authority was removed: its configuration is immutable.
    ImmutableConfig,
    /// The signer is not the pool's authority.
    Unauthorized,
    /// The offer's expiration lies before the chain's current time.
    Expired,
    /// A resolved amount is beyond the caller's bound.
    SlippageExceeded,
    /// A leg of the operation resolves to zero.
    ZeroAmount,
    /// An intermediate value does not fit in 64 bits.
    ArithmeticOverflow,
    /// No later instruction of the transaction repays the loan.
    MissingRepayInstruction,
}

} // verus!
