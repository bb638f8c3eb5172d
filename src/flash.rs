//! Flash loans: a loan is recorded in an escrow record, one entry per
//! borrowed token pair, and must be settled by a repay instruction later in
//! the same transaction.
//!
//! The loan checks, before it completes, that such a repay instruction is
//! there; the repay checks that it settles the recorded accounts, in the
//! recorded order, and works out what each borrower still owes.
use vstd::prelude::*;

use crate::bytes::{key_at, keys_equal, push_key, push_u64, read_key, read_u16, read_u64, u16_at, u64_at, KEY_LEN};
use crate::curve::BPS_DENOMINATOR;
use crate::error::EscrowError;

verus! {

/// Most token pairs one loan may borrow.
pub const MAX_LOAN_PAIRS: usize = 10;

/// First payload byte of a loan instruction.
pub const LOAN_DISCRIMINATOR: u8 = 0;

/// First payload byte of a repay instruction.
pub const REPAY_DISCRIMINATOR: u8 = 1;

/// Size of one escrow entry: the protocol account, the borrower account,
/// then the expected balance.
pub const LOAN_ENTRY_LEN: usize = 72;

/// Where a token account's balance sits in its data.
pub const TOKEN_AMOUNT_AT: usize = 64;

/// Loan payload bytes before the amounts: the bump and the fee.
pub const LOAN_HEADER_LEN: usize = 3;

/// The balance held by a token account, read from its data.
pub open spec fn token_amount_spec(d: Seq<u8>) -> Result<u64, EscrowError> {
    if d.len() < TOKEN_AMOUNT_AT + 8 {
        Err(EscrowError::InvalidAccountData)
    } else {
        Ok(u64_at(d, TOKEN_AMOUNT_AT as int) as u64)
    }
}

/// Reads the balance of a token account from its data; fails with
/// `InvalidAccountData` when the data is too short to hold one.
pub fn get_token_amount(data: &[u8]) -> (r: Result<u64, EscrowError>)
    ensures
        r == token_amount_spec(data@),
{
    if data.len() < TOKEN_AMOUNT_AT + 8 {
        return Err(EscrowError::InvalidAccountData);
    }
    Ok(read_u64(data, TOKEN_AMOUNT_AT))
}

/// The amounts of a loan payload, one `u64` every eight bytes after the
/// header.
pub open spec fn loan_amounts_spec(d: Seq<u8>) -> Seq<u64> {
    Seq::new(
        ((d.len() - LOAN_HEADER_LEN) / 8) as nat,
        |i: int| u64_at(d, LOAN_HEADER_LEN + 8 * i) as u64,
    )
}

/// Whether `d` is a well-formed loan payload: a header, then between one
/// and [`MAX_LOAN_PAIRS`] amounts.
pub open spec fn loan_payload_valid(d: Seq<u8>) -> bool {
    &&& d.len() >= LOAN_HEADER_LEN + 8
    &&& (d.len() - LOAN_HEADER_LEN) % 8 == 0
    &&& (d.len() - LOAN_HEADER_LEN) / 8 <= MAX_LOAN_PAIRS
}

/// Loan payload: `bump:u8, fee:u16`, then one `amount:u64` per token pair.
#[derive(Clone, Debug)]
pub struct LoanInstructionData {
    /// Bump of the loan authority's address.
    pub bump: [u8; 1],
    /// Loan fee in basis points of each amount.
    pub fee: u16,
    /// What is borrowed from each pair's protocol account.
    pub amounts: Vec<u64>,
}

impl LoanInstructionData {
    /// Decodes the payload; fails with `InvalidInstructionData` unless it
    /// holds between one and [`MAX_LOAN_PAIRS`] whole amounts.
    pub fn try_from(data: &[u8]) -> (r: Result<Self, EscrowError>)
        ensures
            r is Ok <==> loan_payload_valid(data@),
            r matches Ok(l) ==> l.bump[0] == data@[0] && l.fee == u16_at(data@, 1) && l.amounts@
                == loan_amounts_spec(data@),
            r is Err ==> (r matches Err(e) && e == EscrowError::InvalidInstructionData),
    {
        if data.len() < LOAN_HEADER_LEN + 8 || (data.len() - LOAN_HEADER_LEN) % 8 != 0 || (
        data.len() - LOAN_HEADER_LEN) / 8 > MAX_LOAN_PAIRS {
            return Err(EscrowError::InvalidInstructionData);
        }
        let count = (data.len() - LOAN_HEADER_LEN) / 8;
        let mut amounts: Vec<u64> = Vec::new();
        let mut i: usize = 0;
        while i < count
            invariant
                count == (data@.len() - LOAN_HEADER_LEN) / 8,
                count <= MAX_LOAN_PAIRS,
                i <= count,
                amounts@ == loan_amounts_spec(data@).subrange(0, i as int),
            decreases count - i,
        {
            amounts.push(read_u64(data, LOAN_HEADER_LEN + 8 * i));
            i += 1;
            assert(amounts@ =~= loan_amounts_spec(data@).subrange(0, i as int));
        }
        assert(amounts@ =~= loan_amounts_spec(data@));
        Ok(Self { bump: [data[0]], fee: read_u16(data, 1), amounts })
    }
}

/// One escrow entry: the two token accounts of a borrowed pair, and the
/// balance that the borrower-side account must reach before the loan counts
/// as repaid.
#[derive(Clone, Copy, Debug)]
pub struct LoanData {
    pub protocol_token_account: [u8; 32],
    pub borrower_token_account: [u8; 32],
    pub expected_balance: u64,
}

/// The entries of an escrow record, as (protocol account, borrower account,
/// expected balance).
pub open spec fn loan_entry_views(v: Seq<LoanData>) -> Seq<(Seq<u8>, Seq<u8>, u64)> {
    Seq::new(
        v.len(),
        |i: int|
            (v[i].protocol_token_account@, v[i].borrower_token_account@, v[i].expected_balance),
    )
}

/// The entries that the bytes of an escrow record hold.
pub open spec fn record_view(b: Seq<u8>) -> Seq<(Seq<u8>, Seq<u8>, u64)> {
    Seq::new(
        b.len() / LOAN_ENTRY_LEN as nat,
        |i: int|
            (
                key_at(b, LOAN_ENTRY_LEN * i),
                key_at(b, LOAN_ENTRY_LEN * i + KEY_LEN),
                u64_at(b, LOAN_ENTRY_LEN * i + 2 * KEY_LEN) as u64,
            ),
    )
}

/// Whether `b` is a well-formed escrow record of one to
/// [`MAX_LOAN_PAIRS`] entries.
pub open spec fn record_valid(b: Seq<u8>) -> bool {
    &&& b.len() % LOAN_ENTRY_LEN as nat == 0
    &&& 1 <= b.len() / LOAN_ENTRY_LEN as nat <= MAX_LOAN_PAIRS
}

/// Appending to an encoded record keeps the entries already there.
proof fn lemma_entry_kept(b: Seq<u8>, before: Seq<u8>, at: int)
    requires
        0 <= at,
        at + LOAN_ENTRY_LEN <= before.len() <= b.len(),
        b.subrange(0, before.len() as int) == before,
    ensures
        key_at(b, at) == key_at(before, at),
        key_at(b, at + KEY_LEN) == key_at(before, at + KEY_LEN),
        u64_at(b, at + 2 * KEY_LEN) == u64_at(before, at + 2 * KEY_LEN),
{
    assert forall|k: int| 0 <= k < before.len() implies b[k] == before[k] by {
        assert(b.subrange(0, before.len() as int)[k] == b[k]);
    }
    assert(key_at(b, at) =~= key_at(before, at));
    assert(key_at(b, at + KEY_LEN) =~= key_at(before, at + KEY_LEN));
}

/// Encodes escrow entries, [`LOAN_ENTRY_LEN`] bytes each.
pub fn encode_loan_record(entries: &Vec<LoanData>) -> (r: Vec<u8>)
    requires
        entries@.len() <= MAX_LOAN_PAIRS,
    ensures
        r@.len() == LOAN_ENTRY_LEN * entries@.len(),
        record_view(r@) == loan_entry_views(entries@),
{
    let mut out: Vec<u8> = Vec::new();
    let mut i: usize = 0;
    while i < entries.len()
        invariant
            entries@.len() <= MAX_LOAN_PAIRS,
            i <= entries@.len(),
            out@.len() == LOAN_ENTRY_LEN * i,
            record_view(out@) == loan_entry_views(entries@).subrange(0, i as int),
        decreases entries@.len() - i,
    {
        let ghost before = out@;
        push_key(&mut out, &entries[i].protocol_token_account);
        let ghost mid = out@;
        push_key(&mut out, &entries[i].borrower_token_account);
        let ghost mid2 = out@;
        push_u64(&mut out, entries[i].expected_balance);
        proof {
            let b = out@;
            let e = entries@[i as int];
            assert forall|k: int| 0 <= k < mid2.len() implies #[trigger] b[k] == mid2[k] by {
                assert(b.subrange(0, mid2.len() as int)[k] == b[k]);
            }
            assert(mid2 =~= mid + e.borrower_token_account@);
            assert(mid =~= before + e.protocol_token_account@);
            assert(b.subrange(0, before.len() as int) =~= before);
            assert forall|j: int| 0 <= j < i implies #[trigger] record_view(b)[j] == record_view(
                before,
            )[j] by {
                lemma_entry_kept(b, before, LOAN_ENTRY_LEN * j);
            }
            assert(key_at(b, LOAN_ENTRY_LEN * i) =~= e.protocol_token_account@);
            assert(key_at(b, LOAN_ENTRY_LEN * i + KEY_LEN) =~= e.borrower_token_account@);
            assert(record_view(b) =~= loan_entry_views(entries@).subrange(0, i + 1));
        }
        i += 1;
    }
    assert(loan_entry_views(entries@).subrange(0, i as int) =~= loan_entry_views(entries@));
    out
}

/// Decodes an escrow record; fails with `InvalidAccountData` unless it holds
/// one to [`MAX_LOAN_PAIRS`] whole entries.
pub fn decode_loan_record(data: &[u8]) -> (r: Result<Vec<LoanData>, EscrowError>)
    ensures
        r is Ok <==> record_valid(data@),
        r matches Ok(v) ==> loan_entry_views(v@) == record_view(data@),
        r is Err ==> (r matches Err(e) && e == EscrowError::InvalidAccountData),
{
    if data.len() % LOAN_ENTRY_LEN != 0 || data.len() / LOAN_ENTRY_LEN < 1 || data.len()
        / LOAN_ENTRY_LEN > MAX_LOAN_PAIRS {
        return Err(EscrowError::InvalidAccountData);
    }
    let count = data.len() / LOAN_ENTRY_LEN;
    let mut entries: Vec<LoanData> = Vec::new();
    let mut i: usize = 0;
    while i < count
        invariant
            count == data@.len() / LOAN_ENTRY_LEN as nat,
            count <= MAX_LOAN_PAIRS,
            data@.len() % LOAN_ENTRY_LEN as nat == 0,
            i <= count,
            entries@.len() == i,
            loan_entry_views(entries@) == record_view(data@).subrange(0, i as int),
        decreases count - i,
    {
        let at = LOAN_ENTRY_LEN * i;
        entries.push(
            LoanData {
                protocol_token_account: read_key(data, at),
                borrower_token_account: read_key(data, at + KEY_LEN),
                expected_balance: read_u64(data, at + 2 * KEY_LEN),
            },
        );
        proof {
            let rv = record_view(data@);
            assert(rv[i as int] == (
                key_at(data@, at as int),
                key_at(data@, at + KEY_LEN),
                u64_at(data@, at + 2 * KEY_LEN) as u64,
            ));
            assert(loan_entry_views(entries@)[i as int] == rv[i as int]);
            assert(loan_entry_views(entries@) =~= rv.subrange(0, i + 1));
        }
        i += 1;
    }
    assert(record_view(data@).subrange(0, i as int) =~= record_view(data@));
    Ok(entries)
}

/// Accounts of a loan before its token pairs: borrower, loan authority,
/// escrow record, instructions sysvar, token program, system program.
pub const LOAN_FIXED_ACCOUNTS: usize = 6;

/// Accounts of a repay before its token pairs: borrower, escrow record,
/// token program.
pub const REPAY_FIXED_ACCOUNTS: usize = 3;

/// The protocol-side accounts of a list of `(protocol, borrower)` pairs.
pub open spec fn protocol_keys(t: Seq<[u8; 32]>) -> Seq<Seq<u8>> {
    Seq::new(t.len() / 2, |i: int| t[2 * i]@)
}

/// The `(protocol, borrower)` accounts of each pair of a list of pairs.
pub open spec fn pair_keys(t: Seq<[u8; 32]>) -> Seq<(Seq<u8>, Seq<u8>)> {
    Seq::new(t.len() / 2, |i: int| (t[2 * i]@, t[2 * i + 1]@))
}

/// Whether `t` is a list of one to [`MAX_LOAN_PAIRS`] whole pairs.
pub open spec fn pairs_valid(t: Seq<[u8; 32]>) -> bool {
    &&& t.len() % 2 == 0
    &&& 1 <= t.len() / 2 <= MAX_LOAN_PAIRS
}

/// Whether no key occurs twice in `k`.
pub open spec fn keys_distinct(k: Seq<Seq<u8>>) -> bool {
    forall|i: int, j: int| 0 <= i < j < k.len() ==> k[i] != k[j]
}

fn tail_keys(keys: &Vec<[u8; 32]>, from: usize) -> (r: Vec<[u8; 32]>)
    requires
        from <= keys@.len(),
    ensures
        r@ == keys@.subrange(from as int, keys@.len() as int),
{
    let mut out: Vec<[u8; 32]> = Vec::new();
    let mut i: usize = from;
    while i < keys.len()
        invariant
            from <= i <= keys@.len(),
            out@ == keys@.subrange(from as int, i as int),
        decreases keys@.len() - i,
    {
        out.push(keys[i]);
        i += 1;
        assert(out@ =~= keys@.subrange(from as int, i as int));
    }
    out
}

fn protocol_keys_distinct(t: &Vec<[u8; 32]>) -> (r: bool)
    requires
        t@.len() % 2 == 0,
    ensures
        r == keys_distinct(protocol_keys(t@)),
{
    let n = t.len() / 2;
    let ghost pk = protocol_keys(t@);
    let mut i: usize = 0;
    while i < n
        invariant
            n == t@.len() / 2,
            t@.len() % 2 == 0,
            t@.len() <= usize::MAX,
            pk == protocol_keys(t@),
            i <= n,
            forall|a: int, b: int| 0 <= a < i && a < b < n ==> pk[a] != pk[b],
        decreases n - i,
    {
        let mut j: usize = i + 1;
        while j < n
            invariant
                n == t@.len() / 2,
                t@.len() % 2 == 0,
                t@.len() <= usize::MAX,
                pk == protocol_keys(t@),
                i < n,
                forall|a: int, b: int| 0 <= a < i && a < b < n ==> pk[a] != pk[b],
                i + 1 <= j <= n,
                forall|b: int| i < b < j ==> pk[i as int] != pk[b],
            decreases n - j,
        {
            if keys_equal(&t[2 * i], &t[2 * j]) {
                assert(pk[i as int] == pk[j as int]);
                return false;
            }
            j += 1;
        }
        i += 1;
    }
    true
}

/// The accounts of a loan, by role.
#[derive(Clone, Debug)]
pub struct LoanAccounts {
    pub borrower: [u8; 32],
    /// The loan authority, which signs the transfers out of the protocol.
    pub protocol: [u8; 32],
    /// The escrow record; it must not exist yet.
    pub loan: [u8; 32],
    /// `(protocol, borrower)` token account pairs, one per borrowed amount.
    pub token_accounts: Vec<[u8; 32]>,
}

impl LoanAccounts {
    /// Splits the account list by role. Fails with `NotEnoughAccountKeys`
    /// when the fixed accounts are missing, and with `InvalidAccountData`
    /// unless there are one to [`MAX_LOAN_PAIRS`] whole pairs with distinct
    /// protocol accounts and the escrow record is still empty.
    pub fn try_from(keys: &Vec<[u8; 32]>, loan_data_len: usize) -> (r: Result<Self, EscrowError>)
        ensures
            keys@.len() < LOAN_FIXED_ACCOUNTS ==> (r matches Err(e) && e
                == EscrowError::NotEnoughAccountKeys),
            keys@.len() >= LOAN_FIXED_ACCOUNTS ==> ({
                let rest = keys@.subrange(LOAN_FIXED_ACCOUNTS as int, keys@.len() as int);
                &&& r is Ok <==> pairs_valid(rest) && loan_data_len == 0 && keys_distinct(
                    protocol_keys(rest),
                )
                &&& r is Err ==> (r matches Err(e) && e == EscrowError::InvalidAccountData)
                &&& r matches Ok(a) ==> a.borrower == keys@[0] && a.protocol == keys@[1] && a.loan
                    == keys@[2] && a.token_accounts@ == rest
            }),
    {
        if keys.len() < LOAN_FIXED_ACCOUNTS {
            return Err(EscrowError::NotEnoughAccountKeys);
        }
        let token_accounts = tail_keys(keys, LOAN_FIXED_ACCOUNTS);
        if token_accounts.len() % 2 != 0 || token_accounts.len() == 0 || token_accounts.len() / 2
            > MAX_LOAN_PAIRS {
            return Err(EscrowError::InvalidAccountData);
        }
        if loan_data_len != 0 {
            return Err(EscrowError::InvalidAccountData);
        }
        if !protocol_keys_distinct(&token_accounts) {
            return Err(EscrowError::InvalidAccountData);
        }
        Ok(LoanAccounts { borrower: keys[0], protocol: keys[1], loan: keys[2], token_accounts })
    }
}

/// A summary of one instruction of the enclosing transaction.
#[derive(Clone, Debug)]
pub struct InstructionView {
    /// The program the instruction targets.
    pub program_id: [u8; 32],
    /// The accounts it names, in order.
    pub accounts: Vec<[u8; 32]>,
    /// Its payload.
    pub data: Vec<u8>,
}

/// Whether `ix` is a repay, to `program_id`, of the loan recorded at `loan`.
pub open spec fn is_repay_for(ix: InstructionView, program_id: Seq<u8>, loan: Seq<u8>) -> bool {
    &&& ix.program_id@ == program_id
    &&& ix.data@.len() > 0
    &&& ix.data@[0] == REPAY_DISCRIMINATOR
    &&& ix.accounts@.len() > 1
    &&& ix.accounts@[1]@ == loan
}

/// Whether an instruction after the one at `current` repays the loan.
pub open spec fn repay_follows(
    ixs: Seq<InstructionView>,
    current: int,
    program_id: Seq<u8>,
    loan: Seq<u8>,
) -> bool {
    exists|j: int| current < j < ixs.len() && #[trigger] is_repay_for(ixs[j], program_id, loan)
}

/// Checks that a later instruction of the transaction repays the loan
/// recorded at `loan`; fails with `MissingRepayInstruction` otherwise.
pub fn check_repay_follows(
    instructions: &Vec<InstructionView>,
    current: usize,
    program_id: &[u8; 32],
    loan: &[u8; 32],
) -> (r: Result<(), EscrowError>)
    ensures
        r is Ok <==> repay_follows(instructions@, current as int, program_id@, loan@),
        r is Err ==> r == Err::<(), EscrowError>(EscrowError::MissingRepayInstruction),
{
    let mut j: usize = current;
    while j < instructions.len()
        invariant
            current <= j,
            forall|k: int|
                current < k <= j && k < instructions@.len() ==> !#[trigger] is_repay_for(
                    instructions@[k],
                    program_id@,
                    loan@,
                ),
        decreases instructions@.len() - j,
    {
        j += 1;
        if j < instructions.len() {
            let ix = &instructions[j];
            if keys_equal(&ix.program_id, program_id) && ix.data.len() > 0 && ix.data[0]
                == REPAY_DISCRIMINATOR && ix.accounts.len() > 1 && keys_equal(
                &ix.accounts[1],
                loan,
            ) {
                assert(is_repay_for(instructions@[j as int], program_id@, loan@));
                return Ok(());
            }
        }
    }
    Err(EscrowError::MissingRepayInstruction)
}

/// The balance a borrower-side account must reach: its balance before the
/// loan plus the fee, `amount * fee / BPS_DENOMINATOR` rounded down.
pub open spec fn expected_balance_spec(balance: u64, amount: u64, fee: u16) -> int {
    balance + amount * fee / BPS_DENOMINATOR as int
}

/// The escrow entries of a loan, or none when an expected balance does not
/// fit in 64 bits.
pub open spec fn loan_entries_spec(
    fee: u16,
    amounts: Seq<u64>,
    pairs: Seq<(Seq<u8>, Seq<u8>)>,
    balances: Seq<u64>,
) -> Option<Seq<(Seq<u8>, Seq<u8>, u64)>> {
    if exists|i: int|
        0 <= i < amounts.len() && #[trigger] expected_balance_spec(balances[i], amounts[i], fee)
            > u64::MAX {
        None
    } else {
        Some(
            Seq::new(
                amounts.len(),
                |i: int|
                    (
                        pairs[i].0,
                        pairs[i].1,
                        expected_balance_spec(balances[i], amounts[i], fee) as u64,
                    ),
            ),
        )
    }
}

fn expected_balance(balance: u64, amount: u64, fee: u16) -> (r: Option<u64>)
    ensures
        r == (if expected_balance_spec(balance, amount, fee) <= u64::MAX {
            Some(expected_balance_spec(balance, amount, fee) as u64)
        } else {
            None
        }),
{
    proof {
        assert(0 <= amount * fee <= u64::MAX * 0xffff) by (nonlinear_arith)
            requires
                0 <= amount <= u64::MAX,
                0 <= fee <= 0xffff,
        ;
        assert(amount * fee / BPS_DENOMINATOR as int >= 0) by (nonlinear_arith)
            requires
                amount * fee >= 0,
        ;
    }
    let part = (amount as u128) * (fee as u128) / (BPS_DENOMINATOR as u128);
    let total = (balance as u128) + part;
    if total > u64::MAX as u128 {
        None
    } else {
        Some(total as u64)
    }
}

/// Whether a loan with payload `d`, accounts `keys` and an escrow record
/// holding `loan_data_len` bytes is well formed, or the error that refuses it.
pub open spec fn loan_check_spec(d: Seq<u8>, keys: Seq<[u8; 32]>, loan_data_len: usize) -> Result<
    (),
    EscrowError,
> {
    let rest = keys.subrange(LOAN_FIXED_ACCOUNTS as int, keys.len() as int);
    if keys.len() < LOAN_FIXED_ACCOUNTS {
        Err(EscrowError::NotEnoughAccountKeys)
    } else if !pairs_valid(rest) || loan_data_len != 0 || !keys_distinct(protocol_keys(rest)) {
        Err(EscrowError::InvalidAccountData)
    } else if !loan_payload_valid(d) || loan_amounts_spec(d).len() != rest.len() / 2 {
        Err(EscrowError::InvalidInstructionData)
    } else {
        Ok(())
    }
}

/// A checked loan.
#[derive(Clone, Debug)]
pub struct Loan {
    pub accounts: LoanAccounts,
    pub instruction_data: LoanInstructionData,
}

impl Loan {
    /// Amounts and token pairs agree, and the pairs are in bounds.
    pub open spec fn wf(self) -> bool {
        &&& pairs_valid(self.accounts.token_accounts@)
        &&& self.instruction_data.amounts@.len() == self.accounts.token_accounts@.len() / 2
    }

    /// Checks the accounts, then the payload; fails with
    /// `InvalidInstructionData` when the number of amounts is not the
    /// number of pairs.
    pub fn try_from(data: &[u8], keys: &Vec<[u8; 32]>, loan_data_len: usize) -> (r: Result<
        Self,
        EscrowError,
    >)
        ensures
            match loan_check_spec(data@, keys@, loan_data_len) {
                Ok(_) => r matches Ok(l) && l.wf() && l.accounts.token_accounts@ == keys@.subrange(
                    LOAN_FIXED_ACCOUNTS as int,
                    keys@.len() as int,
                ) && l.accounts.borrower == keys@[0] && l.accounts.protocol == keys@[1]
                    && l.accounts.loan == keys@[2] && l.instruction_data.bump[0] == data@[0]
                    && l.instruction_data.fee == u16_at(data@, 1) && l.instruction_data.amounts@
                    == loan_amounts_spec(data@),
                Err(e) => r matches Err(e2) && e2 == e,
            },
    {
        let accounts = LoanAccounts::try_from(keys, loan_data_len)?;
        let instruction_data = LoanInstructionData::try_from(data)?;
        if instruction_data.amounts.len() != accounts.token_accounts.len() / 2 {
            return Err(EscrowError::InvalidInstructionData);
        }
        Ok(Loan { accounts, instruction_data })
    }

    /// Records the loan: one escrow entry per pair, holding the pair's two
    /// accounts and the borrower's balance before the loan
    /// (`borrower_balances`) plus the fee. Fails first with
    /// `MissingRepayInstruction` unless an instruction after the one at
    /// `current` repays this loan to `program_id`, then with
    /// `ArithmeticOverflow` when an expected balance does not fit.
    ///
    /// On success each pair's amount moves from its protocol account to its
    /// borrower account, and the entries are written to the escrow record.
    pub fn process(
        &self,
        borrower_balances: &Vec<u64>,
        instructions: &Vec<InstructionView>,
        current: usize,
        program_id: &[u8; 32],
    ) -> (r: Result<Vec<LoanData>, EscrowError>)
        requires
            self.wf(),
            borrower_balances@.len() == self.instruction_data.amounts@.len(),
        ensures
            !repay_follows(instructions@, current as int, program_id@, self.accounts.loan@) ==> (
            r matches Err(e) && e == EscrowError::MissingRepayInstruction),
            repay_follows(instructions@, current as int, program_id@, self.accounts.loan@)
                ==> match loan_entries_spec(
                self.instruction_data.fee,
                self.instruction_data.amounts@,
                pair_keys(self.accounts.token_accounts@),
                borrower_balances@,
            ) {
                None => r matches Err(e) && e == EscrowError::ArithmeticOverflow,
                Some(es) => r matches Ok(v) && loan_entry_views(v@) == es,
            },
    {
        check_repay_follows(instructions, current, program_id, &self.accounts.loan)?;
        let n = self.instruction_data.amounts.len();
        let fee = self.instruction_data.fee;
        let ghost pairs = pair_keys(self.accounts.token_accounts@);
        let ghost amounts = self.instruction_data.amounts@;
        let ghost f = |k: int|
            (
                pairs[k].0,
                pairs[k].1,
                expected_balance_spec(borrower_balances@[k], amounts[k], fee) as u64,
            );
        let mut entries: Vec<LoanData> = Vec::new();
        let mut i: usize = 0;
        while i < n
            invariant
                self.wf(),
                repay_follows(instructions@, current as int, program_id@, self.accounts.loan@),
                n == amounts.len(),
                amounts == self.instruction_data.amounts@,
                pairs == pair_keys(self.accounts.token_accounts@),
                fee == self.instruction_data.fee,
                f == (|k: int|
                    (
                        pairs[k].0,
                        pairs[k].1,
                        expected_balance_spec(borrower_balances@[k], amounts[k], fee) as u64,
                    )),
                borrower_balances@.len() == n,
                i <= n,
                entries@.len() == i,
                forall|k: int|
                    0 <= k < i ==> expected_balance_spec(borrower_balances@[k], amounts[k], fee)
                        <= u64::MAX,
                loan_entry_views(entries@) == Seq::new(i as nat, f),
            decreases n - i,
        {
            let expected = match expected_balance(
                borrower_balances[i],
                self.instruction_data.amounts[i],
                fee,
            ) {
                Some(expected) => expected,
                None => {
                    return Err(EscrowError::ArithmeticOverflow);
                },
            };
            let ghost before = entries@;
            entries.push(
                LoanData {
                    protocol_token_account: self.accounts.token_accounts[2 * i],
                    borrower_token_account: self.accounts.token_accounts[2 * i + 1],
                    expected_balance: expected,
                },
            );
            proof {
                assert(pairs[i as int] == (
                    self.accounts.token_accounts@[2 * i]@,
                    self.accounts.token_accounts@[2 * i + 1]@,
                ));
                assert forall|k: int| 0 <= k < i implies #[trigger] loan_entry_views(entries@)[k]
                    == loan_entry_views(before)[k] by {
                    assert(entries@[k] == before[k]);
                }
                assert(loan_entry_views(entries@) =~= Seq::new((i + 1) as nat, f));
            }
            i += 1;
        }
        Ok(entries)
    }
}

/// The accounts of a repay, by role.
#[derive(Clone, Debug)]
pub struct RepayAccounts {
    pub borrower: [u8; 32],
    /// The escrow record written by the loan.
    pub loan: [u8; 32],
    /// `(protocol, borrower)` token account pairs, in the loan's order.
    pub token_accounts: Vec<[u8; 32]>,
}

impl RepayAccounts {
    /// Splits the account list by role. Fails with `NotEnoughAccountKeys`
    /// when the fixed accounts are missing, and with `InvalidAccountData`
    /// unless one to [`MAX_LOAN_PAIRS`] whole pairs follow.
    pub fn try_from(keys: &Vec<[u8; 32]>) -> (r: Result<Self, EscrowError>)
        ensures
            keys@.len() < REPAY_FIXED_ACCOUNTS ==> (r matches Err(e) && e
                == EscrowError::NotEnoughAccountKeys),
            keys@.len() >= REPAY_FIXED_ACCOUNTS ==> ({
                let rest = keys@.subrange(REPAY_FIXED_ACCOUNTS as int, keys@.len() as int);
                &&& r is Ok <==> pairs_valid(rest)
                &&& r is Err ==> (r matches Err(e) && e == EscrowError::InvalidAccountData)
                &&& r matches Ok(a) ==> a.borrower == keys@[0] && a.loan == keys@[1]
                    && a.token_accounts@ == rest
            }),
    {
        if keys.len() < REPAY_FIXED_ACCOUNTS {
            return Err(EscrowError::NotEnoughAccountKeys);
        }
        let token_accounts = tail_keys(keys, REPAY_FIXED_ACCOUNTS);
        if token_accounts.len() % 2 != 0 || token_accounts.len() / 2 > MAX_LOAN_PAIRS
            || token_accounts.len() < 2 {
            return Err(EscrowError::InvalidAccountData);
        }
        Ok(RepayAccounts { borrower: keys[0], loan: keys[1], token_accounts })
    }
}

/// What each borrower still owes: the shortfall of its balance below the
/// expected one, or nothing once it has reached it.
pub open spec fn shortfall(expected: u64, balance: u64) -> u64 {
    if balance < expected {
        (expected - balance) as u64
    } else {
        0
    }
}

/// The pairs that an escrow record names, as (protocol, borrower).
pub open spec fn recorded_pairs(record: Seq<u8>) -> Seq<(Seq<u8>, Seq<u8>)> {
    Seq::new(record_view(record).len(), |i: int| (record_view(record)[i].0, record_view(record)[i].1))
}

/// The transfers that settle a recorded loan against the token account
/// pairs `pairs`, or the error that refuses them: the pairs must be the
/// recorded ones, in number and order.
pub open spec fn repay_outcome(
    record: Seq<u8>,
    pairs: Seq<(Seq<u8>, Seq<u8>)>,
    balances: Seq<u64>,
) -> Result<Seq<u64>, EscrowError> {
    let es = record_view(record);
    if !record_valid(record) || recorded_pairs(record) != pairs {
        Err(EscrowError::InvalidAccountData)
    } else {
        Ok(Seq::new(pairs.len(), |i: int| shortfall(es[i].2, balances[i])))
    }
}

/// A checked repay.
#[derive(Clone, Debug)]
pub struct Repay {
    pub accounts: RepayAccounts,
}

impl Repay {
    pub open spec fn wf(self) -> bool {
        pairs_valid(self.accounts.token_accounts@)
    }

    pub fn try_from(keys: &Vec<[u8; 32]>) -> (r: Result<Self, EscrowError>)
        ensures
            r matches Ok(rp) ==> rp.wf() && rp.accounts.token_accounts@ == keys@.subrange(
                REPAY_FIXED_ACCOUNTS as int,
                keys@.len() as int,
            ) && rp.accounts.borrower == keys@[0] && rp.accounts.loan == keys@[1],
            keys@.len() < REPAY_FIXED_ACCOUNTS ==> (r matches Err(e) && e
                == EscrowError::NotEnoughAccountKeys),
            keys@.len() >= REPAY_FIXED_ACCOUNTS ==> (r is Ok <==> pairs_valid(
                keys@.subrange(REPAY_FIXED_ACCOUNTS as int, keys@.len() as int),
            )),
            keys@.len() >= REPAY_FIXED_ACCOUNTS && r is Err ==> (r matches Err(e) && e
                == EscrowError::InvalidAccountData),
    {
        let accounts = RepayAccounts::try_from(keys)?;
        Ok(Repay { accounts })
    }

    /// Settles the loan recorded in `record` (the escrow record's data):
    /// for each pair, in order, what the borrower must still transfer to
    /// the protocol account, given the borrower's balance now
    /// (`borrower_balances`). Fails with `InvalidAccountData` when the
    /// record is malformed or its `(protocol, borrower)` pairs are not, in
    /// number and order, the pairs supplied.
    ///
    /// On success each nonzero shortfall moves from the borrower account to
    /// the protocol account, signed by the borrower.
    pub fn process(&self, record: &[u8], borrower_balances: &Vec<u64>) -> (r: Result<
        Vec<u64>,
        EscrowError,
    >)
        requires
            self.wf(),
            borrower_balances@.len() == self.accounts.token_accounts@.len() / 2,
        ensures
            match repay_outcome(record@, pair_keys(self.accounts.token_accounts@), borrower_balances@) {
                Ok(s) => r matches Ok(v) && v@ == s,
                Err(e) => r matches Err(e2) && e2 == e,
            },
    {
        let entries = decode_loan_record(record)?;
        let n = self.accounts.token_accounts.len() / 2;
        let ghost pairs = pair_keys(self.accounts.token_accounts@);
        let ghost es = record_view(record@);
        assert(es.len() == entries@.len());
        if entries.len() != n {
            assert(recorded_pairs(record@).len() != pairs.len());
            return Err(EscrowError::InvalidAccountData);
        }
        let mut owed: Vec<u64> = Vec::new();
        let mut i: usize = 0;
        while i < n
            invariant
                self.wf(),
                n == pairs.len(),
                pairs == pair_keys(self.accounts.token_accounts@),
                es == record_view(record@),
                loan_entry_views(entries@) == es,
                entries@.len() == n,
                borrower_balances@.len() == n,
                i <= n,
                forall|k: int| 0 <= k < i ==> (es[k].0, es[k].1) == pairs[k],
                owed@ == Seq::new(i as nat, |k: int| shortfall(es[k].2, borrower_balances@[k])),
            decreases n - i,
        {
            let entry = &entries[i];
            assert(es[i as int] == (
                entry.protocol_token_account@,
                entry.borrower_token_account@,
                entry.expected_balance,
            ));
            assert(pairs[i as int] == (
                self.accounts.token_accounts@[2 * i]@,
                self.accounts.token_accounts@[2 * i + 1]@,
            ));
            if !keys_equal(&entry.protocol_token_account, &self.accounts.token_accounts[2 * i])
                || !keys_equal(
                &entry.borrower_token_account,
                &self.accounts.token_accounts[2 * i + 1],
            ) {
                assert(recorded_pairs(record@)[i as int] != pairs[i as int]);
                return Err(EscrowError::InvalidAccountData);
            }
            let balance = borrower_balances[i];
            owed.push(
                if balance < entry.expected_balance {
                    entry.expected_balance - balance
                } else {
                    0
                },
            );
            i += 1;
            assert(owed@ =~= Seq::new(
                i as nat,
                |k: int| shortfall(es[k].2, borrower_balances@[k]),
            ));
        }
        assert(recorded_pairs(record@) =~= pairs);
        Ok(owed)
    }
}

/// Right after a loan at a fee of at most a whole, a repay against the same
/// pairs succeeds, moves nothing, and finds every borrower account at or
/// above its expected balance: each holds its balance before the loan plus
/// the amount borrowed, and the fee is at most that amount.
pub proof fn lemma_loan_then_repay_settles(
    fee: u16,
    amounts: Seq<u64>,
    pairs: Seq<(Seq<u8>, Seq<u8>)>,
    before: Seq<u64>,
    record: Seq<u8>,
)
    requires
        fee <= BPS_DENOMINATOR,
        1 <= amounts.len() <= MAX_LOAN_PAIRS,
        pairs.len() == amounts.len(),
        before.len() == amounts.len(),
        loan_entries_spec(fee, amounts, pairs, before) is Some,
        record.len() == LOAN_ENTRY_LEN * amounts.len(),
        record_view(record) == loan_entries_spec(fee, amounts, pairs, before)->Some_0,
        forall|i: int| 0 <= i < amounts.len() ==> before[i] + amounts[i] <= u64::MAX,
    ensures
        ({
            let after = Seq::new(amounts.len(), |i: int| (before[i] + amounts[i]) as u64);
            &&& repay_outcome(record, pairs, after) == Ok::<Seq<u64>, EscrowError>(
                Seq::new(amounts.len(), |_i: int| 0u64),
            )
            &&& forall|i: int| 0 <= i < amounts.len() ==> after[i] >= record_view(record)[i].2
        }),
{
    let n = amounts.len();
    let after = Seq::new(n, |i: int| (before[i] + amounts[i]) as u64);
    let es = record_view(record);
    assert(record_valid(record));
    assert forall|i: int| 0 <= i < n implies after[i] >= #[trigger] es[i].2 by {
        let a = amounts[i] as int;
        let f = fee as int;
        assert(a * f / 10000 <= a) by (nonlinear_arith)
            requires
                a >= 0,
                0 <= f <= 10000,
        {
            assert(a * f <= a * 10000);
            vstd::arithmetic::div_mod::lemma_div_is_ordered(a * f, a * 10000, 10000);
        }
        assert(es[i].2 == expected_balance_spec(before[i], amounts[i], fee));
    }
    assert(recorded_pairs(record) =~= pairs);
    assert(Seq::new(n, |i: int| shortfall(es[i].2, after[i])) =~= Seq::new(n, |_i: int| 0u64));
}

/// A repay whose `(protocol, borrower)` pairs are not, in number and order,
/// the ones recorded by the loan fails with `InvalidAccountData`, and so
/// settles nothing.
pub proof fn lemma_repay_other_accounts_fails(
    record: Seq<u8>,
    pairs: Seq<(Seq<u8>, Seq<u8>)>,
    balances: Seq<u64>,
)
    requires
        pairs != recorded_pairs(record),
    ensures
        repay_outcome(record, pairs, balances) == Err::<Seq<u64>, EscrowError>(
            EscrowError::InvalidAccountData,
        ),
{
}

} // verus!
