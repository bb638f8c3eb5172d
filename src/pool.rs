//! Deposit, withdraw and swap: payload decoding, the checks against the
//! pool's configuration and the amounts each operation resolves to.
//!
//! The token transfers, mints and burns that follow are carried out by the
//! caller with the amounts decided here.
use vstd::prelude::*;

use crate::bytes::{i64_at, key_at, keys_equal, read_i64, read_key, read_u16, read_u64, u16_at, u64_at};
use crate::curve::{
    deposit_amounts, deposit_amounts_spec, swap, swap_spec, withdraw_amounts,
    withdraw_amounts_spec, SwapQuote, BPS_DENOMINATOR,
};
use crate::error::EscrowError;
use crate::state::{
    config_bytes_valid, system_program_id, no_authority, Config, AUTH_BUMP_AT, CONFIG_BUMP_AT,
    LOCKED_AT, MINT_X_AT, MINT_Y_AT, SEED_AT,
};

verus! {

/// Instruction byte of an initialization.
pub const INITIALIZE_DISCRIMINATOR: u8 = 0;

/// Instruction byte of a deposit.
pub const DEPOSIT_DISCRIMINATOR: u8 = 1;

/// Instruction byte of a withdrawal.
pub const WITHDRAW_DISCRIMINATOR: u8 = 2;

/// Instruction byte of a swap.
pub const SWAP_DISCRIMINATOR: u8 = 3;

/// Length of the deposit and withdraw payloads.
pub const BOUNDS_PAYLOAD_LEN: usize = 32;

/// Length of the swap payload.
pub const SWAP_PAYLOAD_LEN: usize = 25;

/// Rejects an offer whose `expiration` (a Unix time) lies before `now`.
pub fn check_expiration(expiration: i64, now: i64) -> (r: Result<(), EscrowError>)
    ensures
        r is Ok <==> expiration >= now,
        r is Err ==> r == Err::<(), EscrowError>(EscrowError::Expired),
{
    if expiration < now {
        Err(EscrowError::Expired)
    } else {
        Ok(())
    }
}

/// The four fields shared by the deposit and withdraw payloads: the
/// liquidity amount, two per-asset bounds and the expiration.
pub open spec fn bounds_payload_spec(d: Seq<u8>, now: i64) -> Result<
    (u64, u64, u64, i64),
    EscrowError,
> {
    if d.len() != BOUNDS_PAYLOAD_LEN {
        Err(EscrowError::InvalidInstructionData)
    } else if u64_at(d, 0) == 0 || u64_at(d, 8) == 0 || u64_at(d, 16) == 0 {
        Err(EscrowError::InvalidInstructionData)
    } else if i64_at(d, 24) < now {
        Err(EscrowError::Expired)
    } else {
        Ok((u64_at(d, 0) as u64, u64_at(d, 8) as u64, u64_at(d, 16) as u64, i64_at(d, 24) as i64))
    }
}

fn decode_bounds_payload(data: &[u8], now: i64) -> (r: Result<(u64, u64, u64, i64), EscrowError>)
    ensures
        r == bounds_payload_spec(data@, now),
{
    if data.len() != BOUNDS_PAYLOAD_LEN {
        return Err(EscrowError::InvalidInstructionData);
    }
    let amount = read_u64(data, 0);
    let first = read_u64(data, 8);
    let second = read_u64(data, 16);
    if amount == 0 || first == 0 || second == 0 {
        return Err(EscrowError::InvalidInstructionData);
    }
    let expiration = read_i64(data, 24);
    check_expiration(expiration, now)?;
    Ok((amount, first, second, expiration))
}

/// Deposit payload: `amount:u64, max_x:u64, max_y:u64, expiration:i64`.
#[derive(Clone, Copy, Debug, PartialEq, Eq, Structural)]
pub struct DepositInstructionData {
    /// Liquidity units to mint.
    pub amount: u64,
    /// Most of asset X the depositor will pay.
    pub max_x: u64,
    /// Most of asset Y the depositor will pay.
    pub max_y: u64,
    pub expiration: i64,
}

impl DepositInstructionData {
    /// Decodes the payload; every amount must be nonzero
    /// (`InvalidInstructionData`) and the offer not expired (`Expired`).
    pub fn try_from(data: &[u8], now: i64) -> (r: Result<Self, EscrowError>)
        ensures
            match bounds_payload_spec(data@, now) {
                Ok((amount, max_x, max_y, expiration)) => r == Ok::<Self, EscrowError>(
                    Self { amount, max_x, max_y, expiration },
                ),
                Err(e) => r == Err::<Self, EscrowError>(e),
            },
    {
        let (amount, max_x, max_y, expiration) = decode_bounds_payload(data, now)?;
        Ok(Self { amount, max_x, max_y, expiration })
    }
}

/// Withdraw payload: `amount:u64, min_x:u64, min_y:u64, expiration:i64`.
#[derive(Clone, Copy, Debug, PartialEq, Eq, Structural)]
pub struct WithdrawInstructionData {
    /// Liquidity units to burn.
    pub amount: u64,
    /// Bound on the asset X paid out.
    pub min_x: u64,
    /// Bound on the asset Y paid out.
    pub min_y: u64,
    pub expiration: i64,
}

impl WithdrawInstructionData {
    /// Decodes the payload; every amount must be nonzero
    /// (`InvalidInstructionData`) and the offer not expired (`Expired`).
    pub fn try_from(data: &[u8], now: i64) -> (r: Result<Self, EscrowError>)
        ensures
            match bounds_payload_spec(data@, now) {
                Ok((amount, min_x, min_y, expiration)) => r == Ok::<Self, EscrowError>(
                    Self { amount, min_x, min_y, expiration },
                ),
                Err(e) => r == Err::<Self, EscrowError>(e),
            },
    {
        let (amount, min_x, min_y, expiration) = decode_bounds_payload(data, now)?;
        Ok(Self { amount, min_x, min_y, expiration })
    }
}

/// Swap payload: `is_x:u8, amount:u64, min:u64, expiration:i64`.
#[derive(Clone, Copy, Debug, PartialEq, Eq, Structural)]
pub struct SwapInstructionData {
    /// Whether the trader pays in asset X (and receives Y).
    pub is_x: bool,
    /// What the trader pays in, fee included.
    pub amount: u64,
    /// Least output the trader accepts.
    pub min: u64,
    pub expiration: i64,
}

/// The decoded swap payload, or the error that refuses it.
pub open spec fn swap_payload_spec(d: Seq<u8>, now: i64) -> Result<SwapInstructionData, EscrowError> {
    if d.len() != SWAP_PAYLOAD_LEN {
        Err(EscrowError::InvalidInstructionData)
    } else if u64_at(d, 1) == 0 || u64_at(d, 9) == 0 {
        Err(EscrowError::InvalidInstructionData)
    } else if d[0] > 1 {
        Err(EscrowError::InvalidInstructionData)
    } else if i64_at(d, 17) < now {
        Err(EscrowError::Expired)
    } else {
        Ok(
            SwapInstructionData {
                is_x: d[0] == 1,
                amount: u64_at(d, 1) as u64,
                min: u64_at(d, 9) as u64,
                expiration: i64_at(d, 17) as i64,
            },
        )
    }
}

impl SwapInstructionData {
    /// Decodes the payload; the amounts must be nonzero and the side byte 0
    /// or 1 (`InvalidInstructionData`), and the offer not expired (`Expired`).
    pub fn try_from(data: &[u8], now: i64) -> (r: Result<Self, EscrowError>)
        ensures
            r == swap_payload_spec(data@, now),
    {
        if data.len() != SWAP_PAYLOAD_LEN {
            return Err(EscrowError::InvalidInstructionData);
        }
        let side = data[0];
        let amount = read_u64(data, 1);
        let min = read_u64(data, 9);
        if amount == 0 || min == 0 {
            return Err(EscrowError::InvalidInstructionData);
        }
        if side > 1 {
            return Err(EscrowError::InvalidInstructionData);
        }
        let expiration = read_i64(data, 17);
        check_expiration(expiration, now)?;
        Ok(Self { is_x: side == 1, amount, min, expiration })
    }
}

/// What an operation reads from the pool's token accounts.
#[derive(Clone, Copy, Debug, PartialEq, Eq, Structural)]
pub struct PoolBalances {
    /// Balance of the pool's asset X vault.
    pub vault_x: u64,
    /// Balance of the pool's asset Y vault.
    pub vault_y: u64,
    /// Liquidity units outstanding.
    pub lp_supply: u64,
}

/// Whether the configuration in `cfg` admits an operation on the mints
/// `mint_x` and `mint_y`, or the error that refuses it.
pub open spec fn pool_check_spec(cfg: Seq<u8>, mint_x: Seq<u8>, mint_y: Seq<u8>) -> Result<
    (),
    EscrowError,
> {
    if !config_bytes_valid(cfg) {
        Err(EscrowError::InvalidAccountData)
    } else if cfg[LOCKED_AT as int] == 1 {
        Err(EscrowError::PoolLocked)
    } else if key_at(cfg, MINT_X_AT as int) != mint_x || key_at(cfg, MINT_Y_AT as int) != mint_y {
        Err(EscrowError::InvalidArgument)
    } else {
        Ok(())
    }
}

/// Loads the configuration and checks that the pool is open and trades
/// exactly the mints supplied.
fn open_pool(config_data: &[u8], mint_x: &[u8; 32], mint_y: &[u8; 32]) -> (r: Result<
    Config,
    EscrowError,
>)
    ensures
        match pool_check_spec(config_data@, mint_x@, mint_y@) {
            Ok(_) => r matches Ok(c) && c.encoded_in(config_data@) && c.wf(),
            Err(e) => r == Err::<Config, EscrowError>(e),
        },
{
    let config = Config::load(config_data)?;
    if config.is_locked() {
        return Err(EscrowError::PoolLocked);
    }
    if !keys_equal(&config.mint_x, mint_x) || !keys_equal(&config.mint_y, mint_y) {
        return Err(EscrowError::InvalidArgument);
    }
    Ok(config)
}

/// The payload and amounts of a deposit, or the error that refuses it.
pub open spec fn deposit_spec(
    data: Seq<u8>,
    now: i64,
    cfg: Seq<u8>,
    mint_x: Seq<u8>,
    mint_y: Seq<u8>,
    b: PoolBalances,
) -> Result<(DepositInstructionData, (u64, u64)), EscrowError> {
    match bounds_payload_spec(data, now) {
        Err(e) => Err(e),
        Ok((amount, max_x, max_y, expiration)) => match pool_check_spec(cfg, mint_x, mint_y) {
            Err(e) => Err(e),
            Ok(_) => match deposit_amounts_spec(
                b.vault_x,
                b.vault_y,
                b.lp_supply,
                amount,
                max_x,
                max_y,
            ) {
                Err(e) => Err(e),
                Ok((x, y)) => if x <= max_x && y <= max_y {
                    Ok((DepositInstructionData { amount, max_x, max_y, expiration }, (x, y)))
                } else {
                    Err(EscrowError::SlippageExceeded)
                },
            },
        },
    }
}

/// A checked deposit: the depositor pays `amounts` into the vaults and
/// receives `instruction_data.amount` liquidity units, minted under the
/// pool's transfer authority, whose bump is `bump`.
#[derive(Clone, Copy, Debug)]
pub struct Deposit {
    pub instruction_data: DepositInstructionData,
    pub amounts: (u64, u64),
    pub bump: [u8; 1],
}

impl Deposit {
    /// Decodes the payload, checks the pool and resolves the amounts;
    /// refuses with `SlippageExceeded` amounts above the depositor's maxima.
    pub fn try_from(
        data: &[u8],
        now: i64,
        config_data: &[u8],
        mint_x: &[u8; 32],
        mint_y: &[u8; 32],
        balances: PoolBalances,
    ) -> (r: Result<Deposit, EscrowError>)
        ensures
            match deposit_spec(data@, now, config_data@, mint_x@, mint_y@, balances) {
                Ok((d, amounts)) => r matches Ok(dep) && dep.instruction_data == d && dep.amounts
                    == amounts && dep.bump[0] == config_data@[AUTH_BUMP_AT as int],
                Err(e) => r matches Err(e2) && e2 == e,
            },
    {
        let instruction_data = DepositInstructionData::try_from(data, now)?;
        let config = open_pool(config_data, mint_x, mint_y)?;
        let (x, y) = deposit_amounts(
            balances.vault_x,
            balances.vault_y,
            balances.lp_supply,
            instruction_data.amount,
            instruction_data.max_x,
            instruction_data.max_y,
        )?;
        if !(x <= instruction_data.max_x && y <= instruction_data.max_y) {
            return Err(EscrowError::SlippageExceeded);
        }
        Ok(Deposit { instruction_data, amounts: (x, y), bump: [config.auth_bump] })
    }
}

/// The payload and amounts of a withdrawal, or the error that refuses it.
pub open spec fn withdraw_spec(
    data: Seq<u8>,
    now: i64,
    cfg: Seq<u8>,
    mint_x: Seq<u8>,
    mint_y: Seq<u8>,
    b: PoolBalances,
) -> Result<(WithdrawInstructionData, (u64, u64)), EscrowError> {
    match bounds_payload_spec(data, now) {
        Err(e) => Err(e),
        Ok((amount, min_x, min_y, expiration)) => match pool_check_spec(cfg, mint_x, mint_y) {
            Err(e) => Err(e),
            Ok(_) => match withdraw_amounts_spec(b.vault_x, b.vault_y, b.lp_supply, amount) {
                Err(e) => Err(e),
                Ok((x, y)) => if x <= min_x && y <= min_y {
                    Ok((WithdrawInstructionData { amount, min_x, min_y, expiration }, (x, y)))
                } else {
                    Err(EscrowError::SlippageExceeded)
                },
            },
        },
    }
}

/// A checked withdrawal: the user burns `instruction_data.amount` liquidity
/// units and receives `amounts` from the vaults, which the pool's
/// configuration address (seed `seed`, bump `bump`) signs for.
#[derive(Clone, Copy, Debug)]
pub struct Withdraw {
    pub instruction_data: WithdrawInstructionData,
    pub amounts: (u64, u64),
    pub seed: u64,
    pub bump: [u8; 1],
}

impl Withdraw {
    /// Decodes the payload, checks the pool and resolves the amounts;
    /// refuses with `SlippageExceeded` amounts above the payload's bounds.
    pub fn try_from(
        data: &[u8],
        now: i64,
        config_data: &[u8],
        mint_x: &[u8; 32],
        mint_y: &[u8; 32],
        balances: PoolBalances,
    ) -> (r: Result<Withdraw, EscrowError>)
        ensures
            match withdraw_spec(data@, now, config_data@, mint_x@, mint_y@, balances) {
                Ok((d, amounts)) => r matches Ok(w) && w.instruction_data == d && w.amounts
                    == amounts && w.seed == u64_at(config_data@, SEED_AT as int) && w.bump[0]
                    == config_data@[CONFIG_BUMP_AT as int],
                Err(e) => r matches Err(e2) && e2 == e,
            },
    {
        let instruction_data = WithdrawInstructionData::try_from(data, now)?;
        let config = open_pool(config_data, mint_x, mint_y)?;
        let (x, y) = withdraw_amounts(
            balances.vault_x,
            balances.vault_y,
            balances.lp_supply,
            instruction_data.amount,
        )?;
        if !(x <= instruction_data.min_x && y <= instruction_data.min_y) {
            return Err(EscrowError::SlippageExceeded);
        }
        Ok(
            Withdraw {
                instruction_data,
                amounts: (x, y),
                seed: config.seed,
                bump: [config.config_bump],
            },
        )
    }
}

/// The reserves a swap trades against: `(input, output)`.
pub open spec fn swap_reserves(is_x: bool, b: PoolBalances) -> (u64, u64) {
    if is_x {
        (b.vault_x, b.vault_y)
    } else {
        (b.vault_y, b.vault_x)
    }
}

/// The payload and priced legs of a swap, or the error that refuses it.
pub open spec fn swap_outcome_spec(
    data: Seq<u8>,
    now: i64,
    cfg: Seq<u8>,
    mint_x: Seq<u8>,
    mint_y: Seq<u8>,
    b: PoolBalances,
) -> Result<(SwapInstructionData, SwapQuote), EscrowError> {
    match swap_payload_spec(data, now) {
        Err(e) => Err(e),
        Ok(d) => match pool_check_spec(cfg, mint_x, mint_y) {
            Err(e) => Err(e),
            Ok(_) => {
                let (reserve_in, reserve_out) = swap_reserves(d.is_x, b);
                match swap_spec(
                    reserve_in,
                    reserve_out,
                    u16_at(cfg, crate::state::FEE_AT as int) as u16,
                    d.amount,
                    d.min,
                ) {
                    Err(e) => Err(e),
                    Ok(q) => Ok((d, q)),
                }
            },
        },
    }
}

/// A checked swap: the trader pays `amounts.0` into the input vault and
/// receives `amounts.1` from the output vault, which the pool's
/// configuration address (seed `seed`, bump `bump`) signs for.
#[derive(Clone, Copy, Debug)]
pub struct Swap {
    pub instruction_data: SwapInstructionData,
    pub quote: SwapQuote,
    pub amounts: (u64, u64),
    pub seed: u64,
    pub bump: [u8; 1],
}

impl Swap {
    /// Decodes the payload, checks the pool and prices the swap at the
    /// pool's fee.
    pub fn try_from(
        data: &[u8],
        now: i64,
        config_data: &[u8],
        mint_x: &[u8; 32],
        mint_y: &[u8; 32],
        balances: PoolBalances,
    ) -> (r: Result<Swap, EscrowError>)
        ensures
            match swap_outcome_spec(data@, now, config_data@, mint_x@, mint_y@, balances) {
                Ok((d, q)) => r matches Ok(s) && s.instruction_data == d && s.quote == q
                    && s.amounts == (q.amount_in, q.amount_out) && s.seed == u64_at(
                    config_data@,
                    SEED_AT as int,
                ) && s.bump[0] == config_data@[CONFIG_BUMP_AT as int],
                Err(e) => r matches Err(e2) && e2 == e,
            },
    {
        let instruction_data = SwapInstructionData::try_from(data, now)?;
        let config = open_pool(config_data, mint_x, mint_y)?;
        let (reserve_in, reserve_out) = if instruction_data.is_x {
            (balances.vault_x, balances.vault_y)
        } else {
            (balances.vault_y, balances.vault_x)
        };
        let quote = swap(
            reserve_in,
            reserve_out,
            config.fee,
            instruction_data.amount,
            instruction_data.min,
        )?;
        Ok(
            Swap {
                instruction_data,
                quote,
                amounts: (quote.amount_in, quote.amount_out),
                seed: config.seed,
                bump: [config.config_bump],
            },
        )
    }
}

/// Into an empty pool a valid deposit takes exactly the depositor's maxima
/// and mints exactly the liquidity units it asked for.
pub proof fn lemma_first_deposit(
    data: Seq<u8>,
    now: i64,
    cfg: Seq<u8>,
    mint_x: Seq<u8>,
    mint_y: Seq<u8>,
    b: PoolBalances,
)
    requires
        b.lp_supply == 0,
        bounds_payload_spec(data, now) is Ok,
        pool_check_spec(cfg, mint_x, mint_y) is Ok,
    ensures
        deposit_spec(data, now, cfg, mint_x, mint_y, b) is Ok,
        ({
            let (d, amounts) = deposit_spec(data, now, cfg, mint_x, mint_y, b)->Ok_0;
            &&& amounts == (d.max_x, d.max_y)
            &&& d.max_x == u64_at(data, 8)
            &&& d.max_y == u64_at(data, 16)
            &&& d.amount == u64_at(data, 0)
        }),
{
    crate::curve::lemma_first_deposit_takes_maxima(
        b.vault_x,
        b.vault_y,
        u64_at(data, 0) as u64,
        u64_at(data, 8) as u64,
        u64_at(data, 16) as u64,
    );
}

/// A swap whose minimum output is above what the pool can pay fails with
/// `SlippageExceeded`, so no transfer takes place and every balance stays
/// as it was.
pub proof fn lemma_swap_below_minimum_refused(
    data: Seq<u8>,
    now: i64,
    cfg: Seq<u8>,
    mint_x: Seq<u8>,
    mint_y: Seq<u8>,
    b: PoolBalances,
)
    requires
        swap_payload_spec(data, now) is Ok,
        pool_check_spec(cfg, mint_x, mint_y) is Ok,
        ({
            let d = swap_payload_spec(data, now)->Ok_0;
            let (reserve_in, reserve_out) = swap_reserves(d.is_x, b);
            &&& d.min > crate::curve::achievable_output(
                reserve_in,
                reserve_out,
                u16_at(cfg, crate::state::FEE_AT as int) as u16,
                d.amount,
            )
        }),
    ensures
        swap_outcome_spec(data, now, cfg, mint_x, mint_y, b) == Err::<
            (SwapInstructionData, SwapQuote),
            EscrowError,
        >(EscrowError::SlippageExceeded),
{
    let d = swap_payload_spec(data, now)->Ok_0;
    let (reserve_in, reserve_out) = swap_reserves(d.is_x, b);
    crate::curve::lemma_swap_below_minimum_fails(
        reserve_in,
        reserve_out,
        u16_at(cfg, crate::state::FEE_AT as int) as u16,
        d.amount,
        d.min,
    );
}

/// Length of the initialize payload without an authority.
pub const INITIALIZE_LEN: usize = 10;

/// Length of the initialize payload with an authority.
pub const INITIALIZE_WITH_AUTHORITY_LEN: usize = 42;

/// Whether `d` is a well-formed initialize payload.
pub open spec fn initialize_payload_valid(d: Seq<u8>) -> bool {
    &&& d.len() == INITIALIZE_LEN || d.len() == INITIALIZE_WITH_AUTHORITY_LEN
    &&& u16_at(d, 8) < BPS_DENOMINATOR
}

/// Initialize payload: `seed:u64, fee:u16 [, authority:32 bytes]`.
#[derive(Clone, Copy, Debug)]
pub struct InitializeInstructionData {
    pub seed: u64,
    /// Swap fee in basis points.
    pub fee: u16,
    /// Who may administer the pool; none makes it immutable from the start.
    pub authority: Option<[u8; 32]>,
}

impl InitializeInstructionData {
    /// Decodes the payload; fails with `InvalidInstructionData` on any other
    /// length or on a fee of a whole or more.
    pub fn try_from(data: &[u8]) -> (r: Result<Self, EscrowError>)
        ensures
            r is Ok <==> initialize_payload_valid(data@),
            r matches Ok(i) ==> {
                &&& i.seed == u64_at(data@, 0)
                &&& i.fee == u16_at(data@, 8)
                &&& data@.len() == INITIALIZE_LEN ==> i.authority is None
                &&& data@.len() == INITIALIZE_WITH_AUTHORITY_LEN ==> (i.authority matches Some(a)
                    && a@ == key_at(data@, 10))
            },
            r is Err ==> (r matches Err(e) && e == EscrowError::InvalidInstructionData),
    {
        if data.len() != INITIALIZE_LEN && data.len() != INITIALIZE_WITH_AUTHORITY_LEN {
            return Err(EscrowError::InvalidInstructionData);
        }
        let seed = read_u64(data, 0);
        let fee = read_u16(data, 8);
        if fee >= BPS_DENOMINATOR as u16 {
            return Err(EscrowError::InvalidInstructionData);
        }
        let authority = if data.len() == INITIALIZE_WITH_AUTHORITY_LEN {
            Some(read_key(data, 10))
        } else {
            None
        };
        Ok(Self { seed, fee, authority })
    }
}

/// A checked initialization of a pool for the pair `(mint_x, mint_y)`.
#[derive(Clone, Copy, Debug)]
pub struct Initialize {
    pub instruction_data: InitializeInstructionData,
    pub mint_x: [u8; 32],
    pub mint_y: [u8; 32],
    /// The configuration, liquidity-mint and transfer-authority bumps.
    pub bump: [u8; 3],
}

impl Initialize {
    /// Decodes the payload and checks that the two assets differ
    /// (`InvalidArgument` otherwise).
    pub fn try_from(data: &[u8], mint_x: &[u8; 32], mint_y: &[u8; 32], bump: [u8; 3]) -> (r:
        Result<Initialize, EscrowError>)
        ensures
            r is Ok <==> initialize_payload_valid(data@) && mint_x@ != mint_y@,
            r matches Ok(i) ==> {
                &&& i.mint_x == *mint_x
                &&& i.mint_y == *mint_y
                &&& i.bump == bump
                &&& i.instruction_data.seed == u64_at(data@, 0)
                &&& i.instruction_data.fee == u16_at(data@, 8)
                &&& i.instruction_data.fee < BPS_DENOMINATOR
                &&& data@.len() == INITIALIZE_LEN ==> i.instruction_data.authority is None
                &&& data@.len() == INITIALIZE_WITH_AUTHORITY_LEN ==> (i.instruction_data.authority matches Some(a)
                    && a@ == key_at(data@, 10))
            },
            r matches Err(e) ==> if initialize_payload_valid(data@) {
                e == EscrowError::InvalidArgument
            } else {
                e == EscrowError::InvalidInstructionData
            },
    {
        let instruction_data = InitializeInstructionData::try_from(data)?;
        if keys_equal(mint_x, mint_y) {
            return Err(EscrowError::InvalidArgument);
        }
        Ok(Initialize { instruction_data, mint_x: *mint_x, mint_y: *mint_y, bump })
    }

    /// The new pool's configuration: unlocked, and with no authority when
    /// the payload named none.
    pub fn process(&self) -> (c: Config)
        requires
            self.instruction_data.fee < BPS_DENOMINATOR,
        ensures
            c.wf(),
            c.seed == self.instruction_data.seed,
            c.fee == self.instruction_data.fee,
            !c.locked,
            c.mint_x == self.mint_x,
            c.mint_y == self.mint_y,
            match self.instruction_data.authority {
                Some(a) => c.authority == a,
                None => c.authority@ == no_authority(),
            },
            c.config_bump == self.bump[0],
            c.lp_bump == self.bump[1],
            c.auth_bump == self.bump[2],
    {
        let authority = match self.instruction_data.authority {
            Some(a) => a,
            None => system_program_id(),
        };
        Config {
            seed: self.instruction_data.seed,
            authority,
            mint_x: self.mint_x,
            mint_y: self.mint_y,
            fee: self.instruction_data.fee,
            locked: false,
            config_bump: self.bump[0],
            lp_bump: self.bump[1],
            auth_bump: self.bump[2],
        }
    }
}

} // verus!
