use flash_amm::error::EscrowError;
use flash_amm::pool::{
    check_expiration, Deposit, DepositInstructionData, Initialize, InitializeInstructionData,
    PoolBalances, Swap, SwapInstructionData, Withdraw, WithdrawInstructionData,
};
use flash_amm::state::Config;

const MINT_X: [u8; 32] = [7u8; 32];
const MINT_Y: [u8; 32] = [9u8; 32];

fn config(locked: bool, fee: u16) -> Config {
    Config {
        seed: 42,
        authority: [1u8; 32],
        mint_x: MINT_X,
        mint_y: MINT_Y,
        fee,
        locked,
        config_bump: 250,
        lp_bump: 251,
        auth_bump: 252,
    }
}

fn bounds_payload(amount: u64, a: u64, b: u64, expiration: i64) -> Vec<u8> {
    let mut v = Vec::new();
    v.extend_from_slice(&amount.to_le_bytes());
    v.extend_from_slice(&a.to_le_bytes());
    v.extend_from_slice(&b.to_le_bytes());
    v.extend_from_slice(&expiration.to_le_bytes());
    v
}

fn swap_payload(side: u8, amount: u64, min: u64, expiration: i64) -> Vec<u8> {
    let mut v = vec![side];
    v.extend_from_slice(&amount.to_le_bytes());
    v.extend_from_slice(&min.to_le_bytes());
    v.extend_from_slice(&expiration.to_le_bytes());
    v
}

fn balances(vault_x: u64, vault_y: u64, lp_supply: u64) -> PoolBalances {
    PoolBalances { vault_x, vault_y, lp_supply }
}

#[test]
fn expiration_guard() {
    assert_eq!(check_expiration(100, 100), Ok(()));
    assert_eq!(check_expiration(99, 100), Err(EscrowError::Expired));
}

#[test]
fn deposit_payload_decodes() {
    let d = DepositInstructionData::try_from(&bounds_payload(5, 6, 7, 1_000), 999).unwrap();
    assert_eq!(d, DepositInstructionData { amount: 5, max_x: 6, max_y: 7, expiration: 1_000 });
}

#[test]
fn deposit_payload_refusals() {
    assert_eq!(
        DepositInstructionData::try_from(&bounds_payload(0, 6, 7, 1_000), 0),
        Err(EscrowError::InvalidInstructionData)
    );
    assert_eq!(
        DepositInstructionData::try_from(&bounds_payload(5, 6, 0, 1_000), 0),
        Err(EscrowError::InvalidInstructionData)
    );
    assert_eq!(
        DepositInstructionData::try_from(&bounds_payload(5, 6, 7, 1_000)[..31], 0),
        Err(EscrowError::InvalidInstructionData)
    );
    assert_eq!(
        DepositInstructionData::try_from(&bounds_payload(5, 6, 7, 1_000), 1_001),
        Err(EscrowError::Expired)
    );
}

#[test]
fn negative_expiration_decodes() {
    let w = WithdrawInstructionData::try_from(&bounds_payload(1, 2, 3, -5), -10).unwrap();
    assert_eq!(w, WithdrawInstructionData { amount: 1, min_x: 2, min_y: 3, expiration: -5 });
    assert_eq!(
        WithdrawInstructionData::try_from(&bounds_payload(1, 2, 3, i64::MIN), -10),
        Err(EscrowError::Expired)
    );
}

#[test]
fn swap_payload_decodes_and_refuses() {
    let s = SwapInstructionData::try_from(&swap_payload(1, 100, 90, 50), 50).unwrap();
    assert_eq!(s, SwapInstructionData { is_x: true, amount: 100, min: 90, expiration: 50 });
    let s = SwapInstructionData::try_from(&swap_payload(0, 100, 90, 50), 50).unwrap();
    assert!(!s.is_x);
    assert_eq!(
        SwapInstructionData::try_from(&swap_payload(2, 100, 90, 50), 0),
        Err(EscrowError::InvalidInstructionData)
    );
    // an invalid side byte is a decoding error, even on an expired offer
    assert_eq!(
        SwapInstructionData::try_from(&swap_payload(2, 100, 90, 50), 51),
        Err(EscrowError::InvalidInstructionData)
    );
    assert_eq!(
        SwapInstructionData::try_from(&swap_payload(1, 0, 90, 50), 0),
        Err(EscrowError::InvalidInstructionData)
    );
    assert_eq!(
        SwapInstructionData::try_from(&swap_payload(1, 100, 90, 50)[..2], 0),
        Err(EscrowError::InvalidInstructionData)
    );
    assert_eq!(
        SwapInstructionData::try_from(&swap_payload(1, 100, 90, 50), 51),
        Err(EscrowError::Expired)
    );
}

#[test]
fn deposit_into_empty_pool_takes_maxima() {
    let cfg = config(false, 30).to_bytes();
    let d = Deposit::try_from(&bounds_payload(10, 500, 700, 9), 0, &cfg, &MINT_X, &MINT_Y, balances(0, 0, 0))
        .unwrap();
    assert_eq!(d.amounts, (500, 700));
    assert_eq!(d.instruction_data.amount, 10);
    assert_eq!(d.bump, [252]);
}

#[test]
fn deposit_after_bootstrap_and_its_refusals() {
    let cfg = config(false, 30).to_bytes();
    let b = balances(1000, 2000, 100);
    let d = Deposit::try_from(&bounds_payload(10, 100, 200, 9), 0, &cfg, &MINT_X, &MINT_Y, b).unwrap();
    assert_eq!(d.amounts, (100, 200));
    assert_eq!(
        Deposit::try_from(&bounds_payload(10, 99, 200, 9), 0, &cfg, &MINT_X, &MINT_Y, b).map(|d| d.amounts),
        Err(EscrowError::SlippageExceeded)
    );
    assert_eq!(
        Deposit::try_from(&bounds_payload(10, 100, 200, 9), 0, &cfg, &MINT_Y, &MINT_X, b).map(|d| d.amounts),
        Err(EscrowError::InvalidArgument)
    );
    let locked = config(true, 30).to_bytes();
    assert_eq!(
        Deposit::try_from(&bounds_payload(10, 100, 200, 9), 0, &locked, &MINT_X, &MINT_Y, b).map(|d| d.amounts),
        Err(EscrowError::PoolLocked)
    );
    assert_eq!(
        Deposit::try_from(&bounds_payload(10, 100, 200, 9), 0, &cfg[..100], &MINT_X, &MINT_Y, b).map(|d| d.amounts),
        Err(EscrowError::InvalidAccountData)
    );
}

#[test]
fn withdraw_full_and_bounds() {
    let cfg = config(false, 30).to_bytes();
    let b = balances(1000, 2000, 100);
    let w = Withdraw::try_from(&bounds_payload(100, 1000, 2000, 9), 0, &cfg, &MINT_X, &MINT_Y, b).unwrap();
    assert_eq!(w.amounts, (1000, 2000));
    assert_eq!(w.seed, 42);
    assert_eq!(w.bump, [250]);
    let w = Withdraw::try_from(&bounds_payload(25, 250, 500, 9), 0, &cfg, &MINT_X, &MINT_Y, b).unwrap();
    assert_eq!(w.amounts, (250, 500));
    assert_eq!(
        Withdraw::try_from(&bounds_payload(25, 249, 500, 9), 0, &cfg, &MINT_X, &MINT_Y, b).map(|w| w.amounts),
        Err(EscrowError::SlippageExceeded)
    );
}

#[test]
fn swap_against_pool() {
    let cfg = config(false, 30).to_bytes();
    let b = balances(1000, 1000, 10);
    let s = Swap::try_from(&swap_payload(1, 100, 90, 9), 0, &cfg, &MINT_X, &MINT_Y, b).unwrap();
    assert_eq!(s.amounts, (100, 90));
    assert_eq!(s.quote.amount_in_after_fee, 99);
    assert_eq!(s.seed, 42);
    assert_eq!(s.bump, [250]);
    // paying in Y against a pool with more Y than X
    let b = balances(500, 2000, 10);
    let s = Swap::try_from(&swap_payload(0, 100, 1, 9), 0, &cfg, &MINT_X, &MINT_Y, b).unwrap();
    // 100 - ceil(0.3) = 99 priced; floor(500 * 99 / 2099) = 23 out
    assert_eq!(s.amounts, (100, 23));
}

#[test]
fn swap_below_minimum_refused_before_any_transfer() {
    let cfg = config(false, 30).to_bytes();
    let b = balances(1000, 1000, 10);
    assert_eq!(
        Swap::try_from(&swap_payload(1, 100, 91, 9), 0, &cfg, &MINT_X, &MINT_Y, b).map(|s| s.amounts),
        Err(EscrowError::SlippageExceeded)
    );
}

#[test]
fn initialize_payloads() {
    let mut data = 5u64.to_le_bytes().to_vec();
    data.extend_from_slice(&30u16.to_le_bytes());
    let i = InitializeInstructionData::try_from(&data).unwrap();
    assert_eq!((i.seed, i.fee, i.authority), (5, 30, None));
    let mut with_auth = data.clone();
    with_auth.extend_from_slice(&[3u8; 32]);
    let i = InitializeInstructionData::try_from(&with_auth).unwrap();
    assert_eq!(i.authority, Some([3u8; 32]));
    let mut high_fee = 5u64.to_le_bytes().to_vec();
    high_fee.extend_from_slice(&10_000u16.to_le_bytes());
    assert!(matches!(InitializeInstructionData::try_from(&high_fee), Err(EscrowError::InvalidInstructionData)));
    assert!(matches!(InitializeInstructionData::try_from(&data[..9]), Err(EscrowError::InvalidInstructionData)));
}

#[test]
fn initialize_builds_config_without_authority() {
    let mut data = 5u64.to_le_bytes().to_vec();
    data.extend_from_slice(&30u16.to_le_bytes());
    let init = Initialize::try_from(&data, &MINT_X, &MINT_Y, [1, 2, 3]).unwrap();
    let c = init.process();
    assert_eq!(c.authority, [0u8; 32]);
    assert_eq!((c.seed, c.fee, c.locked), (5, 30, false));
    assert_eq!((c.config_bump, c.lp_bump, c.auth_bump), (1, 2, 3));
    assert_eq!((c.mint_x, c.mint_y), (MINT_X, MINT_Y));
    assert!(matches!(Initialize::try_from(&data, &MINT_X, &MINT_X, [1, 2, 3]), Err(EscrowError::InvalidArgument)));
}
