use flash_amm::curve::{deposit_amounts, swap, withdraw_amounts, SwapQuote};
use flash_amm::error::EscrowError;

#[test]
fn swap_example_from_even_pool() {
    let q = swap(1000, 1000, 30, 100, 1).unwrap();
    assert_eq!(q.amount_in_after_fee, 99);
    assert_eq!(q.amount_out, 90);
    // the fee, 0.3 of a token, is rounded up in the pool's favour
    assert_eq!(q.fee, 1);
    assert_eq!(q.amount_in, 100);
}

#[test]
fn swap_keeps_product_on_concrete_values() {
    let (rin, rout) = (5_000u64, 12_345u64);
    let q: SwapQuote = swap(rin, rout, 25, 777, 1).unwrap();
    let before = rin as u128 * rout as u128;
    let after = (rin + q.amount_in) as u128 * (rout - q.amount_out) as u128;
    assert!(after >= before);
    // 777 - ceil(777 * 25 / 10000) = 775; floor(12345 * 775 / 5775) = 1656
    assert_eq!(q.amount_in_after_fee, 775);
    assert_eq!(q.amount_out, 1656);
}

#[test]
fn swap_below_minimum_is_slippage() {
    assert_eq!(swap(1000, 1000, 30, 100, 91), Err(EscrowError::SlippageExceeded));
    assert_eq!(swap(1000, 1000, 30, 100, 90).map(|q| q.amount_out), Ok(90));
}

#[test]
fn swap_zero_output() {
    assert_eq!(swap(1_000_000, 1, 0, 1, 1), Err(EscrowError::SlippageExceeded));
    assert_eq!(swap(1_000_000, 1, 0, 1, 0), Err(EscrowError::ZeroAmount));
}

#[test]
fn swap_zero_input_is_zero_amount() {
    assert_eq!(swap(1000, 1000, 30, 0, 0), Err(EscrowError::ZeroAmount));
    assert_eq!(swap(1000, 1000, 10_000, 50, 0), Err(EscrowError::ZeroAmount));
    // one token at 30 bps is all fee
    assert_eq!(swap(1000, 1000, 30, 1, 0), Err(EscrowError::ZeroAmount));
}

#[test]
fn swap_overflow_cases() {
    assert_eq!(swap(1000, 1000, 20_000, 50, 1), Err(EscrowError::ArithmeticOverflow));
    assert_eq!(swap(u64::MAX, 1000, 30, 2, 0), Err(EscrowError::ArithmeticOverflow));
    // a minimum above the achievable output is reported before the vault bound
    assert_eq!(swap(u64::MAX, 1000, 30, 2, 1), Err(EscrowError::SlippageExceeded));
}

#[test]
fn first_deposit_takes_maxima() {
    assert_eq!(deposit_amounts(0, 0, 0, 10, 500, 700), Ok((500, 700)));
    assert_eq!(deposit_amounts(9, 9, 0, 10, 1, 2), Ok((1, 2)));
}

#[test]
fn deposit_is_proportional_and_rounds_up() {
    assert_eq!(deposit_amounts(1000, 2000, 100, 10, u64::MAX, u64::MAX), Ok((100, 200)));
    // 1000 / 7 = 142.86 -> 143, 3 / 7 -> 1
    assert_eq!(deposit_amounts(1000, 3, 7, 1, 0, 0), Ok((143, 1)));
    let (x, y) = deposit_amounts(1000, 3, 7, 1, 0, 0).unwrap();
    let diff = x as i128 * 3 - y as i128 * 1000;
    assert!(diff <= 3 && -diff <= 1000);
}

#[test]
fn deposit_overflow() {
    assert_eq!(deposit_amounts(u64::MAX, 1, 1, 2, 0, 0), Err(EscrowError::ArithmeticOverflow));
}

#[test]
fn full_withdrawal_returns_reserves() {
    assert_eq!(withdraw_amounts(1234, 5678, 99, 99), Ok((1234, 5678)));
}

#[test]
fn partial_withdrawal_rounds_down() {
    assert_eq!(withdraw_amounts(1000, 3, 7, 1), Ok((142, 0)));
    assert_eq!(withdraw_amounts(1000, 2000, 100, 25), Ok((250, 500)));
}

#[test]
fn withdrawal_beyond_supply_is_refused() {
    assert_eq!(withdraw_amounts(1000, 1000, 10, 11), Err(EscrowError::InvalidArgument));
}
