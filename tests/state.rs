use flash_amm::error::EscrowError;
use flash_amm::state::{Config, CONFIG_LEN};

fn sample() -> Config {
    Config {
        seed: 0x0102_0304_0506_0708,
        authority: [1u8; 32],
        mint_x: [2u8; 32],
        mint_y: [3u8; 32],
        fee: 30,
        locked: true,
        config_bump: 4,
        lp_bump: 5,
        auth_bump: 6,
    }
}

fn same(a: &Config, b: &Config) -> bool {
    a.seed == b.seed
        && a.authority == b.authority
        && a.mint_x == b.mint_x
        && a.mint_y == b.mint_y
        && a.fee == b.fee
        && a.locked == b.locked
        && a.config_bump == b.config_bump
        && a.lp_bump == b.lp_bump
        && a.auth_bump == b.auth_bump
}

#[test]
fn config_layout_is_fixed() {
    let bytes = sample().to_bytes();
    assert_eq!(bytes.len(), CONFIG_LEN);
    assert_eq!(&bytes[0..8], &0x0102_0304_0506_0708u64.to_le_bytes());
    assert_eq!(&bytes[8..40], &[1u8; 32]);
    assert_eq!(&bytes[104..106], &30u16.to_le_bytes());
    assert_eq!(&bytes[106..110], &[1, 4, 5, 6]);
}

#[test]
fn config_round_trip() {
    let c = sample();
    let back = Config::load(&c.to_bytes()).unwrap();
    assert!(same(&c, &back));
}

#[test]
fn config_load_refusals() {
    let bytes = sample().to_bytes();
    assert!(matches!(Config::load(&bytes[..109]), Err(EscrowError::InvalidAccountData)));
    let mut bad_lock = bytes.clone();
    bad_lock[106] = 2;
    assert!(matches!(Config::load(&bad_lock), Err(EscrowError::InvalidAccountData)));
    let mut bad_fee = bytes.clone();
    bad_fee[104..106].copy_from_slice(&10_000u16.to_le_bytes());
    assert!(matches!(Config::load(&bad_fee), Err(EscrowError::InvalidAccountData)));
}

#[test]
fn config_setters() {
    let mut c = sample();
    c.set_fee(99);
    c.set_locked(false);
    c.set_seed(7);
    c.set_authority([8u8; 32]);
    c.set_mint_x([9u8; 32]);
    c.set_mint_y([10u8; 32]);
    assert!(!c.is_locked());
    assert_eq!((c.fee, c.seed, c.authority, c.mint_x, c.mint_y), (99, 7, [8u8; 32], [9u8; 32], [10u8; 32]));
    c.set_inner(1, [0u8; 32], [2u8; 32], [3u8; 32], 4, true, 5, 6, 7);
    assert!(c.is_locked());
    assert_eq!((c.seed, c.fee, c.config_bump, c.lp_bump, c.auth_bump), (1, 4, 5, 6, 7));
}
