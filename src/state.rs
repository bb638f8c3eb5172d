//! The pool's durable configuration record and its fixed byte layout.
use vstd::prelude::*;

use crate::bytes::{
    key_at, push_key, push_u16, push_u64, read_key, read_u16, read_u64, u16_at, u64_at, KEY_LEN,
};
use crate::curve::BPS_DENOMINATOR;
use crate::error::EscrowError;

verus! {

/// Size of an encoded [`Config`], with no padding.
pub const CONFIG_LEN: usize = 110;

pub const SEED_AT: usize = 0;

pub const AUTHORITY_AT: usize = 8;

pub const MINT_X_AT: usize = 40;

pub const MINT_Y_AT: usize = 72;

pub const FEE_AT: usize = 104;

pub const LOCKED_AT: usize = 106;

pub const CONFIG_BUMP_AT: usize = 107;

pub const LP_BUMP_AT: usize = 108;

pub const AUTH_BUMP_AT: usize = 109;

/// The address that stands for "no authority": the system program's, which
/// is 32 zero bytes. A pool whose authority is this can never be changed.
pub open spec fn no_authority() -> Seq<u8> {
    Seq::new(KEY_LEN as nat, |_i: int| 0u8)
}

/// Relies on `pinocchio_system::ID`: the system program's address, declared
/// from the text "11111111111111111111111111111111", which decodes to 32
/// zero bytes.
#[verifier::external_body]
pub(crate) fn system_program_id() -> (r: [u8; 32])
    ensures
        r@ == no_authority(),
{
    pinocchio_system::ID
}

/// One pool: the pair it trades, its fee and lock, and the bumps that
/// re-derive its program-controlled addresses.
#[derive(Clone, Copy, Debug)]
pub struct Config {
    /// Tells apart pools of the same pair.
    pub seed: u64,
    /// Who may administer the pool; [`no_authority`] when nobody may.
    pub authority: [u8; 32],
    pub mint_x: [u8; 32],
    pub mint_y: [u8; 32],
    /// Swap fee in basis points, below [`BPS_DENOMINATOR`].
    pub fee: u16,
    /// When set, deposits, withdrawals and swaps are refused.
    pub locked: bool,
    pub config_bump: u8,
    pub lp_bump: u8,
    pub auth_bump: u8,
}

/// Whether `b` holds a well-formed encoded configuration.
pub open spec fn config_bytes_valid(b: Seq<u8>) -> bool {
    &&& b.len() == CONFIG_LEN
    &&& b[LOCKED_AT as int] == 0 || b[LOCKED_AT as int] == 1
    &&& u16_at(b, FEE_AT as int) < BPS_DENOMINATOR
}

impl Config {
    /// The fee is a fraction of a whole.
    pub open spec fn wf(self) -> bool {
        self.fee < BPS_DENOMINATOR
    }

    /// Whether nobody may administer the pool any more.
    pub open spec fn is_immutable(self) -> bool {
        self.authority@ == no_authority()
    }

    /// Whether `b` is this configuration's encoding.
    pub open spec fn encoded_in(self, b: Seq<u8>) -> bool {
        &&& b.len() == CONFIG_LEN
        &&& u64_at(b, SEED_AT as int) == self.seed
        &&& key_at(b, AUTHORITY_AT as int) == self.authority@
        &&& key_at(b, MINT_X_AT as int) == self.mint_x@
        &&& key_at(b, MINT_Y_AT as int) == self.mint_y@
        &&& u16_at(b, FEE_AT as int) == self.fee
        &&& b[LOCKED_AT as int] == (if self.locked {
            1u8
        } else {
            0u8
        })
        &&& b[CONFIG_BUMP_AT as int] == self.config_bump
        &&& b[LP_BUMP_AT as int] == self.lp_bump
        &&& b[AUTH_BUMP_AT as int] == self.auth_bump
    }

    /// Decodes a configuration; fails with `InvalidAccountData` unless the
    /// bytes are exactly [`CONFIG_LEN`] long, the lock byte is 0 or 1 and the
    /// fee is below [`BPS_DENOMINATOR`].
    pub fn load(bytes: &[u8]) -> (r: Result<Config, EscrowError>)
        ensures
            r is Ok <==> config_bytes_valid(bytes@),
            r matches Ok(c) ==> c.encoded_in(bytes@) && c.wf(),
            r is Err ==> r == Err::<Config, EscrowError>(EscrowError::InvalidAccountData),
    {
        if bytes.len() != CONFIG_LEN {
            return Err(EscrowError::InvalidAccountData);
        }
        let locked = bytes[LOCKED_AT];
        let fee = read_u16(bytes, FEE_AT);
        if locked > 1 || fee >= BPS_DENOMINATOR as u16 {
            return Err(EscrowError::InvalidAccountData);
        }
        Ok(
            Config {
                seed: read_u64(bytes, SEED_AT),
                authority: read_key(bytes, AUTHORITY_AT),
                mint_x: read_key(bytes, MINT_X_AT),
                mint_y: read_key(bytes, MINT_Y_AT),
                fee,
                locked: locked == 1,
                config_bump: bytes[CONFIG_BUMP_AT],
                lp_bump: bytes[LP_BUMP_AT],
                auth_bump: bytes[AUTH_BUMP_AT],
            },
        )
    }

    /// Encodes the configuration in its fixed layout.
    pub fn to_bytes(&self) -> (r: Vec<u8>)
        ensures
            self.encoded_in(r@),
    {
        let mut out: Vec<u8> = Vec::new();
        push_u64(&mut out, self.seed);
        let ghost at_authority = out@;
        push_key(&mut out, &self.authority);
        let ghost at_mint_x = out@;
        push_key(&mut out, &self.mint_x);
        let ghost at_mint_y = out@;
        push_key(&mut out, &self.mint_y);
        let ghost at_fee = out@;
        push_u16(&mut out, self.fee);
        let ghost after_fee = out@;
        out.push(if self.locked { 1u8 } else { 0u8 });
        out.push(self.config_bump);
        out.push(self.lp_bump);
        out.push(self.auth_bump);
        proof {
            let b = out@;
            assert(forall|i: int| 0 <= i < 106 ==> b[i] == after_fee[i]);
            assert(forall|i: int| 0 <= i < 104 ==> after_fee[i] == at_fee[i]) by {
                assert(after_fee.subrange(0, 104) == at_fee);
            }
            assert(forall|i: int| 0 <= i < 8 ==> at_authority[i] == at_fee[i]);
            assert(key_at(b, AUTHORITY_AT as int) =~= self.authority@);
            assert(key_at(b, MINT_X_AT as int) =~= self.mint_x@);
            assert(key_at(b, MINT_Y_AT as int) =~= self.mint_y@);
        }
        out
    }

    /// Whether the pool refuses deposits, withdrawals and swaps.
    pub fn is_locked(&self) -> (r: bool)
        ensures
            r == self.locked,
    {
        self.locked
    }

    pub fn set_seed(&mut self, seed: u64)
        ensures
            *final(self) == (Config { seed, ..*old(self) }),
    {
        self.seed = seed;
    }

    pub fn set_authority(&mut self, authority: [u8; 32])
        ensures
            *final(self) == (Config { authority, ..*old(self) }),
    {
        self.authority = authority;
    }

    pub fn set_mint_x(&mut self, mint_x: [u8; 32])
        ensures
            *final(self) == (Config { mint_x, ..*old(self) }),
    {
        self.mint_x = mint_x;
    }

    pub fn set_mint_y(&mut self, mint_y: [u8; 32])
        ensures
            *final(self) == (Config { mint_y, ..*old(self) }),
    {
        self.mint_y = mint_y;
    }

    /// Sets the swap fee, which must stay below [`BPS_DENOMINATOR`].
    pub fn set_fee(&mut self, fee: u16)
        requires
            fee < BPS_DENOMINATOR,
        ensures
            *final(self) == (Config { fee, ..*old(self) }),
    {
        self.fee = fee;
    }

    pub fn set_locked(&mut self, locked: bool)
        ensures
            *final(self) == (Config { locked, ..*old(self) }),
    {
        self.locked = locked;
    }

    /// Writes every field at once.
    pub fn set_inner(
        &mut self,
        seed: u64,
        authority: [u8; 32],
        mint_x: [u8; 32],
        mint_y: [u8; 32],
        fee: u16,
        locked: bool,
        config_bump: u8,
        lp_bump: u8,
        auth_bump: u8,
    )
        requires
            fee < BPS_DENOMINATOR,
        ensures
            *final(self) == (Config {
                seed,
                authority,
                mint_x,
                mint_y,
                fee,
                locked,
                config_bump,
                lp_bump,
                auth_bump,
            }),
    {
        self.seed = seed;
        self.authority = authority;
        self.mint_x = mint_x;
        self.mint_y = mint_y;
        self.fee = fee;
        self.locked = locked;
        self.config_bump = config_bump;
        self.lp_bump = lp_bump;
        self.auth_bump = auth_bump;
    }
}

/// An encoding names one configuration: two configurations encoded in the
/// same bytes are the same, so what [`Config::to_bytes`] writes,
/// [`Config::load`] reads back unchanged.
pub proof fn lemma_config_encoding_unique(a: Config, b: Config, bytes: Seq<u8>)
    requires
        a.encoded_in(bytes),
        b.encoded_in(bytes),
    ensures
        a == b,
{
    assert(a.authority =~= b.authority);
    assert(a.mint_x =~= b.mint_x);
    assert(a.mint_y =~= b.mint_y);
}

/// A well-formed configuration's encoding is accepted by [`Config::load`].
pub proof fn lemma_config_encoding_valid(c: Config, bytes: Seq<u8>)
    requires
        c.wf(),
        c.encoded_in(bytes),
    ensures
        config_bytes_valid(bytes),
{
}

} // verus!
