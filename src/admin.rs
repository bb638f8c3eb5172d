//! Administrative updates of a pool's configuration: its authority, its fee
//! and its lock. Only the current authority may make them, and none at all
//! once the authority has been removed.
use vstd::prelude::*;

use crate::bytes::{key_at, keys_equal, read_key, read_u16, u16_at, KEY_LEN};
use crate::curve::BPS_DENOMINATOR;
use crate::error::EscrowError;
use crate::state::{config_bytes_valid, no_authority, system_program_id, Config, AUTHORITY_AT};

verus! {

/// Instruction byte of an authority change.
pub const UPDATE_AUTHORITY_DISCRIMINATOR: u8 = 4;

/// Instruction byte of a fee change.
pub const UPDATE_FEE_DISCRIMINATOR: u8 = 5;

/// Instruction byte of a lock toggle.
pub const UPDATE_LOCK_STATUS_DISCRIMINATOR: u8 = 6;

/// Instruction byte of the authority's removal.
pub const REMOVE_AUTHORITY_DISCRIMINATOR: u8 = 7;

/// Payload of an authority change: the new authority.
#[derive(Clone, Copy, Debug)]
pub struct UpdateConfigAuthorityInstructionData {
    pub authority: [u8; 32],
}

impl UpdateConfigAuthorityInstructionData {
    /// Decodes the payload; fails with `InvalidInstructionData` unless it is
    /// one address long.
    pub fn try_from(data: &[u8]) -> (r: Result<Self, EscrowError>)
        ensures
            r is Ok <==> data@.len() == KEY_LEN,
            r matches Ok(a) ==> a.authority@ == data@,
            r is Err ==> (r matches Err(e) && e == EscrowError::InvalidInstructionData),
    {
        if data.len() != KEY_LEN {
            return Err(EscrowError::InvalidInstructionData);
        }
        let authority = read_key(data, 0);
        assert(data@.subrange(0, KEY_LEN as int) =~= data@);
        Ok(Self { authority })
    }
}

/// Payload of a fee change: the new fee in basis points.
#[derive(Clone, Copy, Debug, PartialEq, Eq, Structural)]
pub struct UpdateConfigFeeInstructionData {
    pub fee: u16,
}

impl UpdateConfigFeeInstructionData {
    /// Decodes the payload; fails with `InvalidInstructionData` unless it is
    /// two bytes holding a fee below a whole.
    pub fn try_from(data: &[u8]) -> (r: Result<Self, EscrowError>)
        ensures
            r is Ok <==> data@.len() == 2 && u16_at(data@, 0) < BPS_DENOMINATOR,
            r matches Ok(f) ==> f.fee == u16_at(data@, 0),
            r is Err ==> r == Err::<Self, EscrowError>(EscrowError::InvalidInstructionData),
    {
        if data.len() != 2 {
            return Err(EscrowError::InvalidInstructionData);
        }
        let fee = read_u16(data, 0);
        if fee >= BPS_DENOMINATOR as u16 {
            return Err(EscrowError::InvalidInstructionData);
        }
        Ok(Self { fee })
    }
}

/// The payload of an administrative update, told apart by its length.
#[derive(Clone, Copy, Debug)]
pub enum UpdateConfigInstructionData {
    Authority(UpdateConfigAuthorityInstructionData),
    Fee(UpdateConfigFeeInstructionData),
    /// No payload: a lock toggle or the authority's removal.
    Empty,
}

/// Whether an update with payload `d`, signed by `signer`, is admitted by
/// the configuration in `cfg`, or the error that refuses it.
pub open spec fn update_check_spec(d: Seq<u8>, cfg: Seq<u8>, signer: Seq<u8>) -> Result<
    (),
    EscrowError,
> {
    if d.len() != 0 && d.len() != 2 && d.len() != KEY_LEN {
        Err(EscrowError::InvalidInstructionData)
    } else if d.len() == 2 && u16_at(d, 0) >= BPS_DENOMINATOR {
        Err(EscrowError::InvalidInstructionData)
    } else if !config_bytes_valid(cfg) {
        Err(EscrowError::InvalidAccountData)
    } else if key_at(cfg, AUTHORITY_AT as int) == no_authority() {
        Err(EscrowError::ImmutableConfig)
    } else if key_at(cfg, AUTHORITY_AT as int) != signer {
        Err(EscrowError::Unauthorized)
    } else {
        Ok(())
    }
}

/// An authorised administrative update.
#[derive(Clone, Copy, Debug)]
pub struct UpdateConfig {
    /// The pool's authority, who signed the update.
    pub authority: [u8; 32],
    pub instruction_data: UpdateConfigInstructionData,
}

impl UpdateConfig {
    /// A fee payload holds a fee below a whole.
    pub open spec fn wf(self) -> bool {
        self.instruction_data matches UpdateConfigInstructionData::Fee(f) ==> f.fee
            < BPS_DENOMINATOR
    }

    /// Decodes the payload by its length (none, a fee, or an address) and
    /// checks that `signer` is the authority of the pool whose configuration
    /// is `config_data`: `ImmutableConfig` once the authority is removed,
    /// `Unauthorized` for anyone else.
    pub fn try_from(data: &[u8], signer: &[u8; 32], config_data: &[u8]) -> (r: Result<
        Self,
        EscrowError,
    >)
        ensures
            match update_check_spec(data@, config_data@, signer@) {
                Ok(_) => r matches Ok(u) && u.wf() && u.authority == *signer && match u.instruction_data {
                    UpdateConfigInstructionData::Empty => data@.len() == 0,
                    UpdateConfigInstructionData::Fee(f) => data@.len() == 2 && f.fee == u16_at(
                        data@,
                        0,
                    ),
                    UpdateConfigInstructionData::Authority(a) => a.authority@ == data@,
                },
                Err(e) => r matches Err(e2) && e2 == e,
            },
    {
        let instruction_data = if data.len() == 0 {
            UpdateConfigInstructionData::Empty
        } else if data.len() == KEY_LEN {
            UpdateConfigInstructionData::Authority(
                UpdateConfigAuthorityInstructionData::try_from(data)?,
            )
        } else if data.len() == 2 {
            UpdateConfigInstructionData::Fee(UpdateConfigFeeInstructionData::try_from(data)?)
        } else {
            return Err(EscrowError::InvalidInstructionData);
        };
        let config = Config::load(config_data)?;
        let nobody = system_program_id();
        if keys_equal(&config.authority, &nobody) {
            return Err(EscrowError::ImmutableConfig);
        }
        if !keys_equal(&config.authority, signer) {
            return Err(EscrowError::Unauthorized);
        }
        Ok(UpdateConfig { authority: *signer, instruction_data })
    }

    /// Hands the pool to a new authority; fails with
    /// `InvalidInstructionData`, leaving `config` as it was, when the
    /// payload is not an address.
    pub fn process_update_authority(&self, config: &mut Config) -> (r: Result<(), EscrowError>)
        ensures
            match self.instruction_data {
                UpdateConfigInstructionData::Authority(a) => r is Ok && *final(config) == (Config {
                    authority: a.authority,
                    ..*old(config)
                }),
                _ => {
                    &&& r == Err::<(), EscrowError>(EscrowError::InvalidInstructionData)
                    &&& *final(config) == *old(config)
                },
            },
    {
        match self.instruction_data {
            UpdateConfigInstructionData::Authority(a) => {
                config.set_authority(a.authority);
                Ok(())
            },
            _ => Err(EscrowError::InvalidInstructionData),
        }
    }

    /// Sets a new swap fee; fails with `InvalidInstructionData`, leaving
    /// `config` as it was, when the payload is not a fee.
    pub fn process_update_fee(&self, config: &mut Config) -> (r: Result<(), EscrowError>)
        requires
            self.wf(),
        ensures
            match self.instruction_data {
                UpdateConfigInstructionData::Fee(f) => r is Ok && *final(config) == (Config {
                    fee: f.fee,
                    ..*old(config)
                }),
                _ => {
                    &&& r == Err::<(), EscrowError>(EscrowError::InvalidInstructionData)
                    &&& *final(config) == *old(config)
                },
            },
    {
        match self.instruction_data {
            UpdateConfigInstructionData::Fee(f) => {
                config.set_fee(f.fee);
                Ok(())
            },
            _ => Err(EscrowError::InvalidInstructionData),
        }
    }

    /// Locks an open pool, or opens a locked one.
    pub fn process_update_lock_status(&self, config: &mut Config)
        ensures
            *final(config) == (Config { locked: !old(config).locked, ..*old(config) }),
    {
        let locked = config.is_locked();
        config.set_locked(!locked);
    }

    /// Removes the authority for good: the configuration becomes immutable.
    pub fn process_remove_authority(&self, config: &mut Config)
        ensures
            final(config).is_immutable(),
            *final(config) == (Config { authority: final(config).authority, ..*old(config) }),
    {
        config.set_authority(system_program_id());
    }
}

} // verus!
