//! The authority gate: who may act for which identity.

use vstd::prelude::*;
use crate::error::HealthNFTError;
use crate::identity::Pubkey;

verus! {

/// An identity as presented by a caller, with the signer authority's word on
/// whether the caller controls it.
#[derive(Clone, Copy, Debug, PartialEq, Eq)]
pub struct Signer {
    pub key: Pubkey,
    pub is_signer: bool,
}

impl Signer {
    /// The caller is proved to control `identity`.
    pub open spec fn controls(&self, identity: Pubkey) -> bool {
        self.is_signer && self.key == identity
    }
}

/// The verdict on `caller` acting as `identity`.
pub open spec fn gate(caller: Signer, identity: Pubkey) -> Result<(), HealthNFTError> {
    if caller.controls(identity) {
        Ok(())
    } else {
        Err(HealthNFTError::Unauthorized)
    }
}

/// Lets the operation go on only if `caller` is proved to control `identity`.
pub fn authorize(caller: &Signer, identity: &Pubkey) -> (verdict: Result<(), HealthNFTError>)
    ensures
        verdict == gate(*caller, *identity),
{
    if caller.is_signer && caller.key == *identity {
        Ok(())
    } else {
        Err(HealthNFTError::Unauthorized)
    }
}

} // verus!
