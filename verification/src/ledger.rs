//! The token ledger as this crate sees it: what it is asked to do, what it
//! answers, and what a holder account looks like when read.

use vstd::prelude::*;
use crate::identity::Pubkey;

verus! {

/// Units of supply of one certificate. A certificate is indivisible.
pub const CERTIFICATE_SUPPLY: u64 = 1;

/// A request to the token ledger. The crate decides on the request; carrying
/// it out is the ledger's work.
#[derive(Clone, Copy, Debug, PartialEq, Eq)]
pub enum LedgerRequest {
    /// Create a new token identity whose whole supply goes to a holder
    /// account controlled by `authority`.
    CreateIdentity { supply: u64, authority: Pubkey },
    /// Move `amount` units of `identity` from one holder account to another.
    Transfer { from: Pubkey, to: Pubkey, identity: Pubkey, amount: u64, authority: Pubkey },
}

/// The ledger's answer to a request.
#[derive(Clone, Copy, Debug, PartialEq, Eq)]
pub enum LedgerReply {
    /// A token identity was created and its supply minted.
    Created { identity: Pubkey },
    /// The units were moved.
    Transferred,
    /// The ledger refused or failed; nothing changed on its side.
    Failed,
}

/// A holder account as read from the ledger.
#[derive(Clone, Copy, Debug, PartialEq, Eq)]
pub struct TokenAccount {
    /// The account's own address.
    pub key: Pubkey,
    /// The token identity whose units the account keeps.
    pub mint: Pubkey,
    /// The identity that controls the account.
    pub owner: Pubkey,
    /// How many units the account keeps.
    pub amount: u64,
}

impl TokenAccount {
    /// Units of `identity` that the account keeps: its amount if it is an
    /// account of that token, none otherwise.
    pub open spec fn units_of(&self, identity: Pubkey) -> nat {
        if self.mint == identity {
            self.amount as nat
        } else {
            0
        }
    }

    /// Whether the account keeps at least one unit of `identity`.
    pub fn holds(&self, identity: &Pubkey) -> (some: bool)
        ensures
            some == (self.units_of(*identity) > 0),
    {
        self.mint == *identity && self.amount > 0
    }
}

} // verus!
