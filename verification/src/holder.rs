//! Deposits and withdrawals on an owner's collection.
//!
//! The account store looks up the owner's collection and hands it over in a
//! slot, which is empty if the owner has none. An operation that succeeds
//! leaves the new collection in the slot for the store to commit; one that is
//! refused leaves everything as it was.

use vstd::prelude::*;
use crate::collection::{UserRecord, UserRecordView};
use crate::error::HealthNFTError;
use crate::gate::{authorize, Signer};
use crate::identity::Pubkey;

verus! {

/// A collection slot as a mathematical value: the collection, if the owner
/// has one.
pub open spec fn slot_view(slot: Option<UserRecord>) -> Option<UserRecordView> {
    match slot {
        Some(record) => Some(record@),
        None => None,
    }
}

/// The collection that `caller` may change, given the slot found for the
/// caller. The caller must be a proved signer, the slot must hold a
/// collection, and the collection must be the caller's own.
pub open spec fn owned_collection(caller: Signer, slot: Option<UserRecordView>) -> Result<
    UserRecordView,
    HealthNFTError,
> {
    if !caller.is_signer {
        Err(HealthNFTError::Unauthorized)
    } else {
        match slot {
            None => Err(HealthNFTError::NotInitialized),
            Some(record) => if caller.controls(record.owner) {
                Ok(record)
            } else {
                Err(HealthNFTError::Unauthorized)
            },
        }
    }
}

/// Checks that `caller` may change the collection in `slot`.
pub fn check_owned_collection(caller: &Signer, slot: &Option<UserRecord>) -> (verdict: Result<
    (),
    HealthNFTError,
>)
    ensures
        match verdict {
            Ok(()) => slot_view(*slot) is Some && owned_collection(*caller, slot_view(*slot))
                == Ok::<UserRecordView, HealthNFTError>(slot_view(*slot).unwrap()),
            Err(e) => owned_collection(*caller, slot_view(*slot)) == Err::<
                UserRecordView,
                HealthNFTError,
            >(e),
        },
{
    authorize(caller, &caller.key)?;
    match slot {
        None => Err(HealthNFTError::NotInitialized),
        Some(record) => authorize(caller, &record.owner),
    }
}

/// A deposit: the owner, the certificate to put on record, and the slot found
/// for the owner's collection.
#[derive(Clone, Debug, PartialEq, Eq)]
pub struct DepositNFT {
    pub owner: Signer,
    pub nft_mint: Pubkey,
    pub user_record: Option<UserRecord>,
}

/// A deposit as a mathematical value.
pub struct DepositNFTView {
    pub owner: Signer,
    pub nft_mint: Pubkey,
    pub user_record: Option<UserRecordView>,
}

impl View for DepositNFT {
    type V = DepositNFTView;

    open spec fn view(&self) -> DepositNFTView {
        DepositNFTView {
            owner: self.owner,
            nft_mint: self.nft_mint,
            user_record: slot_view(self.user_record),
        }
    }
}

impl DepositNFTView {
    /// What the deposit comes to: the first check that fails, or the same
    /// deposit with the certificate appended to the collection.
    pub open spec fn deposited(self) -> Result<DepositNFTView, HealthNFTError> {
        match owned_collection(self.owner, self.user_record) {
            Err(e) => Err(e),
            Ok(record) => match record.deposit(self.nft_mint) {
                Err(e) => Err(e),
                Ok(after) => Ok(DepositNFTView { user_record: Some(after), ..self }),
            },
        }
    }

    /// The state that the deposit leaves: the new one if it goes through,
    /// the old one if it is refused.
    pub open spec fn after(self) -> DepositNFTView {
        match self.deposited() {
            Ok(done) => done,
            Err(_) => self,
        }
    }
}

/// Puts a certificate on the owner's record.
///
/// Refused as `Unauthorized` unless the owner is a proved signer and the
/// collection is the owner's, as `NotInitialized` if the owner has no
/// collection, as `DuplicateEntry` if the certificate is on record, and as
/// `CapacityExceeded` if the collection is full, in this order. Otherwise the
/// certificate is appended. A refused deposit changes nothing.
pub fn deposit_nft(ctx: &mut DepositNFT) -> (outcome: Result<(), HealthNFTError>)
    ensures
        match outcome {
            Ok(()) => old(ctx)@.deposited() == Ok::<DepositNFTView, HealthNFTError>(final(ctx)@),
            Err(e) => old(ctx)@.deposited() == Err::<DepositNFTView, HealthNFTError>(e)
                && *final(ctx) == *old(ctx),
        },
        final(ctx)@ == old(ctx)@.after(),
{
    check_owned_collection(&ctx.owner, &ctx.user_record)?;
    let token = ctx.nft_mint;
    match &mut ctx.user_record {
        None => Err(HealthNFTError::NotInitialized),
        Some(record) => record.deposit(token),
    }
}

/// A withdrawal: the owner, the certificate to take off the record, and the
/// slot found for the owner's collection.
#[derive(Clone, Debug, PartialEq, Eq)]
pub struct WithdrawNFT {
    pub owner: Signer,
    pub nft_mint: Pubkey,
    pub user_record: Option<UserRecord>,
}

/// A withdrawal as a mathematical value.
pub struct WithdrawNFTView {
    pub owner: Signer,
    pub nft_mint: Pubkey,
    pub user_record: Option<UserRecordView>,
}

impl View for WithdrawNFT {
    type V = WithdrawNFTView;

    open spec fn view(&self) -> WithdrawNFTView {
        WithdrawNFTView {
            owner: self.owner,
            nft_mint: self.nft_mint,
            user_record: slot_view(self.user_record),
        }
    }
}

impl WithdrawNFTView {
    /// What the withdrawal comes to: the first check that fails, or the same
    /// withdrawal with the certificate gone from the collection.
    pub open spec fn withdrawn(self) -> Result<WithdrawNFTView, HealthNFTError> {
        match owned_collection(self.owner, self.user_record) {
            Err(e) => Err(e),
            Ok(record) => Ok(
                WithdrawNFTView { user_record: Some(record.withdraw(self.nft_mint)), ..self },
            ),
        }
    }

    /// The state that the withdrawal leaves: the new one if it goes through,
    /// the old one if it is refused.
    pub open spec fn after(self) -> WithdrawNFTView {
        match self.withdrawn() {
            Ok(done) => done,
            Err(_) => self,
        }
    }
}

/// Takes a certificate off the owner's record.
///
/// Refused as `Unauthorized` unless the owner is a proved signer and the
/// collection is the owner's, and as `NotInitialized` if the owner has no
/// collection. Otherwise every occurrence of the certificate is removed;
/// withdrawing a certificate that is not on record succeeds and changes
/// nothing. A refused withdrawal changes nothing.
pub fn withdraw_nft(ctx: &mut WithdrawNFT) -> (outcome: Result<(), HealthNFTError>)
    ensures
        match outcome {
            Ok(()) => old(ctx)@.withdrawn() == Ok::<WithdrawNFTView, HealthNFTError>(final(ctx)@),
            Err(e) => old(ctx)@.withdrawn() == Err::<WithdrawNFTView, HealthNFTError>(e)
                && *final(ctx) == *old(ctx),
        },
        final(ctx)@ == old(ctx)@.after(),
{
    check_owned_collection(&ctx.owner, &ctx.user_record)?;
    let token = ctx.nft_mint;
    match &mut ctx.user_record {
        None => Err(HealthNFTError::NotInitialized),
        Some(record) => {
            record.withdraw(&token);
            Ok(())
        },
    }
}

} // verus!
