//! The one-time initialization of an owner's collection.

use vstd::prelude::*;
use crate::collection::{UserRecord, UserRecordView};
use crate::error::HealthNFTError;
use crate::gate::{authorize, Signer};
use crate::holder::slot_view;

verus! {

/// An initialization: the owner, and the slot found for the owner's
/// collection, which must be empty.
#[derive(Clone, Debug, PartialEq, Eq)]
pub struct InitializeUserRecord {
    pub owner: Signer,
    pub user_record: Option<UserRecord>,
}

/// An initialization as a mathematical value.
pub struct InitializeUserRecordView {
    pub owner: Signer,
    pub user_record: Option<UserRecordView>,
}

impl View for InitializeUserRecord {
    type V = InitializeUserRecordView;

    open spec fn view(&self) -> InitializeUserRecordView {
        InitializeUserRecordView { owner: self.owner, user_record: slot_view(self.user_record) }
    }
}

impl InitializeUserRecordView {
    /// What the initialization comes to at time `now`: the first check that
    /// fails, or the same initialization with the owner's empty collection in
    /// the slot.
    pub open spec fn initialized(self, now: i64) -> Result<
        InitializeUserRecordView,
        HealthNFTError,
    > {
        if !self.owner.is_signer {
            Err(HealthNFTError::Unauthorized)
        } else if self.user_record is Some {
            Err(HealthNFTError::AlreadyInitialized)
        } else {
            Ok(
                InitializeUserRecordView {
                    user_record: Some(UserRecordView::empty(self.owner.key, now)),
                    ..self
                },
            )
        }
    }

    /// The state that the initialization leaves at time `now`: the new one
    /// if it goes through, the old one if it is refused.
    pub open spec fn after(self, now: i64) -> InitializeUserRecordView {
        match self.initialized(now) {
            Ok(done) => done,
            Err(_) => self,
        }
    }
}

/// Gives the owner an empty collection, stamped with `now`.
///
/// Refused as `Unauthorized` unless the owner is a proved signer, and as
/// `AlreadyInitialized` if the owner has a collection. A refused
/// initialization changes nothing.
pub fn initialize_user_record(ctx: &mut InitializeUserRecord, now: i64) -> (outcome: Result<
    (),
    HealthNFTError,
>)
    ensures
        match outcome {
            Ok(()) => old(ctx)@.initialized(now) == Ok::<InitializeUserRecordView, HealthNFTError>(
                final(ctx)@,
            ),
            Err(e) => old(ctx)@.initialized(now) == Err::<InitializeUserRecordView, HealthNFTError>(
                e,
            ) && *final(ctx) == *old(ctx),
        },
        final(ctx)@ == old(ctx)@.after(now),
{
    authorize(&ctx.owner, &ctx.owner.key)?;
    if ctx.user_record.is_some() {
        return Err(HealthNFTError::AlreadyInitialized);
    }
    ctx.user_record = Some(UserRecord::new(ctx.owner.key, now));
    Ok(())
}

} // verus!
