//! What holds of the operations taken together.
//!
//! Each law is stated over the same mathematical values that the contracts
//! of the operations speak of, so a law about two operations in a row is a
//! statement about what the two calls do.

use vstd::prelude::*;
use vstd::bytes::{
    lemma_auto_spec_u32_to_from_le_bytes, lemma_auto_spec_u64_to_from_le_bytes,
    spec_u32_from_le_bytes, spec_u64_from_le_bytes,
};
use vstd::utf8::{encode_utf8, encode_utf8_decode_utf8};
use crate::codec::{
    lemma_health_record_image, lemma_keys_image_injective, lemma_user_record_image, time_image,
};
use crate::collection::{
    lemma_without_absent, lemma_without_contains, lemma_without_unique, UserRecord,
    UserRecordView, MAX_HELD,
};
use crate::error::HealthNFTError;
use crate::gate::Signer;
use crate::holder::{owned_collection, DepositNFTView, WithdrawNFTView};
use crate::identity::Pubkey;
use crate::ledger::{LedgerReply, LedgerRequest};
use crate::lifecycle::InitializeUserRecordView;
use crate::registry::{
    mint_checked, HealthData, HealthRecord, HealthRecordView, MintHealthNFT, PendingMintView,
};
use crate::transfer::TransferNFT;

verus! {

/// An initialization that goes through leaves a well-formed, empty
/// collection of the owner in the slot.
pub proof fn law_initialize_gives_empty_collection(ctx: InitializeUserRecordView, now: i64)
    ensures
        ctx.initialized(now) matches Ok(done) ==> done.user_record == Some(
            UserRecordView::empty(ctx.owner.key, now),
        ) && done.user_record.unwrap().wf(),
        ctx.initialized(now) is Ok <==> ctx.owner.is_signer && ctx.user_record is None,
{
}

/// No operation goes through for a caller that is not a proved signer: each
/// is refused as `Unauthorized`, whatever else is the case.
pub proof fn law_unsigned_caller_is_refused(
    mint: MintHealthNFT,
    category: Seq<char>,
    health_data: HealthData,
    initialization: InitializeUserRecordView,
    now: i64,
    deposit: DepositNFTView,
    withdrawal: WithdrawNFTView,
    transfer: TransferNFT,
)
    ensures
        !(mint.payer.is_signer && mint.authority.is_signer) ==> mint_checked(
            mint,
            category,
            health_data,
        ) == Err::<PendingMintView, HealthNFTError>(HealthNFTError::Unauthorized),
        !initialization.owner.is_signer ==> initialization.initialized(now) == Err::<
            InitializeUserRecordView,
            HealthNFTError,
        >(HealthNFTError::Unauthorized),
        !deposit.owner.is_signer ==> deposit.deposited() == Err::<DepositNFTView, HealthNFTError>(
            HealthNFTError::Unauthorized,
        ),
        !withdrawal.owner.is_signer ==> withdrawal.withdrawn() == Err::<
            WithdrawNFTView,
            HealthNFTError,
        >(HealthNFTError::Unauthorized),
        !transfer.authority.is_signer ==> transfer.checked() == Err::<
            LedgerRequest,
            HealthNFTError,
        >(HealthNFTError::Unauthorized),
{
}

/// The owner's collection can be changed by the owner alone: a deposit or a
/// withdrawal by a signer other than the collection's owner is refused as
/// `Unauthorized`.
pub proof fn law_only_the_owner_changes_a_collection(
    caller: Signer,
    token: Pubkey,
    record: UserRecordView,
)
    requires
        caller.key != record.owner,
    ensures
        ({
            let deposit = (DepositNFTView {
                owner: caller,
                nft_mint: token,
                user_record: Some(record),
            });
            deposit.deposited() == Err::<DepositNFTView, HealthNFTError>(
                HealthNFTError::Unauthorized,
            )
        }),
        ({
            let withdrawal = (WithdrawNFTView {
                owner: caller,
                nft_mint: token,
                user_record: Some(record),
            });
            withdrawal.withdrawn() == Err::<WithdrawNFTView, HealthNFTError>(
                HealthNFTError::Unauthorized,
            )
        }),
{
}

/// A deposit keeps a well-formed collection well-formed, and one that goes
/// through makes the collection longer by exactly the deposited certificate.
pub proof fn law_deposit_keeps_collection_well_formed(record: UserRecordView, token: Pubkey)
    requires
        record.wf(),
    ensures
        record.deposit(token) matches Ok(after) ==> after.wf() && after.on_chain_nfts.len()
            == record.on_chain_nfts.len() + 1 && after.on_chain_nfts.last() == token
            && after.on_chain_nfts.drop_last() == record.on_chain_nfts,
        record.deposit(token) is Ok <==> !record.holds(token) && record.on_chain_nfts.len()
            < MAX_HELD,
{
    if record.deposit(token) is Ok {
        let after = record.deposit(token).unwrap();
        assert(after.on_chain_nfts.drop_last() =~= record.on_chain_nfts);
    }
}

/// A withdrawal keeps a well-formed collection well-formed. The certificate
/// is gone afterwards, every other certificate stays, and the collection is
/// shorter by one if the certificate was on record and as long as before if
/// it was not.
pub proof fn law_withdraw_keeps_collection_well_formed(record: UserRecordView, token: Pubkey)
    requires
        record.wf(),
    ensures
        record.withdraw(token).wf(),
        !record.withdraw(token).holds(token),
        forall|other: Pubkey|
            other != token ==> (#[trigger] record.withdraw(token).holds(other) <==> record.holds(
                other,
            )),
        record.withdraw(token).on_chain_nfts.len() == if record.holds(token) {
            record.on_chain_nfts.len() - 1
        } else {
            record.on_chain_nfts.len() as int
        },
{
    lemma_without_unique(record.on_chain_nfts, token);
    lemma_without_contains(record.on_chain_nfts, token, token);
    assert forall|other: Pubkey| other != token implies (#[trigger] record.withdraw(token).holds(
        other,
    ) <==> record.holds(other)) by {
        lemma_without_contains(record.on_chain_nfts, token, other);
    }
}

/// For every owner: once the owner's collection has been initialized, a
/// deposit by the owner goes through, and the collection then holds the
/// deposited certificate exactly once and nothing else.
pub proof fn law_deposit_after_initialize(
    owner: Signer,
    slot: Option<UserRecordView>,
    token: Pubkey,
    now: i64,
)
    ensures
        ({
            let start = (InitializeUserRecordView { owner, user_record: slot });
            start.initialized(now) matches Ok(ready) ==> {
                let deposit = (DepositNFTView {
                    owner,
                    nft_mint: token,
                    user_record: ready.user_record,
                });
                &&& deposit.deposited() matches Ok(done)
                &&& done.user_record matches Some(record)
                &&& record.on_chain_nfts == seq![token]
                &&& record.owner == owner.key
                &&& record.wf()
            }
        }),
{
    let init = InitializeUserRecordView { owner, user_record: slot }.initialized(now);
    if init is Ok {
        let ready = init.unwrap();
        let empty = UserRecordView::empty(owner.key, now);
        assert(owned_collection(owner, ready.user_record) == Ok::<UserRecordView, HealthNFTError>(
            empty,
        ));
        assert(!empty.holds(token));
        let record = empty.deposit(token).unwrap();
        assert(record.on_chain_nfts =~= seq![token]);
    }
}

/// Depositing the same certificate a second time is refused as a duplicate,
/// and the refused deposit leaves the state as the first deposit left it.
pub proof fn law_second_deposit_is_duplicate(ctx: DepositNFTView)
    ensures
        ctx.deposited() matches Ok(first) ==> first.deposited() == Err::<
            DepositNFTView,
            HealthNFTError,
        >(HealthNFTError::DuplicateEntry) && first.after() == first,
{
    if ctx.deposited() is Ok {
        let first = ctx.deposited().unwrap();
        let before = owned_collection(ctx.owner, ctx.user_record).unwrap();
        let record = first.user_record.unwrap();
        assert(record.on_chain_nfts == before.on_chain_nfts.push(ctx.nft_mint));
        assert(record.on_chain_nfts[before.on_chain_nfts.len() as int] == ctx.nft_mint);
        assert(record.holds(ctx.nft_mint));
    }
}

/// A deposit of a certificate that is not on record into a collection that
/// holds [`MAX_HELD`] certificates is refused for capacity, and the
/// collection stays as it was, with [`MAX_HELD`] entries.
pub proof fn law_full_collection_refuses_deposit(ctx: DepositNFTView)
    requires
        owned_collection(ctx.owner, ctx.user_record) matches Ok(record)
            && record.on_chain_nfts.len() == MAX_HELD && !record.holds(ctx.nft_mint),
    ensures
        ctx.deposited() == Err::<DepositNFTView, HealthNFTError>(HealthNFTError::CapacityExceeded),
        ctx.after() == ctx,
        ctx.after().user_record.unwrap().on_chain_nfts.len() == MAX_HELD,
{
}

/// A withdrawal by the owner of an initialized collection goes through
/// whether or not the certificate is on record, and withdrawing the same
/// certificate again goes through too and changes nothing.
pub proof fn law_withdraw_twice(ctx: WithdrawNFTView)
    ensures
        owned_collection(ctx.owner, ctx.user_record) is Ok ==> ctx.withdrawn() is Ok,
        ctx.withdrawn() matches Ok(first) ==> first.withdrawn() == Ok::<
            WithdrawNFTView,
            HealthNFTError,
        >(first) && first.after() == first,
{
    if ctx.withdrawn() is Ok {
        let first = ctx.withdrawn().unwrap();
        let before = owned_collection(ctx.owner, ctx.user_record).unwrap();
        let record = first.user_record.unwrap();
        lemma_without_contains(before.on_chain_nfts, ctx.nft_mint, ctx.nft_mint);
        lemma_without_absent(record.on_chain_nfts, ctx.nft_mint);
        assert(record.withdraw(ctx.nft_mint) == record);
    }
}

/// Withdrawing a certificate that is not on record leaves the collection
/// exactly as it was.
pub proof fn law_withdraw_absent_changes_nothing(record: UserRecordView, token: Pubkey)
    requires
        !record.holds(token),
    ensures
        record.withdraw(token) == record,
{
    lemma_without_absent(record.on_chain_nfts, token);
}

/// Every mint asks the ledger for a supply of exactly one unit, and two
/// mints that the ledger answers with different token identities give two
/// different records, each bound to its own identity.
pub proof fn law_mints_are_distinct(
    first: PendingMintView,
    second: PendingMintView,
    first_identity: Pubkey,
    second_identity: Pubkey,
    first_now: i64,
    second_now: i64,
)
    requires
        first_identity != second_identity,
    ensures
        (first.request() matches LedgerRequest::CreateIdentity { supply, .. } && supply == 1),
        (second.request() matches LedgerRequest::CreateIdentity { supply, .. } && supply == 1),
        ({
            let first_reply = (LedgerReply::Created { identity: first_identity });
            let second_reply = (LedgerReply::Created { identity: second_identity });
            &&& first.completed(first_reply, first_now) matches Ok(a)
            &&& second.completed(second_reply, second_now) matches Ok(b)
            &&& a != b
            &&& a.nft_mint == first_identity
            &&& b.nft_mint == second_identity
        }),
{
}

/// A mint that passes its checks and that the ledger answers with a token
/// identity gives a well-formed record: owned by the payer, bound to that
/// identity, with the category and counters as given, and stamped with the
/// time of completion. A mint that the ledger fails gives no record.
pub proof fn law_mint_gives_record(
    ctx: MintHealthNFT,
    category: Seq<char>,
    health_data: HealthData,
    reply: LedgerReply,
    now: i64,
)
    ensures
        mint_checked(ctx, category, health_data) matches Ok(pending) ==> (match reply {
            LedgerReply::Created { identity } => {
                &&& pending.completed(reply, now) matches Ok(record)
                &&& record.owner == ctx.payer.key
                &&& record.nft_mint == identity
                &&& record.nft_type == category
                &&& record.health_data == health_data
                &&& record.created_at == now
                &&& record.wf()
            },
            _ => pending.completed(reply, now) == Err::<HealthRecordView, HealthNFTError>(
                HealthNFTError::LedgerError,
            ),
        }),
{
}

/// A transfer from a holder account that has no unit of the certificate is
/// always refused, so nothing is asked of the ledger and no unit moves; if
/// the authority controls the account the refusal is `InsufficientBalance`.
pub proof fn law_transfer_needs_balance(ctx: TransferNFT)
    requires
        ctx.from_token_account.units_of(ctx.nft_mint) == 0,
    ensures
        ctx.checked() is Err,
        ctx.authority.controls(ctx.from_token_account.owner) ==> ctx.checked() == Err::<
            LedgerRequest,
            HealthNFTError,
        >(HealthNFTError::InsufficientBalance),
{
}

/// A transfer that passes its checks asks the ledger to move exactly one
/// unit of the certificate out of an account that the authority controls and
/// that holds at least one.
pub proof fn law_transfer_moves_one_unit(ctx: TransferNFT)
    ensures
        ctx.checked() matches Ok(request) ==> {
            &&& request == ctx.request()
            &&& (request matches LedgerRequest::Transfer { amount, .. } && amount == 1)
            &&& ctx.authority.controls(ctx.from_token_account.owner)
            &&& ctx.from_token_account.units_of(ctx.nft_mint) >= 1
        },
{
}

/// The eight bytes of a time stamp determine the time stamp.
pub proof fn law_time_image_injective(a: i64, b: i64)
    requires
        time_image(a) == time_image(b),
    ensures
        a == b,
{
    lemma_auto_spec_u64_to_from_le_bytes();
    let x = a as u64;
    let y = b as u64;
    assert(spec_u64_from_le_bytes(time_image(a)) == x);
    assert(spec_u64_from_le_bytes(time_image(b)) == y);
    assert(x == y ==> a == b) by (bit_vector)
        requires
            x == a as u64,
            y == b as u64,
    ;
}

/// Writing a certificate record and reading it back gives the record: the
/// region written for a record that fits stores that record.
pub proof fn law_health_record_round_trip(record: HealthRecordView)
    requires
        record.fits(),
    ensures
        record.stored().len() == HealthRecord::LEN,
        record.is_stored_in(record.stored()),
{
    lemma_health_record_image(record);
    assert(record.stored().subrange(0, record.image().len() as int) =~= record.image());
}

/// A region stores at most one certificate record.
pub proof fn law_health_record_unique(region: Seq<u8>, a: HealthRecordView, b: HealthRecordView)
    requires
        a.is_stored_in(region),
        b.is_stored_in(region),
    ensures
        a == b,
{
    lemma_auto_spec_u32_to_from_le_bytes();
    lemma_health_record_image(a);
    lemma_health_record_image(b);
    let head_a = region.subrange(0, a.image().len() as int);
    let head_b = region.subrange(0, b.image().len() as int);
    let n = encode_utf8(a.nft_type).len() as int;
    let m = encode_utf8(b.nft_type).len() as int;
    assert(head_a.subrange(64, 68) =~= region.subrange(64, 68));
    assert(head_b.subrange(64, 68) =~= region.subrange(64, 68));
    assert(spec_u32_from_le_bytes(region.subrange(64, 68)) == n as u32);
    assert(spec_u32_from_le_bytes(region.subrange(64, 68)) == m as u32);
    assert(n == m);
    assert(a.owner == b.owner) by {
        assert(head_a.subrange(0, 32) =~= region.subrange(0, 32));
        assert(head_b.subrange(0, 32) =~= region.subrange(0, 32));
        Pubkey::lemma_view_injective(a.owner, b.owner);
    }
    assert(a.nft_mint == b.nft_mint) by {
        assert(head_a.subrange(32, 64) =~= region.subrange(32, 64));
        assert(head_b.subrange(32, 64) =~= region.subrange(32, 64));
        Pubkey::lemma_view_injective(a.nft_mint, b.nft_mint);
    }
    assert(a.nft_type == b.nft_type) by {
        assert(head_a.subrange(68, 68 + n) =~= region.subrange(68, 68 + n));
        assert(head_b.subrange(68, 68 + n) =~= region.subrange(68, 68 + n));
        encode_utf8_decode_utf8(a.nft_type);
        encode_utf8_decode_utf8(b.nft_type);
    }
    assert(a.health_data == b.health_data) by {
        assert(head_a.subrange(68 + n, 72 + n) =~= region.subrange(68 + n, 72 + n));
        assert(head_b.subrange(68 + n, 72 + n) =~= region.subrange(68 + n, 72 + n));
        assert(head_a.subrange(72 + n, 76 + n) =~= region.subrange(72 + n, 76 + n));
        assert(head_b.subrange(72 + n, 76 + n) =~= region.subrange(72 + n, 76 + n));
        assert(head_a.subrange(76 + n, 80 + n) =~= region.subrange(76 + n, 80 + n));
        assert(head_b.subrange(76 + n, 80 + n) =~= region.subrange(76 + n, 80 + n));
        assert(spec_u32_from_le_bytes(region.subrange(68 + n, 72 + n))
            == a.health_data.exercise_records);
        assert(spec_u32_from_le_bytes(region.subrange(72 + n, 76 + n))
            == a.health_data.dietary_records);
        assert(spec_u32_from_le_bytes(region.subrange(76 + n, 80 + n))
            == a.health_data.total_records);
    }
    assert(a.created_at == b.created_at) by {
        assert(head_a.subrange(80 + n, 88 + n) =~= region.subrange(80 + n, 88 + n));
        assert(head_b.subrange(80 + n, 88 + n) =~= region.subrange(80 + n, 88 + n));
        law_time_image_injective(a.created_at, b.created_at);
    }
}

/// A certificate record read from the region that was written for a record is
/// that record.
pub proof fn law_health_record_read_back(written: HealthRecordView, read: HealthRecordView)
    requires
        written.fits(),
        read.is_stored_in(written.stored()),
    ensures
        read == written,
{
    law_health_record_round_trip(written);
    law_health_record_unique(written.stored(), written, read);
}

/// Writing a collection and reading it back gives the collection: the
/// region written for a collection that fits stores that collection.
pub proof fn law_user_record_round_trip(record: UserRecordView)
    requires
        record.fits(),
    ensures
        record.stored().len() == UserRecord::LEN,
        record.is_stored_in(record.stored()),
{
    lemma_user_record_image(record);
    assert(record.stored().subrange(0, record.image().len() as int) =~= record.image());
}

/// A region stores at most one collection.
pub proof fn law_user_record_unique(region: Seq<u8>, a: UserRecordView, b: UserRecordView)
    requires
        a.is_stored_in(region),
        b.is_stored_in(region),
    ensures
        a == b,
{
    lemma_auto_spec_u32_to_from_le_bytes();
    lemma_user_record_image(a);
    lemma_user_record_image(b);
    let head_a = region.subrange(0, a.image().len() as int);
    let head_b = region.subrange(0, b.image().len() as int);
    let n = a.on_chain_nfts.len() as int;
    let m = b.on_chain_nfts.len() as int;
    assert(head_a.subrange(32, 36) =~= region.subrange(32, 36));
    assert(head_b.subrange(32, 36) =~= region.subrange(32, 36));
    assert(spec_u32_from_le_bytes(region.subrange(32, 36)) == n as u32);
    assert(spec_u32_from_le_bytes(region.subrange(32, 36)) == m as u32);
    assert(n == m);
    assert(a.owner == b.owner) by {
        assert(head_a.subrange(0, 32) =~= region.subrange(0, 32));
        assert(head_b.subrange(0, 32) =~= region.subrange(0, 32));
        Pubkey::lemma_view_injective(a.owner, b.owner);
    }
    assert(a.on_chain_nfts == b.on_chain_nfts) by {
        assert(head_a.subrange(36, 36 + 32 * n) =~= region.subrange(36, 36 + 32 * n));
        assert(head_b.subrange(36, 36 + 32 * n) =~= region.subrange(36, 36 + 32 * n));
        lemma_keys_image_injective(a.on_chain_nfts, b.on_chain_nfts);
    }
    assert(a.created_at == b.created_at) by {
        assert(head_a.subrange(36 + 32 * n, 44 + 32 * n) =~= region.subrange(
            36 + 32 * n,
            44 + 32 * n,
        ));
        assert(head_b.subrange(36 + 32 * n, 44 + 32 * n) =~= region.subrange(
            36 + 32 * n,
            44 + 32 * n,
        ));
        law_time_image_injective(a.created_at, b.created_at);
    }
}

/// A collection read from the region that was written for a collection is
/// that collection.
pub proof fn law_user_record_read_back(written: UserRecordView, read: UserRecordView)
    requires
        written.fits(),
        read.is_stored_in(written.stored()),
    ensures
        read == written,
{
    law_user_record_round_trip(written);
    law_user_record_unique(written.stored(), written, read);
}

/// A well-formed collection always fits its region, and so does a
/// certificate record with an acceptable category.
pub proof fn law_well_formed_records_fit(collection: UserRecordView, certificate: HealthRecordView)
    ensures
        collection.wf() ==> collection.fits(),
        certificate.wf() ==> certificate.fits(),
{
}

} // verus!
