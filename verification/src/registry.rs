//! The certificate registry: issuing a certificate record for a newly minted
//! token identity.
//!
//! Issuing takes two steps around the token ledger. [`mint_health_nft`] runs
//! every check and yields a [`PendingMint`], which names the request to send
//! to the ledger. [`PendingMint::complete`] takes the ledger's reply and the
//! current time and yields the record, or reports that the ledger failed.

use vstd::prelude::*;
use vstd::utf8::encode_utf8;
use crate::error::HealthNFTError;
use crate::gate::{authorize, Signer};
use crate::identity::Pubkey;
use crate::ledger::{LedgerReply, LedgerRequest, CERTIFICATE_SUPPLY};

verus! {

/// Longest category, in bytes of its UTF-8 form, that a record can hold.
pub const MAX_CATEGORY_BYTES: usize = 50;

/// What the caller says about the certificate to issue. Only `nft_type`, the
/// category, is kept in the record; the display fields pass through untouched.
#[derive(Clone, Debug, PartialEq, Eq)]
pub struct NftMetadata {
    pub name: String,
    pub symbol: String,
    pub uri: String,
    pub nft_type: String,
}

/// Counters supplied by the caller. They are stored as given: the total is
/// not required to be the sum of the other two.
#[derive(Clone, Copy, Debug, PartialEq, Eq, Structural)]
pub struct HealthData {
    pub exercise_records: u32,
    pub dietary_records: u32,
    pub total_records: u32,
}

/// The record of one issued certificate. It is written once and never changed.
#[derive(Clone, Debug, PartialEq, Eq)]
pub struct HealthRecord {
    /// Who paid for and owns the record.
    pub owner: Pubkey,
    /// The token identity the certificate is bound to.
    pub nft_mint: Pubkey,
    /// The category.
    pub nft_type: String,
    pub health_data: HealthData,
    /// When the record was created.
    pub created_at: i64,
}

/// A certificate record as a mathematical value.
pub struct HealthRecordView {
    pub owner: Pubkey,
    pub nft_mint: Pubkey,
    pub nft_type: Seq<char>,
    pub health_data: HealthData,
    pub created_at: i64,
}

impl View for HealthRecord {
    type V = HealthRecordView;

    open spec fn view(&self) -> HealthRecordView {
        HealthRecordView {
            owner: self.owner,
            nft_mint: self.nft_mint,
            nft_type: self.nft_type@,
            health_data: self.health_data,
            created_at: self.created_at,
        }
    }
}

/// A category is acceptable when it is not empty and its UTF-8 form is at
/// most [`MAX_CATEGORY_BYTES`] long.
pub open spec fn valid_category(category: Seq<char>) -> bool {
    category.len() > 0 && encode_utf8(category).len() <= MAX_CATEGORY_BYTES
}

impl HealthRecordView {
    /// The record holds an acceptable category.
    pub open spec fn wf(self) -> bool {
        valid_category(self.nft_type)
    }
}

/// Tells whether `category` is acceptable.
pub fn check_category(category: &String) -> (ok: bool)
    ensures
        ok == valid_category(category@),
{
    let text = category.as_str();
    !text.is_empty() && text.as_bytes().len() <= MAX_CATEGORY_BYTES
}

/// The parties to a mint: who pays for the record and who will control the
/// holder account the certificate is minted into.
#[derive(Clone, Copy, Debug, PartialEq, Eq)]
pub struct MintHealthNFT {
    pub payer: Signer,
    pub authority: Signer,
}

/// A mint whose checks have passed and which waits for the token ledger.
#[derive(Debug)]
pub struct PendingMint {
    owner: Pubkey,
    authority: Pubkey,
    nft_type: String,
    health_data: HealthData,
}

/// A pending mint as a mathematical value.
pub struct PendingMintView {
    pub owner: Pubkey,
    pub authority: Pubkey,
    pub nft_type: Seq<char>,
    pub health_data: HealthData,
}

impl PendingMintView {
    /// The request that the pending mint sends to the ledger: one new token
    /// identity with a supply of exactly one unit, minted to the authority.
    pub open spec fn request(self) -> LedgerRequest {
        LedgerRequest::CreateIdentity { supply: CERTIFICATE_SUPPLY, authority: self.authority }
    }

    /// What completing the pending mint yields for a given reply, at time `now`.
    pub open spec fn completed(self, reply: LedgerReply, now: i64) -> Result<
        HealthRecordView,
        HealthNFTError,
    > {
        match reply {
            LedgerReply::Created { identity } => Ok(
                HealthRecordView {
                    owner: self.owner,
                    nft_mint: identity,
                    nft_type: self.nft_type,
                    health_data: self.health_data,
                    created_at: now,
                },
            ),
            _ => Err(HealthNFTError::LedgerError),
        }
    }
}

/// What the checks of a mint answer: the pending mint, or the first check
/// that failed. The parties are checked before the category.
pub open spec fn mint_checked(
    ctx: MintHealthNFT,
    category: Seq<char>,
    health_data: HealthData,
) -> Result<PendingMintView, HealthNFTError> {
    if !(ctx.payer.is_signer && ctx.authority.is_signer) {
        Err(HealthNFTError::Unauthorized)
    } else if !valid_category(category) {
        Err(HealthNFTError::InvalidMetadata)
    } else {
        Ok(
            PendingMintView {
                owner: ctx.payer.key,
                authority: ctx.authority.key,
                nft_type: category,
                health_data,
            },
        )
    }
}

impl View for PendingMint {
    type V = PendingMintView;

    closed spec fn view(&self) -> PendingMintView {
        PendingMintView {
            owner: self.owner,
            authority: self.authority,
            nft_type: self.nft_type@,
            health_data: self.health_data,
        }
    }
}

impl PendingMint {
    #[verifier::type_invariant]
    spec fn inv(self) -> bool {
        valid_category(self.nft_type@)
    }

    /// The request to send to the token ledger.
    pub fn request(&self) -> (request: LedgerRequest)
        ensures
            request == self@.request(),
    {
        LedgerRequest::CreateIdentity { supply: CERTIFICATE_SUPPLY, authority: self.authority }
    }

    /// Finishes the mint with the ledger's reply.
    ///
    /// If the ledger created a token identity, the result is the record bound
    /// to it, owned by the payer and stamped with `now`. Any other reply is a
    /// ledger failure and no record comes into being.
    pub fn complete(self, reply: LedgerReply, now: i64) -> (outcome: Result<
        HealthRecord,
        HealthNFTError,
    >)
        ensures
            match outcome {
                Ok(record) => self@.completed(reply, now) == Ok::<
                    HealthRecordView,
                    HealthNFTError,
                >(record@) && record@.wf(),
                Err(e) => self@.completed(reply, now) == Err::<HealthRecordView, HealthNFTError>(e),
            },
    {
        proof {
            use_type_invariant(&self);
        }
        match reply {
            LedgerReply::Created { identity } => Ok(
                HealthRecord {
                    owner: self.owner,
                    nft_mint: identity,
                    nft_type: self.nft_type,
                    health_data: self.health_data,
                    created_at: now,
                },
            ),
            _ => Err(HealthNFTError::LedgerError),
        }
    }
}

/// Begins the mint of a certificate.
///
/// Both parties must be proved signers, else the mint is `Unauthorized`; the
/// category must be acceptable, else it is `InvalidMetadata`. When both hold
/// the result is the pending mint, which takes the payer as owner and the
/// category and counters as given. Nothing has been asked of the ledger yet.
pub fn mint_health_nft(
    ctx: &MintHealthNFT,
    nft_metadata: NftMetadata,
    health_data: HealthData,
) -> (outcome: Result<PendingMint, HealthNFTError>)
    ensures
        match outcome {
            Ok(pending) => mint_checked(*ctx, nft_metadata.nft_type@, health_data) == Ok::<
                PendingMintView,
                HealthNFTError,
            >(pending@),
            Err(e) => mint_checked(*ctx, nft_metadata.nft_type@, health_data) == Err::<
                PendingMintView,
                HealthNFTError,
            >(e),
        },
{
    authorize(&ctx.payer, &ctx.payer.key)?;
    authorize(&ctx.authority, &ctx.authority.key)?;
    if !check_category(&nft_metadata.nft_type) {
        return Err(HealthNFTError::InvalidMetadata);
    }
    Ok(
        PendingMint {
            owner: ctx.payer.key,
            authority: ctx.authority.key,
            nft_type: nft_metadata.nft_type,
            health_data,
        },
    )
}

} // verus!
