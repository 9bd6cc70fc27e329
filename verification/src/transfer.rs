//! Moving the single unit of a certificate from one holder account to another.
//!
//! A transfer takes two steps around the token ledger. [`transfer_nft`] runs
//! the checks and yields the request to send; [`finish_transfer`] reads the
//! ledger's reply. No collection is touched: keeping the collections of the
//! two parties in step is up to the caller, by a withdrawal and a deposit.

use vstd::prelude::*;
use crate::error::HealthNFTError;
use crate::gate::{authorize, Signer};
use crate::identity::Pubkey;
use crate::ledger::{LedgerReply, LedgerRequest, TokenAccount, CERTIFICATE_SUPPLY};

verus! {

/// A transfer: who authorizes it, the two holder accounts as read from the
/// ledger, and the certificate whose unit is to move.
#[derive(Clone, Copy, Debug, PartialEq, Eq)]
pub struct TransferNFT {
    pub authority: Signer,
    pub from_token_account: TokenAccount,
    pub to_token_account: TokenAccount,
    pub nft_mint: Pubkey,
}

impl TransferNFT {
    /// The request that a permitted transfer sends to the ledger: exactly one
    /// unit of the certificate, from the source to the destination account.
    pub open spec fn request(self) -> LedgerRequest {
        LedgerRequest::Transfer {
            from: self.from_token_account.key,
            to: self.to_token_account.key,
            identity: self.nft_mint,
            amount: CERTIFICATE_SUPPLY,
            authority: self.authority.key,
        }
    }

    /// What the checks of the transfer answer: the request, or the first
    /// check that failed. Authority is checked before balance.
    pub open spec fn checked(self) -> Result<LedgerRequest, HealthNFTError> {
        if !self.authority.controls(self.from_token_account.owner) {
            Err(HealthNFTError::Unauthorized)
        } else if self.from_token_account.units_of(self.nft_mint) == 0 {
            Err(HealthNFTError::InsufficientBalance)
        } else {
            Ok(self.request())
        }
    }
}

/// What a transfer comes to once the ledger has replied.
pub open spec fn transfer_finished(reply: LedgerReply) -> Result<(), HealthNFTError> {
    match reply {
        LedgerReply::Transferred => Ok(()),
        _ => Err(HealthNFTError::LedgerError),
    }
}

/// Begins the transfer of a certificate.
///
/// Refused as `Unauthorized` unless the authority is a proved signer that
/// controls the source account, and as `InsufficientBalance` if the source
/// account holds no unit of the certificate. Otherwise the result is the
/// request to move one unit. A refused transfer asks nothing of the ledger,
/// so no unit moves.
pub fn transfer_nft(ctx: &TransferNFT) -> (outcome: Result<LedgerRequest, HealthNFTError>)
    ensures
        outcome == ctx.checked(),
{
    authorize(&ctx.authority, &ctx.from_token_account.owner)?;
    if !ctx.from_token_account.holds(&ctx.nft_mint) {
        return Err(HealthNFTError::InsufficientBalance);
    }
    Ok(
        LedgerRequest::Transfer {
            from: ctx.from_token_account.key,
            to: ctx.to_token_account.key,
            identity: ctx.nft_mint,
            amount: CERTIFICATE_SUPPLY,
            authority: ctx.authority.key,
        },
    )
}

/// Finishes a transfer with the ledger's reply: done if the ledger moved the
/// unit, a `LedgerError` on any other reply.
pub fn finish_transfer(reply: LedgerReply) -> (outcome: Result<(), HealthNFTError>)
    ensures
        outcome == transfer_finished(reply),
{
    match reply {
        LedgerReply::Transferred => Ok(()),
        _ => Err(HealthNFTError::LedgerError),
    }
}

} // verus!
