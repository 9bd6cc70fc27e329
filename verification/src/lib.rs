//! Account-state transitions for non-fungible health certificates.
//!
//! The crate issues certificate records, keeps the per-owner index of held
//! certificates, and decides when a unit of a certificate may move between
//! holder accounts. The token ledger, the signer authority and the account
//! store are collaborators: every operation takes what it needs from them as
//! plain values and hands back what they have to do next.

pub mod codec;
pub mod collection;
pub mod error;
pub mod gate;
pub mod holder;
pub mod identity;
pub mod laws;
pub mod ledger;
pub mod lifecycle;
pub mod registry;
pub mod transfer;

pub use collection::UserRecord;
pub use error::HealthNFTError;
pub use gate::{authorize, Signer};
pub use holder::{check_owned_collection, deposit_nft, withdraw_nft, DepositNFT, WithdrawNFT};
pub use identity::Pubkey;
pub use ledger::{LedgerReply, LedgerRequest, TokenAccount};
pub use lifecycle::{initialize_user_record, InitializeUserRecord};
pub use registry::{
    check_category, mint_health_nft, HealthData, HealthRecord, MintHealthNFT, NftMetadata,
    PendingMint,
};
pub use transfer::{finish_transfer, transfer_nft, TransferNFT};
