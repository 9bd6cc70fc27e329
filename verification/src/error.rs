//! The ways an operation can be refused.

use vstd::prelude::*;

verus! {

/// Why an operation was rejected. A rejected operation changes nothing.
#[derive(Clone, Copy, Debug, PartialEq, Eq, Structural, Hash)]
pub enum HealthNFTError {
    /// The caller does not control the identity the operation acts for.
    Unauthorized,
    /// The certificate category is empty or longer than a record can hold.
    InvalidMetadata,
    /// The owner already has a collection.
    AlreadyInitialized,
    /// The collection already holds as many certificates as it can.
    CapacityExceeded,
    /// The certificate is already in the collection.
    DuplicateEntry,
    /// The source holder account has no unit of the certificate.
    InsufficientBalance,
    /// The token ledger could not carry out the request.
    LedgerError,
    /// The owner has no collection yet.
    NotInitialized,
}

} // verus!
