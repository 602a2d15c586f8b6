//! The typed rejections an operation can surface. Every error is detected
//! before any transfer is issued, and an operation that fails leaves the
//! ledger exactly as it was.

use vstd::prelude::*;

verus! {

/// Why a request was rejected as a whole.
#[derive(Clone, Copy, Debug, PartialEq, Eq, Structural)]
pub enum EscrowError {
    /// The signer is not the party the operation demands.
    Unauthorized,
    /// No viable derivation exists for the requested record address.
    DerivationFailed,
    /// The record does not re-derive to its own address and proof:
    /// a stale or foreign record was supplied.
    DerivationMismatch,
    /// The record, or its vault, already exists: a duplicate creation
    /// attempt for the same `(maker, seed)`.
    AlreadyExists,
    /// The claimed maker disagrees with the record's stored maker.
    MakerMismatch,
    /// A supplied asset identifier disagrees with the record's stored
    /// mints.
    MintMismatch,
    /// A required holding account is absent.
    MissingAccount,
    /// The source balance is smaller than the amount to move.
    InsufficientBalance,
    /// Crediting the destination would exceed its balance capacity.
    Overflow,
    /// The record is absent: already consumed, or never created.
    NotFound,
    /// An account stands where a distinct one is required: a party names
    /// the custody address as its own identity.
    InvalidAccount,
}

} // verus!
