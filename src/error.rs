//! Why an operation of the attestation engine was refused.

use vstd::prelude::*;

verus! {

/// The reasons an operation can fail. Every failure leaves the engine's state
/// as it was.
#[derive(Clone, Copy, Debug, PartialEq, Eq, Structural)]
pub enum AttestationError {
    /// The initial attestator list was empty.
    EmptyAttestatorList,
    /// The payment differs from the registration cost.
    WrongPayment,
    /// The record has already been approved.
    AlreadyApproved,
    /// The record belongs to another user whose window has not yet run out.
    RecordBusy,
    /// The caller is not an attestator, or the address to remove is none.
    NotAttestator,
    /// No record is stored under the key.
    NoSuchRecord,
    /// The record is assigned to another attestator.
    WrongVerifier,
    /// The record was last updated more than the window ago.
    ExpiredWindow,
    /// The record does not await a reveal.
    NotPending,
    /// The caller is not the user who claimed the record.
    Unauthorized,
    /// The hash of the revealed secret differs from the commitment.
    HashMismatch,
    /// The address is an attestator already.
    AlreadyAttestator,
    /// Removing the address would leave no attestator.
    LastAttestator,
    /// The caller is not the owner of the engine.
    NotOwner,
    /// The record exists but has not been approved yet.
    NotApproved,
}

} // verus!
