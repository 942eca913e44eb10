//! The error taxonomy of the registry. Every error rejects a single request
//! and leaves all stores unchanged; none is fatal to the system.

use vstd::prelude::*;

verus! {

/// Why a request was rejected.
#[derive(Clone, Copy, PartialEq, Eq, Structural, Debug)]
pub enum Error {
    /// A supplied field exceeds its configured maximum length.
    FieldTooLarge,
    /// A creation was attempted on a key that is already claimed.
    AlreadyClaimed,
    /// A revocation was attempted on a key that holds no claim.
    NoSuchProof,
    /// A revocation was attempted by a caller who does not own the claim.
    NotProofOwner,
}

} // verus!
