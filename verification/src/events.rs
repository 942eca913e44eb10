//! The domain events of the registry. Exactly one event is returned for each
//! successful mutation, and none for a rejected request; the hosting
//! collaborator observes or logs them as it sees fit.

use vstd::prelude::*;
use crate::model::AccountId;

verus! {

/// What a successful operation announces: who acted, and on which key.
#[derive(Clone, PartialEq, Eq, Debug)]
pub enum Event {
    /// A full-track record was created. [who, id]
    FullTrackCreated(AccountId, Vec<u8>),
    /// A section record was created. [who, id]
    SectionCreated(AccountId, Vec<u8>),
    /// A stem record was created. [who, id]
    StemCreated(AccountId, Vec<u8>),
    /// A full-track record was revoked by its owner. [who, id]
    FullTrackRevoked(AccountId, Vec<u8>),
    /// A section record was revoked by its owner. [who, id]
    SectionRevoked(AccountId, Vec<u8>),
    /// A stem record was revoked by its owner. [who, id]
    StemRevoked(AccountId, Vec<u8>),
}

} // verus!
