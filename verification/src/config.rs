//! Field-size configuration. Every key and every metadata field of a record
//! is a byte sequence bounded by a per-field maximum length; the bounds are
//! fixed once at system assembly and held by the registry, not chosen per
//! call. The validator here is the single gate through which every supplied
//! field must pass before any store mutation.

use vstd::prelude::*;
use crate::errors::Error;

verus! {

/// The maximum byte lengths, one per field kind, for all three stores. A
/// deployment constructs one `Config` and hands it to the registry.
#[derive(Clone, Copy, PartialEq, Eq, Structural, Debug)]
pub struct Config {
    /// Bound on the key under which every record is filed.
    pub music_id: u32,
    /// Bound on the file reference of a full track.
    pub full_track_cid: u32,
    pub artist: u32,
    pub track_title: u32,
    pub album: u32,
    pub genre: u32,
    pub bpm: u32,
    pub key: u32,
    pub time_signature: u32,
    pub bars: u32,
    pub beats: u32,
    pub duration: u32,
    pub start_beat_offset_ms: u32,
    pub sections_count: u32,
    pub stems_count: u32,
    pub section_name: u32,
    pub section_start_time_ms: u32,
    pub section_end_time_ms: u32,
    /// Bound on the file reference of a stem.
    pub stem_cid: u32,
    pub stem_name: u32,
    pub stem_type: u32,
}

/// Whether a byte sequence fits within a configured bound.
pub open spec fn within_bound(field: Seq<u8>, bound: u32) -> bool {
    field.len() <= bound as nat
}

/// Whether a key fits within the configured key bound.
pub open spec fn key_ok(cfg: Config, k: Seq<u8>) -> bool {
    within_bound(k, cfg.music_id)
}

/// The key-validity predicate of a configuration, as a value, for use in the
/// model of the stores.
pub open spec fn key_pred(cfg: Config) -> spec_fn(Seq<u8>) -> bool {
    |k: Seq<u8>| key_ok(cfg, k)
}

/// The bounded field validator: accepts a supplied byte sequence unchanged
/// when its length is within the configured bound, and rejects it with
/// `FieldTooLarge` otherwise. Applied to every field of every request before
/// any store is touched.
pub fn validate_field(field: &Vec<u8>, bound: u32) -> (r: Result<(), Error>)
    ensures
        r is Ok <==> within_bound(field@, bound),
        r is Err ==> r == Err::<(), Error>(Error::FieldTooLarge),
{
    if field.len() <= bound as usize {
        Ok(())
    } else {
        Err(Error::FieldTooLarge)
    }
}

} // verus!
