//! The record schema of the three stores. A record is an immutable tuple once
//! written: the creating account, a fixed ordered set of bounded byte fields,
//! and the logical timestamp of creation. Each record kind views as a
//! `ClaimView` over a ghost bundle of its field contents, which is what the
//! store model and the registry contracts speak of.

use vstd::prelude::*;
use crate::config::{within_bound, Config};
use crate::model::{AccountId, ClaimView, Timestamp};

verus! {

/// The field contents of a full-track record, as byte sequences.
pub struct FullTrackFieldsView {
    pub music_file: Seq<u8>,
    pub artist: Seq<u8>,
    pub track_title: Seq<u8>,
    pub album: Seq<u8>,
    pub genre: Seq<u8>,
    pub bpm: Seq<u8>,
    pub key: Seq<u8>,
    pub time_signature: Seq<u8>,
    pub bars: Seq<u8>,
    pub beats: Seq<u8>,
    pub duration: Seq<u8>,
    pub start_beat_offset_ms: Seq<u8>,
    pub no_of_sections: Seq<u8>,
    pub no_of_stems: Seq<u8>,
}

/// The field contents of a section record, as byte sequences.
pub struct SectionFieldsView {
    pub section_name: Seq<u8>,
    pub start_time_ms: Seq<u8>,
    pub end_time_ms: Seq<u8>,
    pub bars: Seq<u8>,
    pub beats: Seq<u8>,
}

/// The field contents of a stem record, as byte sequences.
pub struct StemFieldsView {
    pub stem_cid: Seq<u8>,
    pub stem_name: Seq<u8>,
    pub stem_type: Seq<u8>,
}

/// A stored full-track record.
#[derive(Clone, PartialEq, Eq, Debug)]
pub struct FullTrackRecord {
    pub owner: AccountId,
    pub music_file: Vec<u8>,
    pub artist: Vec<u8>,
    pub track_title: Vec<u8>,
    pub album: Vec<u8>,
    pub genre: Vec<u8>,
    pub bpm: Vec<u8>,
    pub key: Vec<u8>,
    pub time_signature: Vec<u8>,
    pub bars: Vec<u8>,
    pub beats: Vec<u8>,
    pub duration: Vec<u8>,
    pub start_beat_offset_ms: Vec<u8>,
    pub no_of_sections: Vec<u8>,
    pub no_of_stems: Vec<u8>,
    pub created_at: Timestamp,
}

/// A stored section record.
#[derive(Clone, PartialEq, Eq, Debug)]
pub struct SectionRecord {
    pub owner: AccountId,
    pub section_name: Vec<u8>,
    pub start_time_ms: Vec<u8>,
    pub end_time_ms: Vec<u8>,
    pub bars: Vec<u8>,
    pub beats: Vec<u8>,
    pub created_at: Timestamp,
}

/// A stored stem record.
#[derive(Clone, PartialEq, Eq, Debug)]
pub struct StemRecord {
    pub owner: AccountId,
    pub stem_cid: Vec<u8>,
    pub stem_name: Vec<u8>,
    pub stem_type: Vec<u8>,
    pub created_at: Timestamp,
}

impl View for FullTrackRecord {
    type V = ClaimView<FullTrackFieldsView>;

    open spec fn view(&self) -> ClaimView<FullTrackFieldsView> {
        ClaimView {
            owner: self.owner,
            fields: FullTrackFieldsView {
                music_file: self.music_file@,
                artist: self.artist@,
                track_title: self.track_title@,
                album: self.album@,
                genre: self.genre@,
                bpm: self.bpm@,
                key: self.key@,
                time_signature: self.time_signature@,
                bars: self.bars@,
                beats: self.beats@,
                duration: self.duration@,
                start_beat_offset_ms: self.start_beat_offset_ms@,
                no_of_sections: self.no_of_sections@,
                no_of_stems: self.no_of_stems@,
            },
            created_at: self.created_at,
        }
    }
}

impl View for SectionRecord {
    type V = ClaimView<SectionFieldsView>;

    open spec fn view(&self) -> ClaimView<SectionFieldsView> {
        ClaimView {
            owner: self.owner,
            fields: SectionFieldsView {
                section_name: self.section_name@,
                start_time_ms: self.start_time_ms@,
                end_time_ms: self.end_time_ms@,
                bars: self.bars@,
                beats: self.beats@,
            },
            created_at: self.created_at,
        }
    }
}

impl View for StemRecord {
    type V = ClaimView<StemFieldsView>;

    open spec fn view(&self) -> ClaimView<StemFieldsView> {
        ClaimView {
            owner: self.owner,
            fields: StemFieldsView {
                stem_cid: self.stem_cid@,
                stem_name: self.stem_name@,
                stem_type: self.stem_type@,
            },
            created_at: self.created_at,
        }
    }
}

/// Whether every field of a full-track bundle is within its configured bound.
pub open spec fn fulltrack_fields_ok(cfg: Config, f: FullTrackFieldsView) -> bool {
    &&& within_bound(f.music_file, cfg.full_track_cid)
    &&& within_bound(f.artist, cfg.artist)
    &&& within_bound(f.track_title, cfg.track_title)
    &&& within_bound(f.album, cfg.album)
    &&& within_bound(f.genre, cfg.genre)
    &&& within_bound(f.bpm, cfg.bpm)
    &&& within_bound(f.key, cfg.key)
    &&& within_bound(f.time_signature, cfg.time_signature)
    &&& within_bound(f.bars, cfg.bars)
    &&& within_bound(f.beats, cfg.beats)
    &&& within_bound(f.duration, cfg.duration)
    &&& within_bound(f.start_beat_offset_ms, cfg.start_beat_offset_ms)
    &&& within_bound(f.no_of_sections, cfg.sections_count)
    &&& within_bound(f.no_of_stems, cfg.stems_count)
}

/// Whether every field of a section bundle is within its configured bound.
pub open spec fn section_fields_ok(cfg: Config, f: SectionFieldsView) -> bool {
    &&& within_bound(f.section_name, cfg.section_name)
    &&& within_bound(f.start_time_ms, cfg.section_start_time_ms)
    &&& within_bound(f.end_time_ms, cfg.section_end_time_ms)
    &&& within_bound(f.bars, cfg.bars)
    &&& within_bound(f.beats, cfg.beats)
}

/// Whether every field of a stem bundle is within its configured bound.
pub open spec fn stem_fields_ok(cfg: Config, f: StemFieldsView) -> bool {
    &&& within_bound(f.stem_cid, cfg.stem_cid)
    &&& within_bound(f.stem_name, cfg.stem_name)
    &&& within_bound(f.stem_type, cfg.stem_type)
}

/// The full-track field-validity predicate of a configuration, as a value.
pub open spec fn fulltrack_pred(cfg: Config) -> spec_fn(FullTrackFieldsView) -> bool {
    |f: FullTrackFieldsView| fulltrack_fields_ok(cfg, f)
}

/// The section field-validity predicate of a configuration, as a value.
pub open spec fn section_pred(cfg: Config) -> spec_fn(SectionFieldsView) -> bool {
    |f: SectionFieldsView| section_fields_ok(cfg, f)
}

/// The stem field-validity predicate of a configuration, as a value.
pub open spec fn stem_pred(cfg: Config) -> spec_fn(StemFieldsView) -> bool {
    |f: StemFieldsView| stem_fields_ok(cfg, f)
}

} // verus!
