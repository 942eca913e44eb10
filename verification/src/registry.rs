//! The registrar: one `Pallet` holds the three independent keyed stores
//! (full tracks, sections, stems) together with the field-size configuration,
//! and operates on them with first-writer-wins creation and owner-only
//! revocation. Every operation either succeeds, mutates exactly one store at
//! exactly one key, and returns the domain event of that mutation, or is
//! rejected with an error and mutates nothing.

use vstd::prelude::*;
use crate::config::{key_ok, key_pred, validate_field, Config};
use crate::errors::Error;
use crate::events::Event;
use crate::model::{apply_op, op_allowed, AccountId, ClaimView, Op, Timestamp};
use crate::records::{
    fulltrack_fields_ok, fulltrack_pred, section_fields_ok, section_pred, stem_fields_ok,
    stem_pred, FullTrackFieldsView, FullTrackRecord, SectionFieldsView, SectionRecord,
    StemFieldsView, StemRecord,
};
use crate::store::KeyedStore;

verus! {

/// Whether everything a store holds is within the configured bounds: every
/// stored key, and every field bundle under the store's own validity
/// predicate.
pub open spec fn store_ok<F>(
    cfg: Config,
    m: Map<Seq<u8>, ClaimView<F>>,
    fields_valid: spec_fn(F) -> bool,
) -> bool {
    forall|k: Seq<u8>| #[trigger] m.contains_key(k) ==> key_ok(cfg, k) && fields_valid(m[k].fields)
}

/// The claim registry: three keyed stores sharing one algorithm shape, and
/// the bounds that every stored field obeys.
pub struct Pallet {
    config: Config,
    full_tracks: KeyedStore<FullTrackRecord>,
    sections: KeyedStore<SectionRecord>,
    stems: KeyedStore<StemRecord>,
}

impl Pallet {
    /// The configuration the registry was assembled with.
    pub closed spec fn spec_config(&self) -> Config {
        self.config
    }

    /// The full-track store, as a map from key contents to claims.
    pub closed spec fn full_tracks_map(&self) -> Map<Seq<u8>, ClaimView<FullTrackFieldsView>> {
        self.full_tracks.contents()
    }

    /// The section store, as a map from key contents to claims.
    pub closed spec fn sections_map(&self) -> Map<Seq<u8>, ClaimView<SectionFieldsView>> {
        self.sections.contents()
    }

    /// The stem store, as a map from key contents to claims.
    pub closed spec fn stems_map(&self) -> Map<Seq<u8>, ClaimView<StemFieldsView>> {
        self.stems.contents()
    }

    /// Well-formedness: each store holds at most one record per key, and
    /// every stored key and field is within its configured bound.
    pub closed spec fn wf(&self) -> bool {
        &&& self.full_tracks.wf()
        &&& self.sections.wf()
        &&& self.stems.wf()
        &&& store_ok(self.config, self.full_tracks_map(), fulltrack_pred(self.config))
        &&& store_ok(self.config, self.sections_map(), section_pred(self.config))
        &&& store_ok(self.config, self.stems_map(), stem_pred(self.config))
    }

    /// A fresh registry with the given bounds and all three stores empty.
    pub fn new(config: Config) -> (p: Pallet)
        ensures
            p.wf(),
            p.spec_config() == config,
            p.full_tracks_map() == Map::<Seq<u8>, ClaimView<FullTrackFieldsView>>::empty(),
            p.sections_map() == Map::<Seq<u8>, ClaimView<SectionFieldsView>>::empty(),
            p.stems_map() == Map::<Seq<u8>, ClaimView<StemFieldsView>>::empty(),
    {
        Pallet {
            config,
            full_tracks: KeyedStore::new(),
            sections: KeyedStore::new(),
            stems: KeyedStore::new(),
        }
    }

    /// Claim a full-track record under `music_id` for `owner`, recorded at
    /// logical time `at`. Every field is validated against its bound before
    /// any check or write; a key already claimed rejects the request whole,
    /// whoever claimed it first keeping it.
    pub fn create_fulltrack(
        &mut self,
        owner: AccountId,
        music_id: Vec<u8>,
        music_file: Vec<u8>,
        artist: Vec<u8>,
        track_title: Vec<u8>,
        album: Vec<u8>,
        genre: Vec<u8>,
        bpm: Vec<u8>,
        key: Vec<u8>,
        time_signature: Vec<u8>,
        bars: Vec<u8>,
        beats: Vec<u8>,
        duration: Vec<u8>,
        start_beat_offset_ms: Vec<u8>,
        no_of_sections: Vec<u8>,
        no_of_stems: Vec<u8>,
        at: Timestamp,
    ) -> (r: Result<Event, Error>)
        requires
            old(self).wf(),
        ensures
            final(self).wf(),
            final(self).spec_config() == old(self).spec_config(),
            final(self).sections_map() == old(self).sections_map(),
            final(self).stems_map() == old(self).stems_map(),
            r is Err ==> *final(self) == *old(self),
            ({
                let cfg = old(self).spec_config();
                let fields = FullTrackFieldsView {
                    music_file: music_file@,
                    artist: artist@,
                    track_title: track_title@,
                    album: album@,
                    genre: genre@,
                    bpm: bpm@,
                    key: key@,
                    time_signature: time_signature@,
                    bars: bars@,
                    beats: beats@,
                    duration: duration@,
                    start_beat_offset_ms: start_beat_offset_ms@,
                    no_of_sections: no_of_sections@,
                    no_of_stems: no_of_stems@,
                };
                let op = Op::<FullTrackFieldsView>::Create { key: music_id@, owner, fields, at };
                let bounds_ok = key_ok(cfg, music_id@) && fulltrack_fields_ok(cfg, fields);
                &&& final(self).full_tracks_map() == apply_op(
                    old(self).full_tracks_map(),
                    op,
                    key_pred(cfg),
                    fulltrack_pred(cfg),
                )
                &&& (r is Ok <==> op_allowed(
                    old(self).full_tracks_map(),
                    op,
                    key_pred(cfg),
                    fulltrack_pred(cfg),
                ))
                &&& (r matches Ok(ev) ==> ev matches Event::FullTrackCreated(who, id) && who
                    == owner && id@ == music_id@)
                &&& (r == Err::<Event, Error>(Error::FieldTooLarge) <==> !bounds_ok)
                &&& (r == Err::<Event, Error>(Error::AlreadyClaimed) <==> bounds_ok && old(
                    self,
                ).full_tracks_map().contains_key(music_id@))
            }),
    {
        let bounds_ok = validate_field(&music_id, self.config.music_id).is_ok()
            && validate_field(&music_file, self.config.full_track_cid).is_ok()
            && validate_field(&artist, self.config.artist).is_ok()
            && validate_field(&track_title, self.config.track_title).is_ok()
            && validate_field(&album, self.config.album).is_ok()
            && validate_field(&genre, self.config.genre).is_ok()
            && validate_field(&bpm, self.config.bpm).is_ok()
            && validate_field(&key, self.config.key).is_ok()
            && validate_field(&time_signature, self.config.time_signature).is_ok()
            && validate_field(&bars, self.config.bars).is_ok()
            && validate_field(&beats, self.config.beats).is_ok()
            && validate_field(&duration, self.config.duration).is_ok()
            && validate_field(&start_beat_offset_ms, self.config.start_beat_offset_ms).is_ok()
            && validate_field(&no_of_sections, self.config.sections_count).is_ok()
            && validate_field(&no_of_stems, self.config.stems_count).is_ok();
        if !bounds_ok {
            return Err(Error::FieldTooLarge);
        }
        if self.full_tracks.contains(&music_id) {
            return Err(Error::AlreadyClaimed);
        }
        let id_for_event = copy_bytes(&music_id);
        let record = FullTrackRecord {
            owner,
            music_file,
            artist,
            track_title,
            album,
            genre,
            bpm,
            key,
            time_signature,
            bars,
            beats,
            duration,
            start_beat_offset_ms,
            no_of_sections,
            no_of_stems,
            created_at: at,
        };
        let ghost prior = self.full_tracks_map();
        let ghost cfg = self.config;
        let ghost kview = music_id@;
        let ghost rview = record@;
        self.full_tracks.insert(music_id, record);
        proof {
            assert(self.full_tracks_map() == prior.insert(kview, rview));
            assert(key_ok(cfg, kview) && fulltrack_fields_ok(cfg, rview.fields));
            assert forall|k: Seq<u8>| #[trigger] self.full_tracks_map().contains_key(
                k,
            ) implies key_ok(cfg, k) && fulltrack_pred(cfg)(self.full_tracks_map()[k].fields) by {
                if k == kview {
                    assert(self.full_tracks_map()[k] == rview);
                } else {
                    assert(prior.contains_key(k));
                    assert(self.full_tracks_map()[k] == prior[k]);
                    assert(key_ok(cfg, k) && fulltrack_pred(cfg)(prior[k].fields));
                }
            }
            assert(store_ok(cfg, self.full_tracks_map(), fulltrack_pred(cfg)));
        }
        Ok(Event::FullTrackCreated(owner, id_for_event))
    }

    /// Look up the full-track record claimed under `music_id`, if any.
    pub fn get_fulltrack(&self, music_id: &Vec<u8>) -> (r: Option<&FullTrackRecord>)
        requires
            self.wf(),
        ensures
            match r {
                Some(record) => self.full_tracks_map().contains_key(music_id@) && record@
                    == self.full_tracks_map()[music_id@],
                None => !self.full_tracks_map().contains_key(music_id@),
            },
    {
        self.full_tracks.get(music_id)
    }

    /// Revoke the full-track record claimed under `music_id`. Only the owner
    /// recorded at creation may do so; a missing key or a foreign caller
    /// rejects the request and nothing changes.
    pub fn revoke_fulltrack(&mut self, caller: AccountId, music_id: &Vec<u8>) -> (r: Result<
        Event,
        Error,
    >)
        requires
            old(self).wf(),
        ensures
            final(self).wf(),
            final(self).spec_config() == old(self).spec_config(),
            final(self).sections_map() == old(self).sections_map(),
            final(self).stems_map() == old(self).stems_map(),
            r is Err ==> *final(self) == *old(self),
            ({
                let cfg = old(self).spec_config();
                let op = Op::<FullTrackFieldsView>::Revoke { key: music_id@, caller };
                &&& final(self).full_tracks_map() == apply_op(
                    old(self).full_tracks_map(),
                    op,
                    key_pred(cfg),
                    fulltrack_pred(cfg),
                )
                &&& (r is Ok <==> op_allowed(
                    old(self).full_tracks_map(),
                    op,
                    key_pred(cfg),
                    fulltrack_pred(cfg),
                ))
                &&& (r matches Ok(ev) ==> ev matches Event::FullTrackRevoked(who, id) && who
                    == caller && id@ == music_id@)
                &&& (r == Err::<Event, Error>(Error::NoSuchProof) <==> !old(
                    self,
                ).full_tracks_map().contains_key(music_id@))
                &&& (r == Err::<Event, Error>(Error::NotProofOwner) <==> old(
                    self,
                ).full_tracks_map().contains_key(music_id@) && old(self).full_tracks_map()[
                    music_id@
                ].owner != caller)
            }),
    {
        let recorded_owner: AccountId = match self.full_tracks.get(music_id) {
            None => {
                return Err(Error::NoSuchProof);
            },
            Some(record) => record.owner,
        };
        if recorded_owner != caller {
            return Err(Error::NotProofOwner);
        }
        let ghost prior = self.full_tracks_map();
        let ghost cfg = self.config;
        self.full_tracks.remove(music_id);
        proof {
            assert(self.full_tracks_map() == prior.remove(music_id@));
            assert forall|k: Seq<u8>| #[trigger] self.full_tracks_map().contains_key(
                k,
            ) implies key_ok(cfg, k) && fulltrack_pred(cfg)(self.full_tracks_map()[k].fields) by {
                assert(prior.contains_key(k));
                assert(self.full_tracks_map()[k] == prior[k]);
                assert(key_ok(cfg, k) && fulltrack_pred(cfg)(prior[k].fields));
            }
            assert(store_ok(cfg, self.full_tracks_map(), fulltrack_pred(cfg)));
        }
        Ok(Event::FullTrackRevoked(caller, copy_bytes(music_id)))
    }

    /// Claim a section record under `music_id` for `owner`, recorded at
    /// logical time `at`, under the same validate-check-insert protocol as
    /// full tracks.
    pub fn create_section(
        &mut self,
        owner: AccountId,
        music_id: Vec<u8>,
        section_name: Vec<u8>,
        start_time_ms: Vec<u8>,
        end_time_ms: Vec<u8>,
        bars: Vec<u8>,
        beats: Vec<u8>,
        at: Timestamp,
    ) -> (r: Result<Event, Error>)
        requires
            old(self).wf(),
        ensures
            final(self).wf(),
            final(self).spec_config() == old(self).spec_config(),
            final(self).full_tracks_map() == old(self).full_tracks_map(),
            final(self).stems_map() == old(self).stems_map(),
            r is Err ==> *final(self) == *old(self),
            ({
                let cfg = old(self).spec_config();
                let fields = SectionFieldsView {
                    section_name: section_name@,
                    start_time_ms: start_time_ms@,
                    end_time_ms: end_time_ms@,
                    bars: bars@,
                    beats: beats@,
                };
                let op = Op::<SectionFieldsView>::Create { key: music_id@, owner, fields, at };
                let bounds_ok = key_ok(cfg, music_id@) && section_fields_ok(cfg, fields);
                &&& final(self).sections_map() == apply_op(
                    old(self).sections_map(),
                    op,
                    key_pred(cfg),
                    section_pred(cfg),
                )
                &&& (r is Ok <==> op_allowed(
                    old(self).sections_map(),
                    op,
                    key_pred(cfg),
                    section_pred(cfg),
                ))
                &&& (r matches Ok(ev) ==> ev matches Event::SectionCreated(who, id) && who == owner
                    && id@ == music_id@)
                &&& (r == Err::<Event, Error>(Error::FieldTooLarge) <==> !bounds_ok)
                &&& (r == Err::<Event, Error>(Error::AlreadyClaimed) <==> bounds_ok && old(
                    self,
                ).sections_map().contains_key(music_id@))
            }),
    {
        let bounds_ok = validate_field(&music_id, self.config.music_id).is_ok()
            && validate_field(&section_name, self.config.section_name).is_ok()
            && validate_field(&start_time_ms, self.config.section_start_time_ms).is_ok()
            && validate_field(&end_time_ms, self.config.section_end_time_ms).is_ok()
            && validate_field(&bars, self.config.bars).is_ok()
            && validate_field(&beats, self.config.beats).is_ok();
        if !bounds_ok {
            return Err(Error::FieldTooLarge);
        }
        if self.sections.contains(&music_id) {
            return Err(Error::AlreadyClaimed);
        }
        let id_for_event = copy_bytes(&music_id);
        let record = SectionRecord {
            owner,
            section_name,
            start_time_ms,
            end_time_ms,
            bars,
            beats,
            created_at: at,
        };
        let ghost prior = self.sections_map();
        let ghost cfg = self.config;
        let ghost kview = music_id@;
        let ghost rview = record@;
        self.sections.insert(music_id, record);
        proof {
            assert(self.sections_map() == prior.insert(kview, rview));
            assert(key_ok(cfg, kview) && section_fields_ok(cfg, rview.fields));
            assert forall|k: Seq<u8>| #[trigger] self.sections_map().contains_key(k) implies key_ok(
                cfg,
                k,
            ) && section_pred(cfg)(self.sections_map()[k].fields) by {
                if k == kview {
                    assert(self.sections_map()[k] == rview);
                } else {
                    assert(prior.contains_key(k));
                    assert(self.sections_map()[k] == prior[k]);
                    assert(key_ok(cfg, k) && section_pred(cfg)(prior[k].fields));
                }
            }
            assert(store_ok(cfg, self.sections_map(), section_pred(cfg)));
        }
        Ok(Event::SectionCreated(owner, id_for_event))
    }

    /// Look up the section record claimed under `music_id`, if any.
    pub fn get_section(&self, music_id: &Vec<u8>) -> (r: Option<&SectionRecord>)
        requires
            self.wf(),
        ensures
            match r {
                Some(record) => self.sections_map().contains_key(music_id@) && record@
                    == self.sections_map()[music_id@],
                None => !self.sections_map().contains_key(music_id@),
            },
    {
        self.sections.get(music_id)
    }

    /// Revoke the section record claimed under `music_id`, owner-only.
    pub fn revoke_section(&mut self, caller: AccountId, music_id: &Vec<u8>) -> (r: Result<
        Event,
        Error,
    >)
        requires
            old(self).wf(),
        ensures
            final(self).wf(),
            final(self).spec_config() == old(self).spec_config(),
            final(self).full_tracks_map() == old(self).full_tracks_map(),
            final(self).stems_map() == old(self).stems_map(),
            r is Err ==> *final(self) == *old(self),
            ({
                let cfg = old(self).spec_config();
                let op = Op::<SectionFieldsView>::Revoke { key: music_id@, caller };
                &&& final(self).sections_map() == apply_op(
                    old(self).sections_map(),
                    op,
                    key_pred(cfg),
                    section_pred(cfg),
                )
                &&& (r is Ok <==> op_allowed(
                    old(self).sections_map(),
                    op,
                    key_pred(cfg),
                    section_pred(cfg),
                ))
                &&& (r matches Ok(ev) ==> ev matches Event::SectionRevoked(who, id) && who == caller
                    && id@ == music_id@)
                &&& (r == Err::<Event, Error>(Error::NoSuchProof) <==> !old(
                    self,
                ).sections_map().contains_key(music_id@))
                &&& (r == Err::<Event, Error>(Error::NotProofOwner) <==> old(
                    self,
                ).sections_map().contains_key(music_id@) && old(self).sections_map()[
                    music_id@
                ].owner != caller)
            }),
    {
        let recorded_owner: AccountId = match self.sections.get(music_id) {
            None => {
                return Err(Error::NoSuchProof);
            },
            Some(record) => record.owner,
        };
        if recorded_owner != caller {
            return Err(Error::NotProofOwner);
        }
        let ghost prior = self.sections_map();
        let ghost cfg = self.config;
        self.sections.remove(music_id);
        proof {
            assert(self.sections_map() == prior.remove(music_id@));
            assert forall|k: Seq<u8>| #[trigger] self.sections_map().contains_key(k) implies key_ok(
                cfg,
                k,
            ) && section_pred(cfg)(self.sections_map()[k].fields) by {
                assert(prior.contains_key(k));
                assert(self.sections_map()[k] == prior[k]);
                assert(key_ok(cfg, k) && section_pred(cfg)(prior[k].fields));
            }
            assert(store_ok(cfg, self.sections_map(), section_pred(cfg)));
        }
        Ok(Event::SectionRevoked(caller, copy_bytes(music_id)))
    }

    /// Claim a stem record under `music_id` for `owner`, recorded at logical
    /// time `at`, under the same validate-check-insert protocol as full
    /// tracks.
    pub fn create_stem(
        &mut self,
        owner: AccountId,
        music_id: Vec<u8>,
        stem_cid: Vec<u8>,
        stem_name: Vec<u8>,
        stem_type: Vec<u8>,
        at: Timestamp,
    ) -> (r: Result<Event, Error>)
        requires
            old(self).wf(),
        ensures
            final(self).wf(),
            final(self).spec_config() == old(self).spec_config(),
            final(self).full_tracks_map() == old(self).full_tracks_map(),
            final(self).sections_map() == old(self).sections_map(),
            r is Err ==> *final(self) == *old(self),
            ({
                let cfg = old(self).spec_config();
                let fields = StemFieldsView {
                    stem_cid: stem_cid@,
                    stem_name: stem_name@,
                    stem_type: stem_type@,
                };
                let op = Op::<StemFieldsView>::Create { key: music_id@, owner, fields, at };
                let bounds_ok = key_ok(cfg, music_id@) && stem_fields_ok(cfg, fields);
                &&& final(self).stems_map() == apply_op(
                    old(self).stems_map(),
                    op,
                    key_pred(cfg),
                    stem_pred(cfg),
                )
                &&& (r is Ok <==> op_allowed(
                    old(self).stems_map(),
                    op,
                    key_pred(cfg),
                    stem_pred(cfg),
                ))
                &&& (r matches Ok(ev) ==> ev matches Event::StemCreated(who, id) && who == owner
                    && id@ == music_id@)
                &&& (r == Err::<Event, Error>(Error::FieldTooLarge) <==> !bounds_ok)
                &&& (r == Err::<Event, Error>(Error::AlreadyClaimed) <==> bounds_ok && old(
                    self,
                ).stems_map().contains_key(music_id@))
            }),
    {
        let bounds_ok = validate_field(&music_id, self.config.music_id).is_ok()
            && validate_field(&stem_cid, self.config.stem_cid).is_ok()
            && validate_field(&stem_name, self.config.stem_name).is_ok()
            && validate_field(&stem_type, self.config.stem_type).is_ok();
        if !bounds_ok {
            return Err(Error::FieldTooLarge);
        }
        if self.stems.contains(&music_id) {
            return Err(Error::AlreadyClaimed);
        }
        let id_for_event = copy_bytes(&music_id);
        let record = StemRecord { owner, stem_cid, stem_name, stem_type, created_at: at };
        let ghost prior = self.stems_map();
        let ghost cfg = self.config;
        let ghost kview = music_id@;
        let ghost rview = record@;
        self.stems.insert(music_id, record);
        proof {
            assert(self.stems_map() == prior.insert(kview, rview));
            assert(key_ok(cfg, kview) && stem_fields_ok(cfg, rview.fields));
            assert forall|k: Seq<u8>| #[trigger] self.stems_map().contains_key(k) implies key_ok(
                cfg,
                k,
            ) && stem_pred(cfg)(self.stems_map()[k].fields) by {
                if k == kview {
                    assert(self.stems_map()[k] == rview);
                } else {
                    assert(prior.contains_key(k));
                    assert(self.stems_map()[k] == prior[k]);
                    assert(key_ok(cfg, k) && stem_pred(cfg)(prior[k].fields));
                }
            }
            assert(store_ok(cfg, self.stems_map(), stem_pred(cfg)));
        }
        Ok(Event::StemCreated(owner, id_for_event))
    }

    /// Look up the stem record claimed under `music_id`, if any.
    pub fn get_stem(&self, music_id: &Vec<u8>) -> (r: Option<&StemRecord>)
        requires
            self.wf(),
        ensures
            match r {
                Some(record) => self.stems_map().contains_key(music_id@) && record@
                    == self.stems_map()[music_id@],
                None => !self.stems_map().contains_key(music_id@),
            },
    {
        self.stems.get(music_id)
    }

    /// Revoke the stem record claimed under `music_id`, owner-only.
    pub fn revoke_stem(&mut self, caller: AccountId, music_id: &Vec<u8>) -> (r: Result<
        Event,
        Error,
    >)
        requires
            old(self).wf(),
        ensures
            final(self).wf(),
            final(self).spec_config() == old(self).spec_config(),
            final(self).full_tracks_map() == old(self).full_tracks_map(),
            final(self).sections_map() == old(self).sections_map(),
            r is Err ==> *final(self) == *old(self),
            ({
                let cfg = old(self).spec_config();
                let op = Op::<StemFieldsView>::Revoke { key: music_id@, caller };
                &&& final(self).stems_map() == apply_op(
                    old(self).stems_map(),
                    op,
                    key_pred(cfg),
                    stem_pred(cfg),
                )
                &&& (r is Ok <==> op_allowed(
                    old(self).stems_map(),
                    op,
                    key_pred(cfg),
                    stem_pred(cfg),
                ))
                &&& (r matches Ok(ev) ==> ev matches Event::StemRevoked(who, id) && who == caller
                    && id@ == music_id@)
                &&& (r == Err::<Event, Error>(Error::NoSuchProof) <==> !old(
                    self,
                ).stems_map().contains_key(music_id@))
                &&& (r == Err::<Event, Error>(Error::NotProofOwner) <==> old(
                    self,
                ).stems_map().contains_key(music_id@) && old(self).stems_map()[music_id@].owner
                    != caller)
            }),
    {
        let recorded_owner: AccountId = match self.stems.get(music_id) {
            None => {
                return Err(Error::NoSuchProof);
            },
            Some(record) => record.owner,
        };
        if recorded_owner != caller {
            return Err(Error::NotProofOwner);
        }
        let ghost prior = self.stems_map();
        let ghost cfg = self.config;
        self.stems.remove(music_id);
        proof {
            assert(self.stems_map() == prior.remove(music_id@));
            assert forall|k: Seq<u8>| #[trigger] self.stems_map().contains_key(k) implies key_ok(
                cfg,
                k,
            ) && stem_pred(cfg)(self.stems_map()[k].fields) by {
                assert(prior.contains_key(k));
                assert(self.stems_map()[k] == prior[k]);
                assert(key_ok(cfg, k) && stem_pred(cfg)(prior[k].fields));
            }
            assert(store_ok(cfg, self.stems_map(), stem_pred(cfg)));
        }
        Ok(Event::StemRevoked(caller, copy_bytes(music_id)))
    }
}

/// A fresh byte vector with the same contents as the given one, for handing
/// the key both to the store and to the event of a successful mutation.
fn copy_bytes(src: &Vec<u8>) -> (r: Vec<u8>)
    ensures
        r@ == src@,
{
    let mut out: Vec<u8> = Vec::new();
    let mut i: usize = 0;
    while i < src.len()
        invariant
            i <= src@.len(),
            out@ == src@.subrange(0, i as int),
        decreases src@.len() - i,
    {
        out.push(src[i]);
        proof {
            assert(out@ =~= src@.subrange(0, i + 1));
        }
        i = i + 1;
    }
    proof {
        assert(out@ =~= src@);
    }
    out
}

} // verus!
