use claim_registry::config::Config;
use claim_registry::errors::Error;
use claim_registry::events::Event;
use claim_registry::registry::Pallet;

const ALICE: u64 = 1;
const BOB: u64 = 2;
const CAROL: u64 = 3;

fn uniform_config(bound: u32) -> Config {
    Config {
        music_id: bound,
        full_track_cid: bound,
        artist: bound,
        track_title: bound,
        album: bound,
        genre: bound,
        bpm: bound,
        key: bound,
        time_signature: bound,
        bars: bound,
        beats: bound,
        duration: bound,
        start_beat_offset_ms: bound,
        sections_count: bound,
        stems_count: bound,
        section_name: bound,
        section_start_time_ms: bound,
        section_end_time_ms: bound,
        stem_cid: bound,
        stem_name: bound,
        stem_type: bound,
    }
}

fn create_track(
    p: &mut Pallet,
    owner: u64,
    id: &[u8],
    artist: &[u8],
    bpm: &[u8],
    at: u64,
) -> Result<Event, Error> {
    p.create_fulltrack(
        owner,
        id.to_vec(),
        b"cid".to_vec(),
        artist.to_vec(),
        b"title".to_vec(),
        b"album".to_vec(),
        b"genre".to_vec(),
        bpm.to_vec(),
        b"Am".to_vec(),
        b"4/4".to_vec(),
        b"32".to_vec(),
        b"128".to_vec(),
        b"180000".to_vec(),
        b"0".to_vec(),
        b"4".to_vec(),
        b"8".to_vec(),
        at,
    )
}

#[test]
fn first_create_succeeds_and_emits_created() {
    let mut p = Pallet::new(uniform_config(20));
    let r = create_track(&mut p, ALICE, b"track1", b"Bob", b"120", 10);
    assert_eq!(r, Ok(Event::FullTrackCreated(ALICE, b"track1".to_vec())));
}

#[test]
fn second_create_same_key_fails_already_claimed() {
    let mut p = Pallet::new(uniform_config(20));
    create_track(&mut p, ALICE, b"track1", b"Bob", b"120", 10).unwrap();
    let r = create_track(&mut p, CAROL, b"track1", b"Eve", b"99", 11);
    assert_eq!(r, Err(Error::AlreadyClaimed));
    let rec = p.get_fulltrack(&b"track1".to_vec()).unwrap();
    assert_eq!(rec.owner, ALICE);
    assert_eq!(rec.created_at, 10);
}

#[test]
fn revoke_by_non_owner_fails_then_owner_succeeds() {
    let mut p = Pallet::new(uniform_config(20));
    create_track(&mut p, ALICE, b"track1", b"Bob", b"120", 10).unwrap();
    let r = p.revoke_fulltrack(BOB, &b"track1".to_vec());
    assert_eq!(r, Err(Error::NotProofOwner));
    assert!(p.get_fulltrack(&b"track1".to_vec()).is_some());
    let r2 = p.revoke_fulltrack(ALICE, &b"track1".to_vec());
    assert_eq!(r2, Ok(Event::FullTrackRevoked(ALICE, b"track1".to_vec())));
    assert!(p.get_fulltrack(&b"track1".to_vec()).is_none());
}

#[test]
fn revoke_never_created_key_fails_no_such_proof() {
    let mut p = Pallet::new(uniform_config(20));
    let r = p.revoke_fulltrack(ALICE, &b"ghost".to_vec());
    assert_eq!(r, Err(Error::NoSuchProof));
}

#[test]
fn oversized_bpm_fails_field_too_large_and_store_unchanged() {
    let mut p = Pallet::new(uniform_config(20));
    let oversized = [7u8; 21];
    let r = create_track(&mut p, ALICE, b"t2", b"Bob", &oversized, 10);
    assert_eq!(r, Err(Error::FieldTooLarge));
    assert!(p.get_fulltrack(&b"t2".to_vec()).is_none());
}

#[test]
fn lookup_returns_exactly_what_was_created() {
    let mut p = Pallet::new(uniform_config(20));
    let r = p.create_fulltrack(
        ALICE,
        b"track9".to_vec(),
        b"cid-9".to_vec(),
        b"Ada".to_vec(),
        b"Ninth".to_vec(),
        b"Nights".to_vec(),
        b"ambient".to_vec(),
        b"84".to_vec(),
        b"F#m".to_vec(),
        b"7/8".to_vec(),
        b"48".to_vec(),
        b"336".to_vec(),
        b"241000".to_vec(),
        b"125".to_vec(),
        b"6".to_vec(),
        b"12".to_vec(),
        77,
    );
    assert!(r.is_ok());
    let rec = p.get_fulltrack(&b"track9".to_vec()).unwrap();
    assert_eq!(rec.owner, ALICE);
    assert_eq!(rec.music_file, b"cid-9".to_vec());
    assert_eq!(rec.artist, b"Ada".to_vec());
    assert_eq!(rec.track_title, b"Ninth".to_vec());
    assert_eq!(rec.album, b"Nights".to_vec());
    assert_eq!(rec.genre, b"ambient".to_vec());
    assert_eq!(rec.bpm, b"84".to_vec());
    assert_eq!(rec.key, b"F#m".to_vec());
    assert_eq!(rec.time_signature, b"7/8".to_vec());
    assert_eq!(rec.bars, b"48".to_vec());
    assert_eq!(rec.beats, b"336".to_vec());
    assert_eq!(rec.duration, b"241000".to_vec());
    assert_eq!(rec.start_beat_offset_ms, b"125".to_vec());
    assert_eq!(rec.no_of_sections, b"6".to_vec());
    assert_eq!(rec.no_of_stems, b"12".to_vec());
    assert_eq!(rec.created_at, 77);
}

#[test]
fn key_claimable_again_only_after_revoke() {
    let mut p = Pallet::new(uniform_config(20));
    assert!(create_track(&mut p, ALICE, b"k", b"A", b"1", 1).is_ok());
    assert_eq!(
        create_track(&mut p, BOB, b"k", b"B", b"2", 2),
        Err(Error::AlreadyClaimed)
    );
    assert!(p.revoke_fulltrack(ALICE, &b"k".to_vec()).is_ok());
    assert!(create_track(&mut p, BOB, b"k", b"B", b"2", 3).is_ok());
    let rec = p.get_fulltrack(&b"k".to_vec()).unwrap();
    assert_eq!(rec.owner, BOB);
    assert_eq!(rec.created_at, 3);
}

#[test]
fn failed_operations_leave_record_byte_for_byte() {
    let mut p = Pallet::new(uniform_config(20));
    create_track(&mut p, ALICE, b"k", b"Ada", b"120", 5).unwrap();
    let before = p.get_fulltrack(&b"k".to_vec()).unwrap().clone();
    assert_eq!(
        create_track(&mut p, CAROL, b"k", b"Eve", b"60", 6),
        Err(Error::AlreadyClaimed)
    );
    assert_eq!(p.get_fulltrack(&b"k".to_vec()).unwrap(), &before);
    assert_eq!(
        p.revoke_fulltrack(CAROL, &b"k".to_vec()),
        Err(Error::NotProofOwner)
    );
    assert_eq!(p.get_fulltrack(&b"k".to_vec()).unwrap(), &before);
    let oversized = [1u8; 21];
    assert_eq!(
        create_track(&mut p, CAROL, b"k", &oversized, b"60", 7),
        Err(Error::FieldTooLarge)
    );
    assert_eq!(p.get_fulltrack(&b"k".to_vec()).unwrap(), &before);
}

#[test]
fn oversized_key_fails_field_too_large() {
    let mut p = Pallet::new(uniform_config(4));
    let long_key = [9u8; 5];
    let r = create_track(&mut p, ALICE, &long_key, b"A", b"1", 1);
    assert_eq!(r, Err(Error::FieldTooLarge));
}

#[test]
fn field_of_exactly_the_bound_is_accepted() {
    let mut p = Pallet::new(uniform_config(4));
    let exact = vec![3u8; 4];
    let r = p.create_fulltrack(
        ALICE,
        b"id".to_vec(),
        exact.clone(),
        exact.clone(),
        exact.clone(),
        exact.clone(),
        exact.clone(),
        exact.clone(),
        exact.clone(),
        exact.clone(),
        exact.clone(),
        exact.clone(),
        exact.clone(),
        exact.clone(),
        exact.clone(),
        exact.clone(),
        1,
    );
    assert!(r.is_ok());
}

#[test]
fn zero_bound_accepts_only_empty_fields() {
    let mut p = Pallet::new(uniform_config(0));
    let r = p.create_fulltrack(
        ALICE,
        Vec::new(),
        Vec::new(),
        Vec::new(),
        Vec::new(),
        Vec::new(),
        Vec::new(),
        Vec::new(),
        Vec::new(),
        Vec::new(),
        Vec::new(),
        Vec::new(),
        Vec::new(),
        Vec::new(),
        Vec::new(),
        Vec::new(),
        1,
    );
    assert!(r.is_ok());
    let mut p2 = Pallet::new(uniform_config(0));
    let r2 = p2.create_fulltrack(
        ALICE,
        Vec::new(),
        Vec::new(),
        b"x".to_vec(),
        Vec::new(),
        Vec::new(),
        Vec::new(),
        Vec::new(),
        Vec::new(),
        Vec::new(),
        Vec::new(),
        Vec::new(),
        Vec::new(),
        Vec::new(),
        Vec::new(),
        Vec::new(),
        1,
    );
    assert_eq!(r2, Err(Error::FieldTooLarge));
}

#[test]
fn stores_are_independent_per_kind() {
    let mut p = Pallet::new(uniform_config(20));
    create_track(&mut p, ALICE, b"id", b"Ada", b"120", 1).unwrap();
    // The same key is still free in the section and stem stores.
    let rs = p.create_section(
        BOB,
        b"id".to_vec(),
        b"chorus".to_vec(),
        b"1000".to_vec(),
        b"2000".to_vec(),
        b"8".to_vec(),
        b"32".to_vec(),
        2,
    );
    assert_eq!(rs, Ok(Event::SectionCreated(BOB, b"id".to_vec())));
    let rt = p.create_stem(
        CAROL,
        b"id".to_vec(),
        b"stemcid".to_vec(),
        b"vocals".to_vec(),
        b"lead".to_vec(),
        3,
    );
    assert_eq!(rt, Ok(Event::StemCreated(CAROL, b"id".to_vec())));
    // Revoking the full track leaves the other stores alone.
    p.revoke_fulltrack(ALICE, &b"id".to_vec()).unwrap();
    assert!(p.get_section(&b"id".to_vec()).is_some());
    assert!(p.get_stem(&b"id".to_vec()).is_some());
}
