use claim_registry::config::{validate_field, Config};
use claim_registry::errors::Error;
use claim_registry::events::Event;
use claim_registry::registry::Pallet;

const ALICE: u64 = 1;
const BOB: u64 = 2;

fn small_config() -> Config {
    Config {
        music_id: 16,
        full_track_cid: 46,
        artist: 32,
        track_title: 32,
        album: 32,
        genre: 16,
        bpm: 20,
        key: 8,
        time_signature: 8,
        bars: 8,
        beats: 8,
        duration: 12,
        start_beat_offset_ms: 12,
        sections_count: 4,
        stems_count: 4,
        section_name: 24,
        section_start_time_ms: 12,
        section_end_time_ms: 12,
        stem_cid: 46,
        stem_name: 24,
        stem_type: 16,
    }
}

#[test]
fn validate_field_accepts_up_to_the_bound() {
    assert_eq!(validate_field(&b"".to_vec(), 0), Ok(()));
    assert_eq!(validate_field(&b"abc".to_vec(), 3), Ok(()));
    assert_eq!(validate_field(&b"abcd".to_vec(), 3), Err(Error::FieldTooLarge));
    assert_eq!(validate_field(&b"x".to_vec(), 0), Err(Error::FieldTooLarge));
}

#[test]
fn section_lifecycle_create_duplicate_revoke() {
    let mut p = Pallet::new(small_config());
    let r = p.create_section(
        ALICE,
        b"sec1".to_vec(),
        b"verse".to_vec(),
        b"0".to_vec(),
        b"15000".to_vec(),
        b"16".to_vec(),
        b"64".to_vec(),
        42,
    );
    assert_eq!(r, Ok(Event::SectionCreated(ALICE, b"sec1".to_vec())));
    let rec = p.get_section(&b"sec1".to_vec()).unwrap();
    assert_eq!(rec.owner, ALICE);
    assert_eq!(rec.section_name, b"verse".to_vec());
    assert_eq!(rec.start_time_ms, b"0".to_vec());
    assert_eq!(rec.end_time_ms, b"15000".to_vec());
    assert_eq!(rec.bars, b"16".to_vec());
    assert_eq!(rec.beats, b"64".to_vec());
    assert_eq!(rec.created_at, 42);
    let dup = p.create_section(
        BOB,
        b"sec1".to_vec(),
        b"bridge".to_vec(),
        b"1".to_vec(),
        b"2".to_vec(),
        b"4".to_vec(),
        b"16".to_vec(),
        43,
    );
    assert_eq!(dup, Err(Error::AlreadyClaimed));
    assert_eq!(
        p.revoke_section(BOB, &b"sec1".to_vec()),
        Err(Error::NotProofOwner)
    );
    assert_eq!(
        p.revoke_section(ALICE, &b"sec1".to_vec()),
        Ok(Event::SectionRevoked(ALICE, b"sec1".to_vec()))
    );
    assert!(p.get_section(&b"sec1".to_vec()).is_none());
    assert_eq!(
        p.revoke_section(ALICE, &b"sec1".to_vec()),
        Err(Error::NoSuchProof)
    );
}

#[test]
fn section_oversized_field_rejected_without_write() {
    let mut p = Pallet::new(small_config());
    let long_name = [5u8; 25];
    let r = p.create_section(
        ALICE,
        b"sec2".to_vec(),
        long_name.to_vec(),
        b"0".to_vec(),
        b"1".to_vec(),
        b"2".to_vec(),
        b"3".to_vec(),
        1,
    );
    assert_eq!(r, Err(Error::FieldTooLarge));
    assert!(p.get_section(&b"sec2".to_vec()).is_none());
}

#[test]
fn stem_lifecycle_create_duplicate_revoke() {
    let mut p = Pallet::new(small_config());
    let r = p.create_stem(
        ALICE,
        b"stem1".to_vec(),
        b"cid-stem".to_vec(),
        b"drums".to_vec(),
        b"percussion".to_vec(),
        9,
    );
    assert_eq!(r, Ok(Event::StemCreated(ALICE, b"stem1".to_vec())));
    let rec = p.get_stem(&b"stem1".to_vec()).unwrap();
    assert_eq!(rec.owner, ALICE);
    assert_eq!(rec.stem_cid, b"cid-stem".to_vec());
    assert_eq!(rec.stem_name, b"drums".to_vec());
    assert_eq!(rec.stem_type, b"percussion".to_vec());
    assert_eq!(rec.created_at, 9);
    let dup = p.create_stem(
        BOB,
        b"stem1".to_vec(),
        b"cid2".to_vec(),
        b"bass".to_vec(),
        b"low".to_vec(),
        10,
    );
    assert_eq!(dup, Err(Error::AlreadyClaimed));
    assert_eq!(p.revoke_stem(BOB, &b"stem1".to_vec()), Err(Error::NotProofOwner));
    assert_eq!(
        p.revoke_stem(ALICE, &b"stem1".to_vec()),
        Ok(Event::StemRevoked(ALICE, b"stem1".to_vec()))
    );
    assert!(p.get_stem(&b"stem1".to_vec()).is_none());
}

#[test]
fn stem_oversized_field_rejected_without_write() {
    let mut p = Pallet::new(small_config());
    let long_type = [8u8; 17];
    let r = p.create_stem(
        ALICE,
        b"stem2".to_vec(),
        b"cid".to_vec(),
        b"keys".to_vec(),
        long_type.to_vec(),
        1,
    );
    assert_eq!(r, Err(Error::FieldTooLarge));
    assert!(p.get_stem(&b"stem2".to_vec()).is_none());
}

#[test]
fn revoke_on_stem_store_does_not_see_other_kinds() {
    let mut p = Pallet::new(small_config());
    p.create_section(
        ALICE,
        b"shared".to_vec(),
        b"intro".to_vec(),
        b"0".to_vec(),
        b"1".to_vec(),
        b"2".to_vec(),
        b"8".to_vec(),
        1,
    )
    .unwrap();
    // No stem was ever created under this key.
    assert_eq!(
        p.revoke_stem(ALICE, &b"shared".to_vec()),
        Err(Error::NoSuchProof)
    );
    assert!(p.get_section(&b"shared".to_vec()).is_some());
}
