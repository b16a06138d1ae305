use midair_proto::cfgstore::{Header, HEADER_LEN, TEXT_MAX, VERSION};

const CONFIG: &[u8] = b"address = 3\nrole = \"repeater\"\n";

/// The ordinary path: what was written comes back, and says it is what
/// was written.
#[test]
fn cfgstore_a_record_round_trips() {
    let header = Header::for_text(CONFIG).expect("a short config fits");
    let read = Header::decode(&header.encode()).expect("its own header decodes");
    assert_eq!(read, header);
    assert_eq!(read.len, CONFIG.len());
    assert!(read.matches(CONFIG));
}

/// An empty config is a real config - every setting at its default -
/// so it is storable, and it is not the same as having stored nothing.
/// A board that treated the two alike would answer a push of an empty
/// file by restoring whatever the last one said.
#[test]
fn an_empty_config_is_a_record_and_not_an_absent_one() {
    let header = Header::for_text(b"").expect("an empty config is storable");
    let read = Header::decode(&header.encode()).expect("decodes");
    assert_eq!(read.len, 0);
    assert!(read.matches(b""));
    assert!(!read.matches(CONFIG));
}

/// Erased flash is what a board that has never stored a config reads,
/// and it has to read as nothing rather than as a config of 0xFFFF...
/// bytes.
#[test]
fn erased_flash_is_not_a_record() {
    assert_eq!(Header::decode(&[0xFF; HEADER_LEN]), None);
}

/// So is a zeroed region, which is what another program's untouched
/// allocation looks like.
#[test]
fn zeros_are_not_a_record() {
    assert_eq!(Header::decode(&[0x00; HEADER_LEN]), None);
}

/// A short read cannot be completed by guessing at the rest.
#[test]
fn a_truncated_header_is_not_a_record() {
    let hdr = Header::for_text(CONFIG).unwrap().encode();
    assert_eq!(Header::decode(&hdr[..HEADER_LEN - 1]), None);
}

/// A future layout reads as nothing stored, so the board falls back to
/// the card rather than to a misread record. Downgrading a board is the
/// case: the record it left behind is not this build's.
#[test]
fn an_unknown_version_is_refused() {
    let mut hdr = Header::for_text(CONFIG).unwrap().encode();
    hdr[4..8].copy_from_slice(&(VERSION + 1).to_le_bytes());
    assert_eq!(Header::decode(&hdr), None);
}

/// A length past what any transfer could have delivered is corruption,
/// whatever else the header says - and the reader would otherwise ask
/// the flash for bytes past the record.
#[test]
fn an_impossible_length_is_refused() {
    let mut hdr = Header::for_text(CONFIG).unwrap().encode();
    hdr[8..12].copy_from_slice(&((TEXT_MAX + 1) as u32).to_le_bytes());
    assert_eq!(Header::decode(&hdr), None);
    // And nothing that long can be written in the first place.
    assert_eq!(Header::for_text(&[b'#'; TEXT_MAX + 1]), None);
    assert!(Header::for_text(&[b'#'; TEXT_MAX]).is_some());
}

/// The interrupted write: an old header in front of new text. Both
/// halves are individually valid, and the pair has to be refused - this
/// is the whole reason the crc is in front of the text rather than
/// behind it.
#[test]
fn a_header_from_a_different_text_does_not_match() {
    let old = Header::for_text(b"address = 1\n").unwrap();
    assert!(!old.matches(CONFIG));
}

/// A single flipped byte, with the length unchanged, is what a crc is
/// for: nothing about the framing notices it.
#[test]
fn a_corrupted_text_does_not_match() {
    let header = Header::for_text(CONFIG).unwrap();
    let mut corrupt = CONFIG.to_vec();
    corrupt[0] ^= 0x20;
    assert_eq!(corrupt.len(), header.len);
    assert!(!header.matches(&corrupt));
}

/// The header's bytes, and a header that reads back with the text behind it.
#[test]
fn a_header_is_magic_version_length_and_crc() {
    let bytes = Header::for_text(b"123456789").unwrap().encode();
    assert_eq!(
        bytes,
        [0x43, 0x64, 0x69, 0x6D, 1, 0, 0, 0, 9, 0, 0, 0, 0x26, 0x39, 0xF4, 0xCB]
    );
    let mut flash = bytes.to_vec();
    flash.extend_from_slice(b"123456789");
    let read = Header::decode(&flash).unwrap();
    assert!(read.matches(&flash[HEADER_LEN..]));
}
