use midair_proto::hop::{SyncWord, SYNC_LEN};
use midair_proto::lora::{
    decode_name, decode_position, encode_name, encode_position, name_msg_len, position_msg_len, write_fields, Frame,
    Ping, Position, FIELDS_ALL, FIELDS_DEFAULT, FIELDS_REQUIRED, FIELD_ALT, FIELD_COURSE, FIELD_SATS, FIELD_SPEED,
    FIELD_TIME, FLAG_SYNC, FRAME_MAX, HEADER_LEN, HEADER_SYNC_LEN, MSG_NAME, NAME_MSG_MAX, PAYLOAD_MAX,
    PING_MSG_LEN, POSITION_MSG_MAX,
};

fn sample() -> Position {
    Position {
        lat_e7: 481_173_000,
        lon_e7: -1_226_760_000,
        alt_dm: 1234,
        speed_cms: 0,
        course_cdeg: 0,
        fix: true,
        sats: 7,
        tod_ms: 1000,
    }
}

#[test]
fn position_roundtrip_all_fields() {
    let p = sample();
    let (enc, n) = encode_position(&p, FIELDS_ALL);
    assert_eq!(n, POSITION_MSG_MAX);
    assert_eq!(decode_position(&enc[..n]), Some(p));
    assert_eq!(decode_position(b"hello"), None);
    // A tagged payload shorter than its own mask claims is rejected
    // rather than decoded from whatever follows it in the buffer.
    assert_eq!(decode_position(&enc[..n - 1]), None);
    assert_eq!(decode_position(&enc[..1]), None);
}

/// The default beacon is position only, and that is what the air time
/// saving rests on: 10 payload bytes against the 21 of a full packet.
#[test]
fn default_fields_carry_position_only() {
    let (enc, n) = encode_position(&sample(), FIELDS_DEFAULT);
    assert_eq!(n, 10);
    assert_eq!(position_msg_len(FIELDS_DEFAULT), 10);
    let got = decode_position(&enc[..n]).unwrap();
    assert_eq!((got.lat_e7, got.lon_e7), (481_173_000, -1_226_760_000));
    // Everything not selected comes back zeroed, not stale or garbage.
    assert_eq!(got.alt_dm, 0);
    assert_eq!(got.sats, 0);
    assert_eq!(got.tod_ms, 0);
    // Receiving a beacon at all is proof the sender had a fix.
    assert!(got.fix);
}

#[test]
fn each_field_costs_its_own_width() {
    let base = position_msg_len(FIELDS_DEFAULT);
    for (bit, width) in [
        (FIELD_ALT, 2),
        (FIELD_SPEED, 2),
        (FIELD_COURSE, 2),
        (FIELD_SATS, 1),
        (FIELD_TIME, 4),
    ] {
        let (_, n) = encode_position(&sample(), FIELDS_DEFAULT | bit);
        assert_eq!(n, base + width, "field {bit:#04x}");
    }
}

/// A sender that adds a field and one that does not are both decodable
/// by the same receiver - the mask travels with the frame.
#[test]
fn mixed_senders_interoperate() {
    let (lean, ln) = encode_position(&sample(), FIELDS_DEFAULT);
    let (rich, rn) = encode_position(&sample(), FIELDS_DEFAULT | FIELD_ALT);
    assert_eq!(decode_position(&lean[..ln]).unwrap().alt_dm, 0);
    assert_eq!(decode_position(&rich[..rn]).unwrap().alt_dm, 1234);
}

/// 0x50 was the old fixed 20-byte layout. A frame from that firmware
/// must be refused, not read as a mask plus fields.
#[test]
fn old_position_tag_is_not_decoded() {
    let mut old = [0u8; 21];
    old[0] = 0x50;
    old[1..5].copy_from_slice(&sample().lat_e7.to_le_bytes());
    old[5..9].copy_from_slice(&sample().lon_e7.to_le_bytes());
    old[9..11].copy_from_slice(&sample().alt_dm.to_le_bytes());
    old[15] = 1;
    old[16] = sample().sats;
    old[17..].copy_from_slice(&sample().tod_ms.to_le_bytes());
    assert_eq!(decode_position(&old), None);
}

#[test]
fn ping_roundtrip() {
    let p = Ping { uptime_s: 4321, gps_present: true, had_fix: false };
    let enc = p.encode();
    assert_eq!(enc.len(), PING_MSG_LEN);
    assert_eq!(Ping::decode(&enc), Some(p));

    // Each flag travels on its own bit.
    let none = Ping { uptime_s: 0, gps_present: false, had_fix: false };
    assert_eq!(none.flags(), 0);
    assert_eq!(Ping::decode(&none.encode()), Some(none));
    let both = Ping { uptime_s: u16::MAX, gps_present: true, had_fix: true };
    assert_eq!(Ping::decode(&both.encode()), Some(both));

    // Set bits this build does not know are ignored, not a rejection.
    let mut future = both.encode();
    future[1] |= 0x80;
    assert_eq!(Ping::decode(&future), Some(both));
}

/// The two payload kinds must never decode as each other: a receiver
/// tries both, and a position read as a ping would report an alive node
/// with no position when it had one.
#[test]
fn ping_and_position_do_not_alias() {
    let (pos, n) = encode_position(&sample(), FIELDS_DEFAULT);
    assert_eq!(Ping::decode(&pos[..n]), None);
    assert_eq!(decode_position(&Ping::default().encode()), None);
    // Runts and other payloads are refused rather than read short.
    assert_eq!(Ping::decode(&Ping::default().encode()[..3]), None);
    assert_eq!(Ping::decode(b""), None);
    assert_eq!(Ping::decode(b"hello"), None);
}

/// A ping is cheaper on the air than the leanest position, which is what
/// makes reporting a missing fix free of a duty-cycle argument.
#[test]
fn ping_is_smaller_than_a_position() {
    assert!(PING_MSG_LEN < position_msg_len(FIELDS_REQUIRED));
}

#[test]
fn name_roundtrip() {
    let (enc, n) = encode_name("sky-1").expect("a valid label encodes");
    assert_eq!(n, 6, "the tag and five bytes of label, nothing padded");
    assert_eq!(decode_name(&enc[..n]), Some("sky-1"));

    // The longest label this firmware stores fits the message.
    let long = "a".repeat(midair_proto::ble::NAME_LABEL_MAX);
    let (enc, n) = encode_name(&long).expect("the longest label encodes");
    assert_eq!(n, NAME_MSG_MAX);
    assert_eq!(decode_name(&enc[..n]).map(str::to_owned), Some(long));
}

/// A label travels at its own length, so naming a node costs what its
/// name is rather than what the longest name would be.
#[test]
fn a_name_costs_its_own_length() {
    for label in ["a", "sky-1", "ground-station"] {
        let (_, n) = encode_name(label).unwrap();
        assert_eq!(n, name_msg_len(label), "label {label}");
        assert_eq!(n, 1 + label.len());
    }
}

/// Only a label a board would store goes out, and only one comes back.
/// The charset is what keeps an arbitrary byte string out of a console
/// line and a display - a hardware CRC says a frame arrived intact, not
/// that it came from this network.
#[test]
fn lora_a_name_that_is_not_a_label_is_refused() {
    assert_eq!(encode_name(""), None, "an unnamed board has nothing to say");
    assert!(encode_name(&"a".repeat(midair_proto::ble::NAME_LABEL_MAX + 1)).is_none());
    for bad in ["sky 1", "sky\"1", "sky/1"] {
        assert!(encode_name(bad).is_none(), "label {bad}");
    }
    // And the same on the way in, whatever a sender put on the air.
    let mut msg = [0u8; NAME_MSG_MAX];
    msg[0] = MSG_NAME;
    msg[1] = b' ';
    assert_eq!(decode_name(&msg[..2]), None);
    msg[1] = 0xFF;
    assert_eq!(decode_name(&msg[..2]), None, "not utf-8 either");
    assert_eq!(decode_name(&msg[..1]), None, "a tag with no label");
}

/// Three payload kinds now, and a receiver tries each in turn: none of
/// them may decode as another.
#[test]
fn a_name_does_not_alias_the_other_payloads() {
    let (name, n) = encode_name("sky-1").unwrap();
    assert_eq!(decode_position(&name[..n]), None);
    assert_eq!(Ping::decode(&name[..n]), None);

    let (pos, n) = encode_position(&sample(), FIELDS_DEFAULT);
    assert_eq!(decode_name(&pos[..n]), None);
    assert_eq!(decode_name(&Ping::default().encode()), None);
    assert_eq!(decode_name(b""), None);
}

#[test]
fn lora_frame_roundtrip() {
    let (payload, plen) = encode_position(&sample(), FIELDS_ALL);
    let payload = &payload[..plen];
    let frame = Frame {
        src: 3,
        id: 42,
        hops_left: 1,
        sync: None,
        payload,
    };
    let mut buf = [0u8; FRAME_MAX];
    let n = frame.encode(&mut buf).unwrap();
    // 3 header + 21 payload; no padding to a fixed size.
    assert_eq!(n, 24);
    assert_eq!(Frame::decode(&buf[..n]), Some(frame));
}

/// A hopped frame carries its sync word behind the header, flagged in
/// the hop byte so a receiver knows where the payload starts. The hop
/// count survives the flag.
#[test]
fn sync_word_travels_behind_the_header() {
    let sync = SyncWord { slot: 4321, stratum: 2, phase: 77 };
    let frame = Frame {
        src: 3,
        id: 42,
        hops_left: 8,
        sync: Some(sync),
        payload: b"\x52\x01\x02\x03",
    };
    assert_eq!(frame.sync_offset(), Some(HEADER_LEN));
    let mut buf = [0u8; FRAME_MAX];
    let n = frame.encode(&mut buf).unwrap();
    assert_eq!(n, HEADER_SYNC_LEN + 4);
    assert_eq!(buf[2], 8 | FLAG_SYNC);
    assert_eq!(&buf[HEADER_LEN..HEADER_SYNC_LEN], &sync.to_bytes());
    let back = Frame::decode(&buf[..n]).unwrap();
    assert_eq!(back, frame);
    assert_eq!(back.hops_left, 8);
    assert_eq!(back.payload, b"\x52\x01\x02\x03");
    // A flagged header with nothing behind the sync word is a runt.
    assert_eq!(Frame::decode(&buf[..HEADER_SYNC_LEN]), None);
    // The unflagged frame has no offset to stamp.
    assert_eq!(Frame { sync: None, ..frame }.sync_offset(), None);
}

#[test]
fn frame_rejects_malformed() {
    let mut buf = [0u8; FRAME_MAX];
    // Header only, no payload.
    assert_eq!(Frame::decode(&[1, 2, 3]), None);
    assert_eq!(Frame::decode(&[1, 2]), None);
    assert_eq!(Frame::decode(&[]), None);
    // Source address 0 is not assignable.
    assert_eq!(Frame::decode(&[0, 1, 1, 0x50]), None);
    // Empty and oversized payloads do not encode.
    let empty = Frame { src: 1, id: 0, hops_left: 0, sync: None, payload: &[] };
    assert_eq!(empty.encode(&mut buf), None);
    let big = [0u8; PAYLOAD_MAX + 1];
    let over = Frame { src: 1, id: 0, hops_left: 0, sync: None, payload: &big };
    assert_eq!(over.encode(&mut buf), None);
    // Exactly full fits, with the sync word and without.
    let full = Frame {
        src: 1,
        id: 0,
        hops_left: 0,
        sync: Some(SyncWord::default()),
        payload: &big[..PAYLOAD_MAX],
    };
    assert_eq!(full.encode(&mut buf), Some(FRAME_MAX));
    let plain = Frame { sync: None, ..full };
    assert_eq!(plain.encode(&mut buf), Some(FRAME_MAX - SYNC_LEN));
}

#[test]
fn hops_survive_a_repeat() {
    let (payload, plen) = encode_position(&sample(), FIELDS_ALL);
    let mut buf = [0u8; FRAME_MAX];
    let n = Frame { src: 7, id: 9, hops_left: 2, sync: None, payload: &payload[..plen] }
        .encode(&mut buf)
        .unwrap();

    // What a repeater does: decode, decrement, re-encode. The origin
    // address and id must survive so the next hop still dedups on them.
    let recv = Frame::decode(&buf[..n]).unwrap();
    let mut out = [0u8; FRAME_MAX];
    let n2 = Frame { hops_left: recv.hops_left - 1, ..recv }
        .encode(&mut out)
        .unwrap();
    let hop2 = Frame::decode(&out[..n2]).unwrap();
    assert_eq!((hop2.src, hop2.id, hop2.hops_left), (7, 9, 1));
    assert_eq!(decode_position(hop2.payload), Some(sample()));
}

/// A full message, byte by byte: tag, mask, and the fields in bit order.
#[test]
fn a_position_is_laid_out_in_bit_order() {
    let p = Position {
        lat_e7: 0x0102_0304,
        lon_e7: -2,
        alt_dm: -3,
        speed_cms: 0x0506,
        course_cdeg: 0x0708,
        fix: true,
        sats: 9,
        tod_ms: 0x0A0B_0C0D,
    };
    let (enc, n) = encode_position(&p, FIELDS_ALL);
    assert_eq!(
        &enc[..n],
        &[
            0x51, 0x7F, 4, 3, 2, 1, 0xFE, 0xFF, 0xFF, 0xFF, 0xFD, 0xFF, 6, 5, 8, 7, 9, 0x0D, 0x0C, 0x0B, 0x0A
        ]
    );
    assert_eq!(decode_position(&enc[..n]), Some(p));
}

/// A mask is spelled as the config file spells it.
#[test]
fn a_mask_is_spelled_by_its_names() {
    let mut out = String::from("fields = ");
    write_fields(FIELDS_DEFAULT | FIELD_SATS, &mut out);
    assert_eq!(out, "fields = \"lat,lon,sats\"");
    let mut all = String::new();
    write_fields(FIELDS_ALL, &mut all);
    assert_eq!(all, "\"lat,lon,altitude,speed,course,sats,time\"");
}

/// A frame does not fit a buffer shorter than itself.
#[test]
fn a_frame_needs_its_own_length() {
    let frame = Frame { src: 1, id: 2, hops_left: 3, sync: None, payload: &[9, 8, 7] };
    assert_eq!((frame.header_len(), frame.encoded_len()), (3, 6));
    let mut short = [0u8; 5];
    assert_eq!(frame.encode(&mut short), None);
    let mut exact = [0u8; 6];
    assert_eq!(frame.encode(&mut exact), Some(6));
    assert_eq!(exact, [1, 2, 3, 9, 8, 7]);
}
