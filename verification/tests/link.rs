use midair_proto::link::{
    crc32, crc32_continue, crc8, usb, FrameBuf, FrameParser, Telemetry, MAX_PAYLOAD, SYNC, TELEMETRY_LEN_V1,
    TELEM_FLAG_GPS_FIX, TELEM_FLAG_SD_OK, TELEM_FLAG_VERBOSE, TELEM_HOP_ON,
};

#[test]
fn link_frame_roundtrip() {
    let mut out = FrameBuf::new();
    let bytes = out.build(usb::BULK, &[1, 2, 3, 4]);

    let mut parser = FrameParser::new();
    let mut got = None;
    for &b in bytes {
        if parser.feed(b) {
            let f = parser.frame();
            got = Some((f.cmd, f.payload.to_vec()));
        }
    }
    assert_eq!(got, Some((usb::BULK, vec![1, 2, 3, 4])));
}

#[test]
fn frame_resync_after_garbage() {
    let mut out = FrameBuf::new();
    let bytes = out.build(usb::BULK_ACK, &[9; 23]);

    let mut parser = FrameParser::new();
    let mut hits = 0;
    // Garbage, then a complete corrupted frame (bad crc), then a good
    // frame. The corrupted frame is fully consumed (including its bad
    // CRC byte) before the good frame's sync arrives.
    for &b in [0x00, 0xAA, 0x02, 0x00, 0x55, 0x66, 0x77, 0x00].iter().chain(bytes) {
        if parser.feed(b) {
            hits += 1;
            assert_eq!(parser.frame().cmd, usb::BULK_ACK);
            assert_eq!(parser.frame().payload.len(), 23);
        }
    }
    assert_eq!(hits, 1);
}

#[test]
fn oversized_len_rejected() {
    let mut parser = FrameParser::new();
    // LEN = 0x0FFF > MAX_PAYLOAD: parser must fall back to Sync and
    // then accept a valid frame.
    for b in [SYNC, 0xFF, 0x0F] {
        assert!(!parser.feed(b));
    }
    let mut out = FrameBuf::new();
    let bytes = out.build(usb::PING, &[]);
    let mut ok = false;
    for &b in bytes {
        ok |= parser.feed(b);
    }
    assert!(ok);
    assert_eq!(parser.frame().cmd, usb::PING);
    assert!(parser.frame().payload.is_empty());
}

#[test]
fn telemetry_roundtrip() {
    let t = Telemetry {
        last_rssi: -97,
        last_snr_cb: -25,
        secs_since_rx: 12,
        rx_count: 100_000,
        tx_count: 42,
        flags: TELEM_FLAG_SD_OK | TELEM_FLAG_GPS_FIX | TELEM_FLAG_VERBOSE,
        sats: 11,
        hop: TELEM_HOP_ON | 3,
        hop_channel: 27,
        parks_missed: 3,
        ble_rssi: -63,
    };
    let b = t.encode();
    assert_eq!(Telemetry::decode(&b), Some(t));
    assert_eq!(t.hop_stratum(), Some(3));
    assert_eq!(Telemetry { hop: 0, ..t }.hop_stratum(), None);
    assert_eq!(Telemetry::decode(&b[..TELEMETRY_LEN_V1 - 1]), None);
    // A board from before the link RSSI sends the shorter blob, and
    // everything it does send still arrives.
    assert_eq!(
        Telemetry::decode(&b[..TELEMETRY_LEN_V1]),
        Some(Telemetry { ble_rssi: 0, ..t })
    );
    let mut longer = b.to_vec();
    longer.push(0xAB);
    assert_eq!(Telemetry::decode(&longer), Some(t));
}

#[test]
fn crc32_known_value() {
    // Standard IEEE CRC-32 of "123456789".
    assert_eq!(crc32(b"123456789"), 0xCBF4_3926);
}

/// A stream's checksum does not depend on where it was split.
#[test]
fn crc32_continues_over_a_split() {
    let whole = crc32(b"123456789");
    for cut in 0..=9 {
        let (a, b) = b"123456789".split_at(cut);
        assert_eq!(crc32_continue(crc32(a), b), whole);
    }
    assert_eq!(crc32(b""), 0);
}

/// Standard CRC-8 of "123456789".
#[test]
fn crc8_known_value() {
    assert_eq!(crc8(b"123456789"), 0xF4);
}

/// The frame's bytes, and one a byte over the length refused.
#[test]
fn a_frame_is_sync_length_command_payload_crc() {
    let mut out = FrameBuf::new();
    assert_eq!(out.build(usb::PING, &[7, 8]), &[SYNC, 2, 0, usb::PING, 7, 8, crc8(&[usb::PING, 7, 8])]);
    assert_eq!(out.as_bytes().len(), 7);
    let mut parser = FrameParser::new();
    let longest = vec![0x5A; MAX_PAYLOAD];
    let mut hits = 0;
    for &b in out.build(usb::BULK, &longest) {
        if parser.feed(b) {
            hits += 1;
        }
    }
    assert_eq!(hits, 1);
    assert_eq!(parser.frame().payload, &longest[..]);
}

/// A byte changed anywhere in a message changes its CRC.
#[test]
fn crc32_notices_a_changed_byte() {
    let good: Vec<u8> = (0..64u8).collect();
    for k in 0..good.len() {
        for v in 0..=255u8 {
            let mut bad = good.clone();
            bad[k] = v;
            assert_eq!(crc32(&bad) == crc32(&good), v == good[k], "byte {k} to {v}");
        }
    }
}

/// A frame corrupted behind its length is dropped whole, noise is passed over,
/// and the frame after both is read.
#[test]
fn a_corrupt_frame_and_noise_cost_nothing_but_themselves() {
    let mut buf = FrameBuf::new();
    let good = buf.build(usb::BULK, &[1, SYNC, 3]).to_vec();
    for k in 3..good.len() {
        for flip in 1..=255u8 {
            let mut bad = good.clone();
            bad[k] ^= flip;
            let mut parser = FrameParser::new();
            assert!(!bad.iter().any(|&b| parser.feed(b)), "byte {k} ^ {flip}");
            assert!(![0u8, 7, 0x55, 0xFF].iter().any(|&b| parser.feed(b)));
            let done: Vec<bool> = good.iter().map(|&b| parser.feed(b)).collect();
            assert_eq!(done.iter().filter(|&&d| d).count(), 1);
            assert_eq!(done.last(), Some(&true));
            assert_eq!((parser.frame().cmd, parser.frame().payload.to_vec()), (usb::BULK, vec![1, SYNC, 3]));
        }
    }
}
