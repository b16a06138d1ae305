use midair_proto::evlog::{Head, Kind, Record, Ring, RECORD_LEN, TEXT_MAX};

fn rec(seq: u32, text: &str) -> Record {
    Record::new(Kind::Note, seq, 42, 7, text)
}

#[test]
fn evlog_a_record_round_trips() {
    let r = Record::new(Kind::Panic, 9, 1234, 3, "panicked at src/ble.rs:10:5: boom");
    let bytes = r.encode();
    assert_eq!(bytes.len(), RECORD_LEN);
    let back = Record::decode(&bytes).expect("decodes");
    assert_eq!(back, r);
    assert_eq!(back.text(), "panicked at src/ble.rs:10:5: boom");
    assert_eq!(back.kind, Kind::Panic);
    assert_eq!(back.seq, 9);
    assert_eq!(back.uptime_s, 1234);
    assert_eq!(back.boot, 3);
    assert_eq!(Record::info_of(&bytes), Some((9, 3)));
}

#[test]
fn text_is_cut_at_a_character_boundary() {
    let long: String = "ab".repeat(100);
    let r = rec(1, &long);
    assert_eq!(r.text().len(), TEXT_MAX);
    // A multibyte character straddling the cut is dropped whole.
    let mut s = "x".repeat(TEXT_MAX - 1);
    s.push('\u{e9}');
    let r = rec(1, &s);
    assert_eq!(r.text().len(), TEXT_MAX - 1);
    assert!(Record::decode(&r.encode()).is_some());
}

#[test]
fn blank_corrupt_and_foreign_slots_do_not_decode() {
    let blank = [0xFFu8; RECORD_LEN];
    assert!(Record::is_blank(&blank));
    assert!(Record::decode(&blank).is_none());
    let mut bytes = rec(5, "hello").encode();
    bytes[20] ^= 1;
    assert!(Record::decode(&bytes).is_none());
    let mut bytes = rec(5, "hello").encode();
    bytes[2] = 0x7F;
    assert!(Record::decode(&bytes).is_none());
    let short = &rec(5, "hello").encode()[..RECORD_LEN - 1];
    assert!(Record::decode(short).is_none());
}

#[test]
fn every_kind_round_trips_the_wire() {
    for k in Kind::ALL {
        assert_eq!(Kind::from_wire(k.as_wire()), Some(k));
        assert!(!k.as_str().is_empty());
    }
    assert_eq!(Kind::from_wire(0), None);
}

#[test]
fn the_ring_is_sized_from_the_region() {
    let ring = Ring::new(65_536, 4096).expect("fits");
    assert_eq!(ring.per_sector, 32);
    assert_eq!(ring.slots, 512);
    assert_eq!(ring.sector_of(33), 1);
    assert!(ring.erase_before(32));
    assert!(!ring.erase_before(33));
    assert_eq!(ring.offset(3), 384);
    assert!(Ring::new(100, 4096).is_none());
    assert!(Ring::new(4096, 64).is_none());
}

/// A slot table for the ring tests: `Some(seq)` for a record, `None`
/// blank, and a separate set of slots that are neither. Every record
/// is from boot 4.
struct Slots {
    seq: Vec<Option<u32>>,
    garbage: Vec<usize>,
}

impl Slots {
    fn head(&self, ring: &Ring) -> Head {
        ring.locate(
            |s| self.seq[s].map(|seq| (seq, 4)),
            |s| self.seq[s].is_none() && !self.garbage.contains(&s),
        )
    }
}

#[test]
fn an_empty_log_starts_at_the_first_slot() {
    let ring = Ring::new(4096 * 2, 4096).unwrap();
    let slots = Slots {
        seq: vec![None; ring.slots],
        garbage: vec![],
    };
    assert_eq!(
        slots.head(&ring),
        Head {
            slot: 0,
            next_seq: 1,
            next_boot: 1,
            count: 0
        }
    );
}

#[test]
fn the_head_follows_the_newest_record() {
    let ring = Ring::new(4096 * 2, 4096).unwrap();
    let mut seq = vec![None; ring.slots];
    for (i, s) in seq.iter_mut().enumerate().take(10) {
        *s = Some(i as u32 + 1);
    }
    let slots = Slots {
        seq,
        garbage: vec![],
    };
    let h = slots.head(&ring);
    assert_eq!((h.slot, h.next_seq, h.next_boot, h.count), (10, 11, 5, 10));
}

#[test]
fn the_head_wraps_and_skips_a_partial_slot() {
    let ring = Ring::new(4096 * 2, 4096).unwrap();
    // The ring has wrapped: sector 1 holds seqs 100..131, sector 0
    // holds the newer 132..140, then a slot that was half programmed.
    let mut seq = vec![None; ring.slots];
    for i in 0..32 {
        seq[32 + i] = Some(100 + i as u32);
    }
    for i in 0..9 {
        seq[i] = Some(132 + i as u32);
    }
    let slots = Slots {
        seq,
        garbage: vec![9],
    };
    let h = slots.head(&ring);
    assert_eq!((h.slot, h.next_seq), (10, 141));
    // The newest record is the last one written; counting back runs
    // through sector 0 and wraps into the end of sector 1.
    assert_eq!(ring.newest(h.slot, 0), Some(9));
    assert_eq!(ring.newest(h.slot, 1), Some(8));
    assert_eq!(ring.newest(h.slot, 9), Some(0));
    assert_eq!(ring.newest(h.slot, 10), Some(63));
    assert_eq!(ring.newest(h.slot, ring.slots), None);
}

#[test]
fn a_partial_slot_at_the_end_of_a_sector_moves_the_head_to_the_next() {
    let ring = Ring::new(4096 * 2, 4096).unwrap();
    let mut seq = vec![None; ring.slots];
    seq[30] = Some(5);
    let slots = Slots {
        seq,
        garbage: vec![31],
    };
    let h = slots.head(&ring);
    assert_eq!(h.slot, 32);
    assert!(ring.erase_before(h.slot));
}

#[test]
fn the_last_slot_wraps_to_the_first() {
    let ring = Ring::new(4096 * 2, 4096).unwrap();
    let mut seq = vec![None; ring.slots];
    seq[63] = Some(1000);
    let slots = Slots {
        seq,
        garbage: vec![],
    };
    assert_eq!(slots.head(&ring).slot, 0);
}

/// The layout on flash, byte by byte, and the words the log prints.
#[test]
fn a_record_is_laid_out_as_documented() {
    let bytes = Record::new(Kind::Stall, 0x0102_0304, 0x0506_0708, 0x090A, "ab").encode();
    assert_eq!(&bytes[..20], &[0x45, 0x4C, 3, 2, 4, 3, 2, 1, 8, 7, 6, 5, 0x0A, 9, 0, 0, b'a', b'b', 0, 0]);
    assert_eq!(bytes[124..], midair_proto::link::crc32(&bytes[..124]).to_le_bytes());
    assert_eq!(Kind::Stall.as_str(), "stall");
    assert_eq!(Kind::Transfer.as_str(), "transfer");
    assert_eq!(Kind::from_wire(10), None);
}

/// A text that is not a string, or runs past the field, is not a record,
/// however good its crc.
#[test]
fn a_record_carries_a_string_that_fits() {
    let seal = |bytes: &mut [u8; RECORD_LEN]| {
        let crc = midair_proto::link::crc32(&bytes[..124]);
        bytes[124..].copy_from_slice(&crc.to_le_bytes());
    };
    let mut bytes = rec(5, "hello").encode();
    bytes[17] = 0xFF;
    seal(&mut bytes);
    assert!(Record::decode(&bytes).is_none());
    assert_eq!(Record::info_of(&bytes), None);
    let mut bytes = rec(5, "hello").encode();
    bytes[3] = TEXT_MAX as u8 + 1;
    seal(&mut bytes);
    assert!(Record::decode(&bytes).is_none());
    let mut bytes = rec(5, "hello").encode();
    bytes[3] = 2;
    seal(&mut bytes);
    assert_eq!(Record::decode(&bytes).unwrap().text(), "he");
}

/// Four-byte characters lose at most three bytes of the field.
#[test]
fn a_wide_character_at_the_cut_is_dropped_whole() {
    let r = rec(1, &format!("x{}", "\u{1F600}".repeat(40)));
    assert_eq!(r.text().len(), 105);
    assert_eq!(r.text().chars().last(), Some('\u{1F600}'));
}

/// Numbers that have run out start over at 1 rather than at 0, and of two
/// records with one number the first slot's is the newest.
#[test]
fn numbers_wrap_past_zero() {
    let ring = Ring::new(4096, 4096).unwrap();
    let h = ring.locate(
        |s| if s == 4 || s == 6 { Some((u32::MAX, u16::MAX)) } else { None },
        |_| true,
    );
    assert_eq!((h.slot, h.next_seq, h.next_boot, h.count), (5, 1, 1, 2));
}

/// A ring with a single sector full of garbage behind its newest record
/// starts the sector over.
#[test]
fn garbage_to_the_end_of_the_ring_wraps_to_the_start() {
    let ring = Ring::new(4096, 4096).unwrap();
    let h = ring.locate(|s| if s == 2 { Some((7, 1)) } else { None }, |_| false);
    assert_eq!(h.slot, 0);
    assert!(ring.erase_before(h.slot));
    assert_eq!(ring.newest(0, 0), Some(31));
}

/// A record with any one bit changed is no record, and neither is any part of
/// one.
#[test]
fn a_record_with_any_bit_changed_does_not_decode() {
    let good = Record::new(Kind::Panic, 9, 1234, 3, "panicked at src/ble.rs:10:5: boom").encode();
    for bit in 0..8 * RECORD_LEN {
        let mut bytes = good;
        bytes[bit / 8] ^= 1 << (bit % 8);
        assert_eq!(Record::decode(&bytes), None, "bit {bit}");
        assert_eq!(Record::info_of(&bytes), None, "bit {bit}");
    }
    for n in 0..RECORD_LEN {
        assert_eq!(Record::decode(&good[..n]), None, "{n} bytes");
    }
}
