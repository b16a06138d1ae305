//! The event log: what the board writes down about itself, in its own
//! flash, so a reset is not the end of the story.
//!
//! A board that stops in a field has no console attached. What it can keep
//! is a short line per thing worth knowing, in a ring of fixed records that
//! a host tool reads back over USB and the boot prints the tail of.
//!
//! ```text
//! offset  size  field
//! 0       2     magic
//! 2       1     kind
//! 3       1     length of the text
//! 4       4     sequence number, one up per record across every boot
//! 8       4     uptime when written, seconds
//! 12      2     boot number, one up per boot
//! 14      2     reserved, written as zero
//! 16      108   the text, zero-padded
//! 124     4     crc32 of the 124 bytes before it
//! ```
//!
//! The ring ([`Ring`]) is append-only in erased flash: a record is one
//! program of its slot, and a sector is erased once, as the ring enters it,
//! which takes the oldest records with it. The head is found at boot by the
//! highest sequence number, and a slot that is not blank when the ring
//! reaches it is skipped rather than written over, since flash bits only
//! clear and a second program on top of a partial one is a record no crc
//! will pass.

use vstd::prelude::*;
use vstd::string::StringSliceAdditionalSpecFns;
use vstd::utf8::*;
use crate::bytes;
use crate::link;
use crate::bytes::{put, u16_at, u16_bytes, u32_at, u32_bytes};
use crate::link::crc32;
use crate::text::utf8;

verus! {

/// One record in flash. A multiple of the flash word, and small enough that
/// a USB frame carries one whole.
pub const RECORD_LEN: usize = 128;

/// magic, kind, length, seq, uptime, boot, reserved.
pub const HEADER_LEN: usize = 16;

/// The crc, at the end.
pub const CRC_LEN: usize = 4;

/// Longest text a record carries.
pub const TEXT_MAX: usize = RECORD_LEN - HEADER_LEN - CRC_LEN;

/// Where the crc sits, and how many bytes it covers.
pub const CRC_AT: usize = RECORD_LEN - CRC_LEN;

/// Marks a slot as a record ("EL"). Erased flash reads 0xFFFF there, which
/// is also how a blank slot is told from a record.
pub const MAGIC: u16 = 0x4C45;

/// What a record is about.
#[derive(Clone, Copy, Debug, PartialEq, Eq, Hash, Structural)]
pub enum Kind {
    /// A boot: the reset reason, and what the boot before it left behind.
    Boot,
    /// A panic, with its message and location. Written at the boot after
    /// it, from the copy the panic handler left in RTC RAM.
    Panic,
    /// A task past its heartbeat bound: the task and the phase it stopped
    /// in. Written at the boot after the reset, from RTC RAM.
    Stall,
    /// The BLE stack: a controller that would not init, a host error, a
    /// restart.
    Ble,
    /// The LoRa radio: a chip that restarted underneath the firmware, or one
    /// that does not answer.
    Radio,
    /// The GPS: a receiver that went silent, or a park that did not hold.
    Gps,
    /// Deep sleep: a park that did not finish before the chip went down.
    Sleep,
    /// A bulk transfer: one abandoned, one rejected, an image installed.
    Transfer,
    /// Anything else worth a line.
    Note,
}

impl Kind {
    /// Every kind, in wire order.
    pub const ALL: [Kind; 9] = [
        Kind::Boot,
        Kind::Panic,
        Kind::Stall,
        Kind::Ble,
        Kind::Radio,
        Kind::Gps,
        Kind::Sleep,
        Kind::Transfer,
        Kind::Note,
    ];

    /// The word the log prints for a kind.
    pub open spec fn word(self) -> Seq<char> {
        match self {
            Kind::Boot => "boot"@,
            Kind::Panic => "panic"@,
            Kind::Stall => "stall"@,
            Kind::Ble => "ble"@,
            Kind::Radio => "radio"@,
            Kind::Gps => "gps"@,
            Kind::Sleep => "sleep"@,
            Kind::Transfer => "transfer"@,
            Kind::Note => "note"@,
        }
    }

    /// The byte that stands for a kind.
    pub open spec fn wire(self) -> u8 {
        match self {
            Kind::Boot => 1,
            Kind::Panic => 2,
            Kind::Stall => 3,
            Kind::Ble => 4,
            Kind::Radio => 5,
            Kind::Gps => 6,
            Kind::Sleep => 7,
            Kind::Transfer => 8,
            Kind::Note => 9,
        }
    }

    /// The kind a byte stands for.
    pub open spec fn of_wire(v: u8) -> Option<Kind> {
        if 1 <= v <= 9 {
            Some(Kind::ALL@[v - 1])
        } else {
            None
        }
    }

    /// The word the log prints.
    pub fn as_str(self) -> (r: &'static str)
        ensures
            r@ == self.word(),
    {
        match self {
            Kind::Boot => "boot",
            Kind::Panic => "panic",
            Kind::Stall => "stall",
            Kind::Ble => "ble",
            Kind::Radio => "radio",
            Kind::Gps => "gps",
            Kind::Sleep => "sleep",
            Kind::Transfer => "transfer",
            Kind::Note => "note",
        }
    }

    /// The byte a record carries.
    pub fn as_wire(self) -> (r: u8)
        ensures
            r == self.wire(),
    {
        match self {
            Kind::Boot => 1,
            Kind::Panic => 2,
            Kind::Stall => 3,
            Kind::Ble => 4,
            Kind::Radio => 5,
            Kind::Gps => 6,
            Kind::Sleep => 7,
            Kind::Transfer => 8,
            Kind::Note => 9,
        }
    }

    /// The kind a byte stands for, if this build knows it.
    pub fn from_wire(v: u8) -> (r: Option<Self>)
        ensures
            r == Kind::of_wire(v),
    {
        if 1 <= v && v <= 9 {
            Some(Kind::ALL[v as usize - 1])
        } else {
            None
        }
    }
}

/// Every kind is in the list once, at its wire byte less one, and is the
/// kind its own byte reads as.
pub proof fn law_kinds_keep_their_bytes(kind: Kind)
    ensures
        Kind::of_wire(kind.wire()) == Some(kind),
        Kind::ALL@[kind.wire() - 1] == kind,
        forall|i: int| 0 <= i < Kind::ALL@.len() ==> (#[trigger] Kind::ALL@[i]).wire() == i + 1,
{
}

/// A record as it is written: the text field is the text followed by
/// padding, and `len` says where the text ends.
#[verifier::ext_equal]
pub struct Line {
    /// What it is about.
    pub kind: Kind,
    /// Its place in the log.
    pub seq: u32,
    /// When it was written, in seconds since the boot.
    pub uptime_s: u32,
    /// Which boot wrote it.
    pub boot: u16,
    /// The text field, whole.
    pub field: Seq<u8>,
    /// How much of it is text.
    pub len: u8,
}

/// Where a text is cut: the last character boundary at or before `at`.
pub open spec fn boundary(text: Seq<u8>, at: nat) -> nat
    decreases at,
{
    if at == 0 || is_char_boundary(text, at as int) {
        at
    } else {
        boundary(text, (at - 1) as nat)
    }
}

/// How much of a text a record keeps.
pub open spec fn kept(text: Seq<u8>) -> nat {
    boundary(
        text,
        if text.len() < TEXT_MAX {
            text.len()
        } else {
            TEXT_MAX as nat
        },
    )
}

/// The text field a text is stored in: what fits, then zeroes.
pub open spec fn stored(text: Seq<u8>) -> Seq<u8> {
    Seq::new(
        TEXT_MAX as nat,
        |i: int|
            if i < kept(text) {
                text[i]
            } else {
                0
            },
    )
}

impl Line {
    /// The text, as written.
    pub open spec fn text(self) -> Seq<u8> {
        self.field.take(self.len as int)
    }

    /// A line a record can carry.
    pub open spec fn wf(self) -> bool {
        &&& self.field.len() == TEXT_MAX
        &&& self.len <= TEXT_MAX
        &&& valid_utf8(self.text())
    }
}

/// A record up to its crc, byte by byte.
pub open spec fn line_body(l: Line) -> Seq<u8> {
    bytes::le16(MAGIC) + seq![l.kind.wire(), l.len] + bytes::le32(l.seq) + bytes::le32(l.uptime_s) + bytes::le16(
        l.boot,
    ) + seq![0u8, 0u8] + l.field
}

/// A record, byte by byte.
pub open spec fn line_bytes(l: Line) -> Seq<u8> {
    line_body(l) + bytes::le32(link::crc32_of(line_body(l)))
}

/// The line a slot holds: `None` for a blank slot, another kind of bytes, a
/// kind this build does not know, or a crc that does not match.
pub open spec fn line_read(b: Seq<u8>) -> Option<Line> {
    if b.len() < RECORD_LEN || bytes::le16_at(b, 0) != MAGIC || bytes::le32_at(b, CRC_AT as int) != link::crc32_of(
        b.take(CRC_AT as int),
    ) || Kind::of_wire(b[2]) is None || b[3] > TEXT_MAX || !valid_utf8(
        b.subrange(HEADER_LEN as int, HEADER_LEN + b[3] as int),
    ) {
        None
    } else {
        Some(
            Line {
                kind: Kind::of_wire(b[2])->0,
                seq: bytes::le32_at(b, 4),
                uptime_s: bytes::le32_at(b, 8),
                boot: bytes::le16_at(b, 12),
                field: b.subrange(HEADER_LEN as int, CRC_AT as int),
                len: b[3],
            },
        )
    }
}

/// What the boot scan reads of a slot: the record's sequence and boot
/// numbers, if it holds one.
pub open spec fn numbers(b: Seq<u8>) -> Option<(u32, u16)> {
    match line_read(b) {
        Some(l) => Some((l.seq, l.boot)),
        None => None,
    }
}

proof fn lemma_boundary(text: Seq<u8>, at: nat)
    requires
        valid_utf8(text),
        at <= text.len(),
    ensures
        boundary(text, at) <= at,
        is_char_boundary(text, boundary(text, at) as int),
    decreases at,
{
    if !is_char_boundary(text, at as int) {
        is_char_boundary_start_end_of_seq(text);
        lemma_boundary(text, (at - 1) as nat);
    }
}

proof fn lemma_boundary_is_last(text: Seq<u8>, at: nat, j: nat)
    requires
        j <= at,
        is_char_boundary(text, j as int),
    ensures
        j <= boundary(text, at),
    decreases at,
{
    if at != j && !is_char_boundary(text, at as int) {
        lemma_boundary_is_last(text, (at - 1) as nat, j);
    }
}

/// A character takes at most four bytes, so a boundary is never further than
/// three bytes back.
proof fn lemma_a_boundary_is_near(text: Seq<u8>, at: nat) -> (j: nat)
    requires
        valid_utf8(text),
        at <= text.len(),
    ensures
        j <= at <= j + 3,
        is_char_boundary(text, j as int),
    decreases text.len(),
{
    is_char_boundary_start_end_of_seq(text);
    if at == 0 {
        0
    } else {
        let w = length_of_first_scalar(text) as nat;
        assert(1 <= w <= 4);
        if at < w {
            0
        } else {
            let j = lemma_a_boundary_is_near(pop_first_scalar(text), (at - w) as nat);
            assert(j + w - length_of_first_scalar(text) == j);
            j + w
        }
    }
}

/// One event.
#[derive(Clone, Copy, Debug, PartialEq, Eq)]
pub struct Record {
    /// What it is about.
    pub kind: Kind,
    /// Its place in the log.
    pub seq: u32,
    /// When it was written, in seconds since the boot.
    pub uptime_s: u32,
    /// Which boot wrote it.
    pub boot: u16,
    text: [u8; TEXT_MAX],
    len: u8,
}

impl View for Record {
    type V = Line;

    closed spec fn view(&self) -> Line {
        Line {
            kind: self.kind,
            seq: self.seq,
            uptime_s: self.uptime_s,
            boot: self.boot,
            field: self.text@,
            len: self.len,
        }
    }
}

impl Record {
    /// A record carrying `text`, truncated to [`TEXT_MAX`] and cut at a
    /// character boundary so what is stored is still a string.
    pub fn new(kind: Kind, seq: u32, uptime_s: u32, boot: u16, text: &str) -> (r: Self)
        ensures
            r@ == (Line {
                kind,
                seq,
                uptime_s,
                boot,
                field: stored(text.spec_bytes()),
                len: kept(text.spec_bytes()) as u8,
            }),
            r@.wf(),
    {
        let mut buf: [u8; TEXT_MAX] = [0; TEXT_MAX];
        let all: &[u8] = text.as_bytes();
        let ghost b = text.spec_bytes();
        let mut len: usize = if all.len() < TEXT_MAX {
            all.len()
        } else {
            TEXT_MAX
        };
        proof {
            encode_utf8_valid_utf8(text@);
            lemma_boundary(b, len as nat);
        }
        while !text.is_char_boundary(len)
            invariant
                valid_utf8(b),
                b == text.spec_bytes(),
                len <= b.len(),
                len <= TEXT_MAX,
                boundary(b, len as nat) == kept(b),
            decreases len,
        {
            proof {
                is_char_boundary_start_end_of_seq(b);
            }
            len -= 1;
        }
        put(&mut buf, 0, &all[0..len]);
        let r: Record = Self { kind, seq, uptime_s, boot, text: buf, len: len as u8 };
        proof {
            assert(r@.field =~= stored(b));
            assert(r@.text() =~= b.subrange(0, len as int));
            valid_utf8_split(b, len as int);
        }
        r
    }

    /// The text, as written.
    pub fn text(&self) -> (r: &str)
        requires
            self@.wf(),
        ensures
            r.spec_bytes() == self@.text(),
            r@ == decode_utf8(self@.text()),
    {
        assert(self.text@.subrange(0, self.len as int) =~= self@.text());
        match utf8(&self.text.as_slice()[0..self.len as usize]) {
            Some(s) => s,
            None => "",
        }
    }

    /// The record as it goes to flash.
    pub fn encode(&self) -> (r: [u8; RECORD_LEN])
        ensures
            r@ == line_bytes(self@),
    {
        let mut out: [u8; RECORD_LEN] = [0; RECORD_LEN];
        put(&mut out, 0, u16_bytes(MAGIC).as_slice());
        out[2] = self.kind.as_wire();
        out[3] = self.len;
        put(&mut out, 4, u32_bytes(self.seq).as_slice());
        put(&mut out, 8, u32_bytes(self.uptime_s).as_slice());
        put(&mut out, 12, u16_bytes(self.boot).as_slice());
        put(&mut out, HEADER_LEN, self.text.as_slice());
        let crc: u32 = crc32(&out.as_slice()[0..CRC_AT]);
        assert(out@.subrange(0, CRC_AT as int) =~= line_body(self@));
        put(&mut out, CRC_AT, u32_bytes(crc).as_slice());
        assert(out@ =~= line_bytes(self@));
        out
    }

    /// `None` for a blank slot, another kind of bytes, a kind this build does
    /// not know, or a crc that does not match.
    pub fn decode(bytes: &[u8]) -> (r: Option<Self>)
        ensures
            r is Some <==> line_read(bytes@) is Some,
            r matches Some(rec) ==> line_read(bytes@) == Some(rec@) && rec@.wf(),
    {
        if bytes.len() < RECORD_LEN {
            return None;
        }
        if u16_at(bytes, 0) != MAGIC {
            return None;
        }
        assert(bytes@.subrange(0, CRC_AT as int) =~= bytes@.take(CRC_AT as int));
        if u32_at(bytes, CRC_AT) != crc32(&bytes[0..CRC_AT]) {
            return None;
        }
        let kind: Kind = match Kind::from_wire(bytes[2]) {
            Some(kind) => kind,
            None => {
                return None;
            },
        };
        let len: u8 = bytes[3];
        if len as usize > TEXT_MAX {
            return None;
        }
        if utf8(&bytes[HEADER_LEN..HEADER_LEN + len as usize]).is_none() {
            return None;
        }
        let mut text: [u8; TEXT_MAX] = [0; TEXT_MAX];
        put(&mut text, 0, &bytes[HEADER_LEN..CRC_AT]);
        let rec: Record = Self {
            kind,
            seq: u32_at(bytes, 4),
            uptime_s: u32_at(bytes, 8),
            boot: u16_at(bytes, 12),
            text,
            len,
        };
        assert(rec@.field =~= bytes@.subrange(HEADER_LEN as int, CRC_AT as int));
        assert(rec@.text() =~= bytes@.subrange(HEADER_LEN as int, HEADER_LEN + len as int));
        Some(rec)
    }

    /// The sequence and boot numbers of the record in `bytes`, if there is
    /// one. What the boot scan reads from every slot: the header is checked
    /// and the crc is, so a partial record does not decide where the head is.
    pub fn info_of(bytes: &[u8]) -> (r: Option<(u32, u16)>)
        ensures
            r == numbers(bytes@),
    {
        match Self::decode(bytes) {
            Some(rec) => Some((rec.seq, rec.boot)),
            None => None,
        }
    }

    /// Whether a slot's bytes are erased flash.
    pub fn is_blank(bytes: &[u8]) -> (r: bool)
        ensures
            r == erased(bytes@),
    {
        let mut i: usize = 0;
        while i < bytes.len()
            invariant
                i <= bytes@.len(),
                forall|k: int| 0 <= k < i ==> bytes@[k] == 0xFF,
            decreases bytes@.len() - i,
        {
            if bytes[i] != 0xFF {
                return false;
            }
            i += 1;
        }
        true
    }
}

/// Erased flash: every bit set.
pub open spec fn erased(b: Seq<u8>) -> bool {
    forall|k: int| 0 <= k < b.len() ==> b[k] == 0xFF
}

/// What was written comes back, from whatever starts with it, and from
/// nothing shorter.
pub proof fn law_a_record_round_trips(l: Line, tail: Seq<u8>)
    requires
        l.wf(),
    ensures
        line_bytes(l).len() == RECORD_LEN,
        forall|n: int| 0 <= n < RECORD_LEN ==> line_read(#[trigger] line_bytes(l).take(n)) is None,
        line_read(line_bytes(l) + tail) == Some(l),
        numbers(line_bytes(l) + tail) == Some((l.seq, l.boot)),
        !erased(line_bytes(l) + tail),
{
    let body = line_body(l);
    let b = line_bytes(l) + tail;
    assert(body.len() == CRC_AT);
    assert(b.take(CRC_AT as int) =~= body);
    bytes::lemma_le16_slice(b, 0, MAGIC);
    bytes::lemma_le32_slice(b, CRC_AT as int, link::crc32_of(body));
    bytes::lemma_le32_slice(b, 4, l.seq);
    bytes::lemma_le32_slice(b, 8, l.uptime_s);
    bytes::lemma_le16_slice(b, 12, l.boot);
    law_kinds_keep_their_bytes(l.kind);
    assert(b[2] == l.kind.wire());
    assert(b[3] == l.len);
    assert(b.subrange(HEADER_LEN as int, CRC_AT as int) =~= l.field);
    assert(b.subrange(HEADER_LEN as int, HEADER_LEN + l.len as int) =~= l.text());
}

/// A record with any one byte changed - one bit of it or more, wherever it
/// stands - is no record.
pub proof fn law_a_changed_record_is_refused(l: Line, tail: Seq<u8>, k: int, v: u8)
    requires
        l.wf(),
        0 <= k < RECORD_LEN,
        line_bytes(l)[k] != v,
    ensures
        line_read(line_bytes(l).update(k, v) + tail) is None,
        numbers(line_bytes(l).update(k, v) + tail) is None,
{
    let good = line_bytes(l) + tail;
    let bad = line_bytes(l).update(k, v) + tail;
    law_a_record_round_trips(l, tail);
    assert(bad =~= good.update(k, v));
    let at = CRC_AT as int;
    if k < at {
        link::law_crc32_notices_a_changed_byte(good.take(at), k, v);
        assert(bad.take(at) =~= good.take(at).update(k, v));
        assert(bytes::le32_at(bad, at) == bytes::le32_at(good, at)) by {
            reveal(bytes::le32_at);
        }
    } else {
        bytes::lemma_le32_changed(good, at, k, v);
        assert(bad.take(at) =~= good.take(at));
    }
}

/// A text is kept whole where it fits, and otherwise loses less than one
/// character more than it has to: what is stored is the front of it, still a
/// string, and at most three bytes short of the field.
pub proof fn law_a_text_is_cut_at_a_character(text: Seq<u8>)
    requires
        valid_utf8(text),
    ensures
        text.len() <= TEXT_MAX ==> kept(text) == text.len(),
        text.len() > TEXT_MAX ==> TEXT_MAX - 3 <= kept(text) <= TEXT_MAX,
        is_char_boundary(text, kept(text) as int),
        stored(text).take(kept(text) as int) == text.take(kept(text) as int),
        valid_utf8(text.take(kept(text) as int)),
{
    is_char_boundary_start_end_of_seq(text);
    let at = if text.len() < TEXT_MAX {
        text.len()
    } else {
        TEXT_MAX as nat
    };
    lemma_boundary(text, at);
    let k = kept(text) as int;
    assert(stored(text).take(k) =~= text.take(k));
    assert(text.take(k) =~= text.subrange(0, k));
    valid_utf8_split(text, k);
    if text.len() > TEXT_MAX {
        let j = lemma_a_boundary_is_near(text, TEXT_MAX as nat);
        lemma_boundary_is_last(text, TEXT_MAX as nat, j);
    }
}

/// Where the next record goes.
#[derive(Clone, Copy, Debug, PartialEq, Eq, Structural)]
pub struct Head {
    /// The slot the next record is written to.
    pub slot: usize,
    /// Its sequence number.
    pub next_seq: u32,
    /// The boot number the next boot record carries: one past the newest
    /// record's, or 1 on an empty log.
    pub next_boot: u16,
    /// How many records the log holds.
    pub count: usize,
}

/// The ring's arithmetic: slots, sectors, where the head is and which sector
/// has to be erased before a write.
#[derive(Clone, Copy, Debug, PartialEq, Eq, Structural)]
pub struct Ring {
    /// Record slots in the whole region.
    pub slots: usize,
    /// Slots per erase sector.
    pub per_sector: usize,
}

/// What the boot scan found: per slot, the sequence and boot numbers of the
/// record in it, or `None` for a slot that holds none.
pub type Scan = Seq<Option<(u32, u16)>>;

/// How many slots of a scan hold a record.
pub open spec fn records(scan: Scan) -> nat
    decreases scan.len(),
{
    if scan.len() == 0 {
        0
    } else {
        records(scan.drop_last()) + if scan.last() is Some {
            1nat
        } else {
            0
        }
    }
}

/// Slot `k` holds the newest record: the highest sequence number, and of
/// several with the same, the first.
pub open spec fn newest_at(scan: Scan, k: int) -> bool {
    &&& 0 <= k < scan.len()
    &&& scan[k] is Some
    &&& forall|j: int| 0 <= j < scan.len() && (#[trigger] scan[j]) is Some ==> (scan[j]->0).0 <= (scan[k]->0).0 && (j < k
        ==> (scan[j]->0).0 < (scan[k]->0).0)
}

/// One past a sequence number, past the wrap at 1 again.
pub open spec fn after_seq(seq: u32) -> u32 {
    if seq == u32::MAX {
        1
    } else {
        (seq + 1) as u32
    }
}

/// One past a boot number, past the wrap at 1 again.
pub open spec fn after_boot(boot: u16) -> u16 {
    if boot == u16::MAX {
        1
    } else {
        (boot + 1) as u16
    }
}

/// Whether a region has room for a ring.
pub open spec fn has_room(region: int, sector: int) -> bool {
    RECORD_LEN <= sector <= region
}

/// Where a slot starts in the region, as a flash address: its low 32 bits.
pub open spec fn slot_address(slot: int) -> int {
    slot * RECORD_LEN % 0x1_0000_0000
}

impl Ring {
    /// A ring the slot arithmetic is defined on: whole sectors, at least one.
    pub open spec fn wf(self) -> bool {
        &&& self.per_sector > 0
        &&& self.slots > 0
        &&& self.slots as int % self.per_sector as int == 0
    }

    /// A ring laid over a region of flash erased a sector at a time.
    pub open spec fn covers(self, region: int, sector: int) -> bool {
        &&& self.per_sector as int == sector / RECORD_LEN as int
        &&& self.slots == (region / sector) * (sector / RECORD_LEN as int)
    }

    /// The sector a slot lies in.
    pub open spec fn sector(self, slot: int) -> int {
        slot / self.per_sector as int
    }

    /// Whether a slot is the first of its sector.
    pub open spec fn enters(self, slot: int) -> bool {
        slot % self.per_sector as int == 0
    }

    /// The slot behind a slot, around the ring.
    pub open spec fn next(self, slot: int) -> int {
        (slot + 1) % self.slots as int
    }

    /// A scan that `info_of` gave of the ring's slots.
    pub open spec fn scanned<F: Fn(usize) -> Option<(u32, u16)>>(self, info_of: F, scan: Scan) -> bool {
        &&& scan.len() == self.slots
        &&& forall|s: int| 0 <= s < self.slots ==> call_ensures(info_of, (s as usize,), #[trigger] scan[s])
    }

    /// A slot a head moves past: inside its sector, and found not blank.
    pub open spec fn stale<G: Fn(usize) -> bool>(self, blank: G, slot: usize) -> bool {
        &&& !self.enters(slot as int)
        &&& call_ensures(blank, (slot,), false)
    }

    /// Every slot from `from` up to `end` is one a head moves past.
    pub open spec fn dirty<G: Fn(usize) -> bool>(self, blank: G, from: int, end: int) -> bool {
        forall|s: usize| from <= s < end ==> #[trigger] self.stale(blank, s)
    }

    /// `to` was reached from `from`: either the same slot, or one further on
    /// in the same sector with every slot between found not blank, or the
    /// first slot of the ring with every slot to its end found not blank.
    pub open spec fn passed<G: Fn(usize) -> bool>(self, blank: G, from: int, to: int) -> bool {
        if to < from {
            to == 0 && self.dirty(blank, from, self.slots as int)
        } else {
            to < self.slots && self.dirty(blank, from, to)
        }
    }

    /// `to` is where a head at `from` settles: it was reached, and is either
    /// a slot that an erase comes before or one found blank.
    pub open spec fn settles<G: Fn(usize) -> bool>(self, blank: G, from: int, to: int) -> bool {
        &&& self.passed(blank, from, to)
        &&& self.enters(to) || call_ensures(blank, (to as usize,), true)
    }

    /// The slot of the `i`-th newest record, counting back from a head.
    pub open spec fn back(self, head: int, i: int) -> int {
        (head + self.slots - 1 - i) % self.slots as int
    }

    /// A ring over `region_len` bytes of flash erased `sector_len` at a
    /// time. `None` if the region is smaller than one sector, or the sector
    /// smaller than one record.
    pub fn new(region_len: usize, sector_len: usize) -> (r: Option<Self>)
        ensures
            r is Some <==> has_room(region_len as int, sector_len as int),
            r matches Some(ring) ==> ring.wf() && ring.covers(region_len as int, sector_len as int) && ring.slots * RECORD_LEN <= region_len,
    {
        if sector_len < RECORD_LEN || region_len < sector_len {
            return None;
        }
        let per_sector: usize = sector_len / RECORD_LEN;
        let sectors: usize = region_len / sector_len;
        proof {
            lemma_sectors_fit(region_len as int, sector_len as int);
        }
        Some(Self { slots: sectors * per_sector, per_sector })
    }

    /// Byte offset of a slot inside the region, as a flash address: its low
    /// 32 bits.
    pub fn offset(&self, slot: usize) -> (r: u32)
        requires
            slot * RECORD_LEN <= usize::MAX,
        ensures
            r == slot_address(slot as int),
    {
        ((slot * RECORD_LEN) as u64 % 0x1_0000_0000) as u32
    }

    /// The sector a slot lies in.
    pub fn sector_of(&self, slot: usize) -> (r: usize)
        requires
            self.per_sector > 0,
        ensures
            r == self.sector(slot as int),
    {
        slot / self.per_sector
    }

    /// Whether writing `slot` means erasing its sector first: the slot is
    /// the first of the sector, so the ring is entering it.
    pub fn erase_before(&self, slot: usize) -> (r: bool)
        requires
            self.per_sector > 0,
        ensures
            r == self.enters(slot as int),
    {
        slot % self.per_sector == 0
    }

    /// Find the head from what the slots hold. `info_of(slot)` is the
    /// record's sequence and boot numbers, or `None` for a blank or invalid
    /// slot; `blank(slot)` says whether the slot is erased flash. Both are
    /// read per slot rather than taken as a table so the caller need not hold
    /// the whole region in RAM.
    ///
    /// The head is the slot after the newest record, moved forward past
    /// anything not blank in the same sector - an interrupted program, or
    /// another program's bytes - up to the next sector boundary, where an
    /// erase makes the question moot.
    pub fn locate<F: Fn(usize) -> Option<(u32, u16)>, G: Fn(usize) -> bool>(&self, info_of: F, blank: G) -> (r: Head)
        requires
            self.slots > 0 ==> self.per_sector > 0,
            forall|slot: usize| slot < self.slots ==> call_requires(info_of, (slot,)),
            forall|slot: usize| slot < self.slots ==> call_requires(blank, (slot,)),
        ensures
            exists|scan: Scan| #[trigger]
                self.scanned(info_of, scan) && r.count == records(scan) && ((records(scan) == 0 && r == (Head {
                    slot: 0,
                    next_seq: 1,
                    next_boot: 1,
                    count: 0,
                })) || exists|k: int| #[trigger]
                    newest_at(scan, k) && r.next_seq == after_seq((scan[k]->0).0) && r.next_boot == after_boot(
                        (scan[k]->0).1,
                    ) && self.settles(blank, self.next(k), r.slot as int)),
    {
        let mut newest: Option<(usize, u32, u16)> = None;
        let mut count: usize = 0;
        let ghost mut scan: Scan = Seq::empty();
        let mut slot: usize = 0;
        while slot < self.slots
            invariant
                slot <= self.slots,
                scan.len() == slot,
                count == records(scan),
                count <= slot,
                forall|s: usize| s < self.slots ==> call_requires(info_of, (s,)),
                forall|s: int| 0 <= s < slot ==> call_ensures(info_of, (s as usize,), #[trigger] scan[s]),
                match newest {
                    None => records(scan) == 0 && forall|s: int| 0 <= s < slot ==> (#[trigger] scan[s]) is None,
                    Some((k, seq, boot)) => records(scan) > 0 && newest_at(scan, k as int) && scan[k as int] == Some(
                        (seq, boot),
                    ),
                },
            decreases self.slots - slot,
        {
            let found: Option<(u32, u16)> = info_of(slot);
            let ghost before = scan;
            proof {
                scan = scan.push(found);
                assert(scan.drop_last() =~= before);
                assert forall|s: int| 0 <= s < slot + 1 implies call_ensures(
                    info_of,
                    (s as usize,),
                    #[trigger] scan[s],
                ) by {
                    if s < slot {
                        assert(scan[s] == before[s]);
                    }
                }
            }
            if let Some((seq, boot)) = found {
                count += 1;
                let newer: bool = match newest {
                    None => true,
                    Some((_, s, _)) => seq > s,
                };
                if newer {
                    newest = Some((slot, seq, boot));
                }
            }
            slot += 1;
        }
        assert(self.scanned(info_of, scan));
        let (at, seq, boot): (usize, u32, u16) = match newest {
            Some(found) => found,
            None => {
                return Head { slot: 0, next_seq: 1, next_boot: 1, count: 0 };
            },
        };
        let ghost start = self.next(at as int);
        let mut head: usize = (at + 1) % self.slots;
        assert(self.passed(blank, start, head as int));
        while !self.erase_before(head) && !blank(head)
            invariant
                self.per_sector > 0,
                self.slots > 0,
                0 <= start < self.slots,
                self.passed(blank, start, head as int),
                forall|s: usize| s < self.slots ==> call_requires(blank, (s,)),
            decreases
                if head < start {
                    0
                } else {
                    self.slots - head
                },
        {
            let ghost was = head as int;
            proof {
                assert(0int % self.per_sector as int == 0) by (nonlinear_arith)
                    requires
                        self.per_sector > 0,
                ;
                assert(start == 0 ==> self.stale(blank, 0));
                assert(0 < start <= was);
                lemma_next(*self, was);
            }
            head = (head + 1) % self.slots;
            assert(head as int == (if was + 1 < self.slots { was + 1 } else { 0 }));
            assert(self.stale(blank, was as usize));
            assert(self.dirty(blank, start, was + 1));
        }
        Head {
            slot: head,
            next_seq: if seq == u32::MAX {
                1
            } else {
                seq + 1
            },
            next_boot: if boot == u16::MAX {
                1
            } else {
                boot + 1
            },
            count,
        }
    }

    /// The slot holding the `i`-th newest record, counting back from a head,
    /// or `None` past the ring's capacity.
    pub fn newest(&self, head: usize, i: usize) -> (r: Option<usize>)
        requires
            head + self.slots <= usize::MAX,
        ensures
            r is Some <==> i < self.slots,
            r matches Some(slot) ==> slot == self.back(head as int, i as int),
    {
        if i >= self.slots {
            return None;
        }
        Some((head + self.slots - 1 - i) % self.slots)
    }
}

proof fn lemma_sectors_fit(region: int, sector: int)
    requires
        RECORD_LEN <= sector <= region,
    ensures
        1 <= sector / RECORD_LEN as int,
        1 <= region / sector,
        1 <= (region / sector) * (sector / RECORD_LEN as int),
        (region / sector) * (sector / RECORD_LEN as int) * RECORD_LEN <= region,
        ((region / sector) * (sector / RECORD_LEN as int)) % (sector / RECORD_LEN as int) == 0,
{
    let per = sector / RECORD_LEN as int;
    let n = region / sector;
    assert(1 <= per);
    assert(per * 128 <= sector);
    vstd::arithmetic::div_mod::lemma_div_non_zero(region, sector);
    vstd::arithmetic::div_mod::lemma_fundamental_div_mod(region, sector);
    vstd::arithmetic::div_mod::lemma_mod_multiples_basic(n, per);
    assert(1 <= n * per && n * per * 128 <= region) by (nonlinear_arith)
        requires
            1 <= per,
            1 <= n,
            per * 128 <= sector,
            sector * n <= region,
    ;
}

/// A scan that holds a record has a newest one, in one slot only; a scan
/// that holds none has none.
pub proof fn law_a_log_has_one_newest(scan: Scan)
    ensures
        records(scan) > 0 <==> exists|k: int| newest_at(scan, k),
        forall|j: int, k: int| newest_at(scan, j) && newest_at(scan, k) ==> j == k,
        records(scan) <= scan.len(),
    decreases scan.len(),
{
    if scan.len() > 0 {
        let front = scan.drop_last();
        let last = scan.len() - 1;
        law_a_log_has_one_newest(front);
        assert forall|j: int| 0 <= j < last implies front[j] == #[trigger] scan[j] by {}
        if records(front) > 0 {
            let k = choose|k: int| newest_at(front, k);
            if scan.last() is Some && (scan[last]->0).0 > (front[k]->0).0 {
                assert(newest_at(scan, last)) by {
                    assert forall|j: int| 0 <= j < scan.len() && (#[trigger] scan[j]) is Some implies (scan[j]->0).0
                        <= (scan[last]->0).0 && (j < last ==> (scan[j]->0).0 < (scan[last]->0).0) by {
                        if j < last {
                            assert(front[j] is Some);
                        }
                    }
                }
            } else {
                assert(newest_at(scan, k)) by {
                    assert forall|j: int| 0 <= j < scan.len() && (#[trigger] scan[j]) is Some implies (scan[j]->0).0
                        <= (scan[k]->0).0 && (j < k ==> (scan[j]->0).0 < (scan[k]->0).0) by {
                        if j < last {
                            assert(front[j] is Some);
                        }
                    }
                }
            }
        } else {
            assert forall|j: int| 0 <= j < last implies (#[trigger] front[j]) is None by {
                lemma_no_records(front, j);
            }
            if scan.last() is Some {
                assert(newest_at(scan, last));
            } else {
                assert forall|k: int| !newest_at(scan, k) by {
                    if 0 <= k < last {
                        assert(front[k] is None);
                    }
                }
            }
        }
        assert forall|j: int, k: int| newest_at(scan, j) && newest_at(scan, k) implies j == k by {
            assert(scan[j] is Some && scan[k] is Some);
        }
    }
}

proof fn lemma_no_records(scan: Scan, j: int)
    requires
        records(scan) == 0,
        0 <= j < scan.len(),
    ensures
        scan[j] is None,
    decreases scan.len(),
{
    if j < scan.len() - 1 {
        lemma_no_records(scan.drop_last(), j);
        assert(scan.drop_last()[j] == scan[j]);
    }
}

/// A record written at the head under the number the head gives is the
/// newest from then on, wherever the head is and whatever an erase took,
/// until the numbers run out.
pub proof fn law_a_record_written_is_the_newest(scan: Scan, k: int, written: Scan, slot: int, boot: u16)
    requires
        newest_at(scan, k),
        (scan[k]->0).0 < u32::MAX,
        written.len() == scan.len(),
        0 <= slot < scan.len(),
        written[slot] == Some((after_seq((scan[k]->0).0), boot)),
        forall|j: int| 0 <= j < scan.len() && j != slot ==> #[trigger] written[j] is None || written[j] == scan[j],
    ensures
        newest_at(written, slot),
{
    assert forall|j: int| 0 <= j < written.len() && (#[trigger] written[j]) is Some implies (written[j]->0).0 <= (
    written[slot]->0).0 && (j < slot ==> (written[j]->0).0 < (written[slot]->0).0) by {
        if j != slot {
            assert(scan[j] is Some);
        }
    }
}

/// Counting back from a head visits every slot of the ring once: the newest
/// record is in the slot before the head, each older one in the slot before
/// that, and no two share a slot.
pub proof fn law_the_tail_is_read_backwards(ring: Ring, head: int, i: int, j: int)
    requires
        ring.slots > 0,
        0 <= head < ring.slots,
        0 <= i < ring.slots,
        0 <= j < ring.slots,
    ensures
        0 <= ring.back(head, i) < ring.slots,
        ring.next(ring.back(head, 0)) == head,
        i + 1 < ring.slots ==> ring.next(ring.back(head, i + 1)) == ring.back(head, i),
        i != j ==> ring.back(head, i) != ring.back(head, j),
{
    lemma_back(ring, head, 0);
    lemma_back(ring, head, i);
    lemma_back(ring, head, j);
    let n = ring.slots as int;
    if i + 1 < n {
        lemma_back(ring, head, i + 1);
        lemma_next(ring, ring.back(head, i + 1));
    }
    lemma_next(ring, ring.back(head, 0));
}

proof fn lemma_next(ring: Ring, slot: int)
    requires
        0 <= slot < ring.slots,
    ensures
        ring.next(slot) == (if slot + 1 < ring.slots {
            slot + 1
        } else {
            0
        }),
{
    if slot + 1 < ring.slots {
        vstd::arithmetic::div_mod::lemma_small_mod((slot + 1) as nat, ring.slots as nat);
    } else {
        vstd::arithmetic::div_mod::lemma_mod_self_0(ring.slots as int);
    }
}

proof fn lemma_back(ring: Ring, head: int, i: int)
    requires
        0 <= head < ring.slots,
        0 <= i < ring.slots,
    ensures
        ring.back(head, i) == (if i < head {
            head - 1 - i
        } else {
            head + ring.slots - 1 - i
        }),
{
    let n = ring.slots as int;
    if i < head {
        vstd::arithmetic::div_mod::lemma_small_mod((head - 1 - i) as nat, n as nat);
        vstd::arithmetic::div_mod::lemma_mod_add_multiples_vanish(head - 1 - i, n);
    } else {
        vstd::arithmetic::div_mod::lemma_small_mod((head + n - 1 - i) as nat, n as nat);
    }
}

/// The byte and the word of each kind.
pub proof fn law_what_a_kind_is_called(b: u8)
    ensures
        Kind::Boot.wire() == 1 && Kind::Panic.wire() == 2 && Kind::Stall.wire() == 3,
        Kind::Ble.wire() == 4 && Kind::Radio.wire() == 5 && Kind::Gps.wire() == 6,
        Kind::Sleep.wire() == 7 && Kind::Transfer.wire() == 8 && Kind::Note.wire() == 9,
        Kind::of_wire(b) is Some <==> 1 <= b <= 9,
        Kind::of_wire(b) matches Some(k) ==> k.wire() == b,
        Kind::Boot.word() == "boot"@ && Kind::Panic.word() == "panic"@ && Kind::Stall.word() == "stall"@,
        Kind::Ble.word() == "ble"@ && Kind::Radio.word() == "radio"@ && Kind::Gps.word() == "gps"@,
        Kind::Sleep.word() == "sleep"@ && Kind::Transfer.word() == "transfer"@ && Kind::Note.word() == "note"@,
{
    if Kind::of_wire(b) is Some {
        law_kinds_keep_their_bytes(Kind::of_wire(b)->0);
    }
}

/// Where each part of a record stands in its 128 bytes.
pub proof fn law_a_record_is_laid_out(l: Line, i: int)
    requires
        l.wf(),
    ensures
        ({
            let b = line_bytes(l);
            &&& b.len() == 128
            &&& l.field.len() == 108
            &&& b[0] == 0x45 && b[1] == 0x4C
            &&& b[2] == l.kind.wire()
            &&& b[3] == l.len
            &&& b[4] == l.seq & 0xFF && b[5] == (l.seq >> 8) & 0xFF && b[6] == (l.seq >> 16) & 0xFF && b[7] == l.seq >> 24
            &&& b[8] == l.uptime_s & 0xFF && b[9] == (l.uptime_s >> 8) & 0xFF && b[10] == (l.uptime_s >> 16) & 0xFF && b[11]
                == l.uptime_s >> 24
            &&& b[12] == l.boot & 0xFF && b[13] == l.boot >> 8
            &&& b[14] == 0 && b[15] == 0
            &&& 0 <= i < 108 ==> b[16 + i] == l.field[i]
            &&& bytes::le32_at(b, 124) == link::crc32_of(b.take(124))
        }),
{
    let b = line_bytes(l);
    let body = line_body(l);
    bytes::law_words_travel_low_byte_first(l.seq, l.boot, b, 0);
    bytes::law_words_travel_low_byte_first(l.uptime_s, MAGIC, b, 0);
    assert(bytes::le16(MAGIC)[0] == 0x45 && bytes::le16(MAGIC)[1] == 0x4C) by {
        assert(0x4C45u16 & 0xFF == 0x45 && 0x4C45u16 >> 8 == 0x4C) by (bit_vector);
    }
    assert(b.take(124) =~= body);
    bytes::lemma_le32_slice(b, 124, link::crc32_of(body));
}

/// What is no record: anything shorter, with another mark, of a kind past the
/// ones there are, with more text than the field holds, or whose crc is not
/// the one of what stands before it.
pub proof fn law_what_is_no_record(b: Seq<u8>)
    ensures
        b.len() < 128 ==> line_read(b) is None,
        bytes::le16_at(b, 0) != 0x4C45 ==> line_read(b) is None,
        b[2] == 0 || b[2] > 9 ==> line_read(b) is None,
        b[3] > 108 ==> line_read(b) is None,
        b.len() >= 128 && bytes::le32_at(b, 124) != link::crc32_of(b.take(124)) ==> line_read(b) is None,
        line_read(b) matches Some(l) ==> l.wf() && l.kind.wire() == b[2] && l.len == b[3] && l.seq == bytes::le32_at(b, 4)
            && l.uptime_s == bytes::le32_at(b, 8) && l.boot == bytes::le16_at(b, 12) && l.field == b.subrange(16, 124),
{
    law_what_a_kind_is_called(b[2]);
    if line_read(b) is Some {
        let l = line_read(b)->0;
        assert(l.text() =~= b.subrange(16, 16 + b[3] as int));
    }
}

/// A text of up to 108 bytes is stored whole, and what it leaves of the field
/// is zeroes.
pub proof fn law_a_text_is_stored_from_the_start(text: Seq<u8>, i: int)
    requires
        valid_utf8(text),
        0 <= i < 108,
    ensures
        stored(text).len() == 108,
        text.len() <= 108 && i < text.len() ==> stored(text)[i] == text[i],
        i >= text.len() ==> stored(text)[i] == 0,
        text.len() > 108 && i < 105 ==> stored(text)[i] == text[i],
        stored(text)[i] == text[i] || stored(text)[i] == 0,
{
    law_a_text_is_cut_at_a_character(text);
}

/// Slots lie end to end from the start of the region, 128 bytes each, as far
/// as a flash address counts.
pub proof fn law_slots_lie_end_to_end(slot: int)
    requires
        0 <= slot,
    ensures
        slot_address(0) == 0,
        slot * 128 + 128 < 0x1_0000_0000 ==> slot_address(slot + 1) == slot_address(slot) + 128,
{
}

/// A sector is a run of slots, entered at its first one and nowhere else.
pub proof fn law_a_sector_is_entered_once(ring: Ring, slot: int)
    requires
        ring.per_sector > 0,
        0 <= slot,
    ensures
        ring.sector(slot) * ring.per_sector <= slot < ring.sector(slot) * ring.per_sector + ring.per_sector,
        ring.enters(slot) <==> slot == ring.sector(slot) * ring.per_sector,
        slot > 0 ==> (ring.enters(slot) <==> ring.sector(slot) != ring.sector(slot - 1)),
        ring.enters(0),
{
    let p = ring.per_sector as int;
    vstd::arithmetic::div_mod::lemma_fundamental_div_mod(slot, p);
    vstd::arithmetic::div_mod::lemma_mod_bound(slot, p);
    let q = slot / p;
    assert(q * p == p * q) by (nonlinear_arith);
    assert(0int % p == 0) by (nonlinear_arith)
        requires
            p > 0,
    ;
    if slot > 0 {
        if slot % p == 0 {
            assert(slot - 1 == (q - 1) * p + (p - 1)) by (nonlinear_arith)
                requires
                    slot == p * q,
            ;
            vstd::arithmetic::div_mod::lemma_fundamental_div_mod_converse(slot - 1, p, q - 1, p - 1);
        } else {
            assert(slot - 1 == q * p + (slot % p - 1));
            vstd::arithmetic::div_mod::lemma_fundamental_div_mod_converse(slot - 1, p, q, slot % p - 1);
        }
    }
}

/// A ring is whole sectors of whole records: as many records to a sector as it
/// has room for, as many sectors as the region has room for.
pub proof fn law_a_ring_fills_its_region(ring: Ring, region: int, sector: int)
    requires
        128 <= sector <= region,
        ring.covers(region, sector),
    ensures
        ring.per_sector * 128 <= sector < ring.per_sector * 128 + 128,
        exists|n: int| #[trigger] (n * ring.per_sector) == ring.slots && n * sector <= region < n * sector + sector,
        ring.slots * 128 <= region,
        ring.wf(),
{
    lemma_sectors_fit(region, sector);
    let n = region / sector;
    vstd::arithmetic::div_mod::lemma_fundamental_div_mod(region, sector);
    vstd::arithmetic::div_mod::lemma_mod_bound(region, sector);
    assert(n * sector == sector * n) by (nonlinear_arith);
    assert(n * ring.per_sector == ring.slots);
}

/// Numbers count one up, and never stand at zero: past the last comes 1 again.
pub proof fn law_numbers_count_up(seq: u32, boot: u16)
    ensures
        seq < 0xFFFF_FFFF ==> after_seq(seq) - seq == 1,
        boot < 0xFFFF ==> after_boot(boot) - boot == 1,
        after_seq(0xFFFF_FFFF) == 1 && after_boot(0xFFFF) == 1,
        after_seq(seq) > 0 && after_boot(boot) > 0,
{
}

/// The slot behind each is the next one up, and behind the last the first.
pub proof fn law_slots_follow_around_the_ring(ring: Ring, slot: int)
    requires
        0 <= slot < ring.slots,
    ensures
        slot + 1 < ring.slots ==> ring.next(slot) == slot + 1,
        slot + 1 == ring.slots ==> ring.next(slot) == 0,
{
    lemma_next(ring, slot);
}

/// A head stays where it is where an erase comes first or nothing is in the
/// way, and leaves nothing behind it that could have been written to.
pub proof fn law_a_head_moves_past_what_is_not_blank<G: Fn(usize) -> bool>(
    ring: Ring,
    blank: G,
    from: int,
    to: int,
    slot: usize,
)
    requires
        ring.slots > 0,
        ring.per_sector > 0,
        0 <= from < ring.slots,
        ring.settles(blank, from, to),
    ensures
        from % ring.per_sector as int == 0 ==> to == from,
        !call_ensures(blank, (from as usize,), false) ==> to == from,
        from <= slot < to ==> call_ensures(blank, (slot,), false) && slot as int % ring.per_sector as int != 0,
        to < from ==> to == 0 && (from <= slot < ring.slots ==> call_ensures(blank, (slot,), false)),
        to as int % ring.per_sector as int == 0 || call_ensures(blank, (to as usize,), true),
{
    assert(from as usize == from);
    if to != from {
        assert(ring.stale(blank, from as usize));
    }
    if from <= slot < to || (to < from && from <= slot < ring.slots) {
        assert(ring.stale(blank, slot));
    }
}

/// A slot that holds a record is not blank, and a blank slot holds none.
pub proof fn law_a_blank_slot_holds_nothing(b: Seq<u8>)
    requires
        b.len() > 0,
        erased(b),
    ensures
        line_read(b) is None,
        b[0] == 255 && b[b.len() - 1] == 255,
{
    if b.len() >= RECORD_LEN {
        bytes::law_words_travel_low_byte_first(0, 0, b, 0);
        let v = bytes::le16_at(b, 0);
        assert(v & 0xFF == 0xFF);
        assert(v & 0xFF == 0xFF ==> v != 0x4C45u16) by (bit_vector);
    }
}

/// Every record counts once, and nothing else counts.
pub proof fn law_every_record_counts_once(a: Scan, b: Scan, found: Option<(u32, u16)>)
    ensures
        records(Seq::empty()) == 0,
        records(a + b) == records(a) + records(b),
        records(seq![found]) == (if found is Some {
            1nat
        } else {
            0nat
        }),
    decreases b.len(),
{
    if b.len() == 0 {
        assert(a + b =~= a);
    } else {
        law_every_record_counts_once(a, b.drop_last(), found);
        assert((a + b).drop_last() =~= a + b.drop_last());
    }
    assert(seq![found].drop_last() =~= Seq::empty());
}

/// There is a ring where a sector holds a record and the region a sector.
pub proof fn law_where_there_is_a_ring(region: int, sector: int)
    ensures
        has_room(region, sector) <==> 128 <= sector && sector <= region,
{
}

} // verus!
