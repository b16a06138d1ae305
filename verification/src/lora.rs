//! The LoRa over-air frame and the payload formats it carries.
//!
//! Every transmission is a message: one 3-byte header, a 4-byte hop sync word
//! when the network is hopping, then an application payload.
//!
//! ```text
//! [0] src        originating node address, 1-255
//! [1] id         originator's sequence number, wraps at 256
//! [2] hops_left  remaining retransmissions; 0 = nobody repeats this
//!                bit 7 (FLAG_SYNC) set: a sync word follows the header
//! [3..7] sync    the transmitter's hop clock (crate::hop::SyncWord),
//!                only when FLAG_SYNC is set
//! [..] payload   1..=PAYLOAD_MAX application bytes
//! ```
//!
//! `(src, id)` identifies a frame for as long as it is in flight. The sync
//! word describes the *transmission*, not the message: a repeater re-stamps
//! it with its own clock on the way out. Payloads are sent at their true
//! length.

use vstd::prelude::*;
use vstd::string::StringSliceAdditionalSpecFns;
use vstd::utf8::*;
use crate::ble;
use crate::bytes;
use crate::hop::{SyncWord, SYNC_LEN};
use crate::bytes::{i16_word, i32_word, put, u16_at, u16_bytes, u32_at, u32_bytes, word_i16, word_i32};
use crate::ble::valid_label;
use crate::text::utf8;

verus! {

/// Frame header length: `[src, id, hops_left]`.
pub const HEADER_LEN: usize = 3;

/// Header length with the hop sync word behind it.
pub const HEADER_SYNC_LEN: usize = HEADER_LEN + SYNC_LEN;

/// Set in the `hops_left` byte when a sync word follows the header. The hop
/// count itself never needs the bit.
pub const FLAG_SYNC: u8 = 0x80;

/// Largest application payload carried in one frame.
pub const PAYLOAD_MAX: usize = 32;

/// Largest encoded frame.
pub const FRAME_MAX: usize = HEADER_SYNC_LEN + PAYLOAD_MAX;

/// Wake frame target that means every node. Not an assignable address.
pub const WAKE_BROADCAST: u8 = 0;

/// Wake flag: come up tracking rather than idle.
pub const WAKE_FLAG_TRACKING: u8 = 0x01;

/// Field mask bit of the latitude. The bits are in the order the fields
/// appear in the payload.
pub const FIELD_LAT: u8 = 0x01;

/// Field mask bit of the longitude.
pub const FIELD_LON: u8 = 0x02;

/// Field mask bit of the altitude.
pub const FIELD_ALT: u8 = 0x04;

/// Field mask bit of the speed.
pub const FIELD_SPEED: u8 = 0x08;

/// Field mask bit of the course.
pub const FIELD_COURSE: u8 = 0x10;

/// Field mask bit of the satellite count.
pub const FIELD_SATS: u8 = 0x20;

/// Field mask bit of the time of day.
pub const FIELD_TIME: u8 = 0x40;

/// Every field this format can carry.
pub const FIELDS_ALL: u8 = 0x7F;

/// Position and nothing else - the default beacon payload.
pub const FIELDS_DEFAULT: u8 = 0x03;

/// Fields without which a position transmission is not one.
pub const FIELDS_REQUIRED: u8 = 0x03;

/// Encoded length of a ping message. Fixed - every field is always present.
pub const PING_MSG_LEN: usize = 4;

/// Whether `mask` selects the field of weight `field`.
#[verifier::opaque]
pub open spec fn selects(mask: u8, field: u8) -> bool {
    mask as int / (field as int) % 2 == 1
}

/// `mask` with the field of weight `field` selected.
pub open spec fn selecting(mask: u8, field: u8) -> u8 {
    if selects(mask, field) {
        mask
    } else {
        (mask + field) as u8
    }
}

/// Wire width of a field, if selected.
pub open spec fn width(mask: u8, field: u8, bytes: int) -> int {
    if selects(mask, field) {
        bytes
    } else {
        0
    }
}

/// Wire width of the fields `mask` selects.
pub open spec fn fields_width(mask: u8) -> int {
    width(mask, FIELD_LAT, 4) + width(mask, FIELD_LON, 4) + width(mask, FIELD_ALT, 2) + width(mask, FIELD_SPEED, 2)
        + width(mask, FIELD_COURSE, 2) + width(mask, FIELD_SATS, 1) + width(mask, FIELD_TIME, 4)
}

/// Length of a position message: tag, mask, selected fields.
pub open spec fn message_len(mask: u8) -> int {
    2 + fields_width(mask)
}

/// Whether `mask` selects the field of weight `field`.
pub(crate) fn selected(mask: u8, field: u8) -> (r: bool)
    requires
        field > 0,
    ensures
        r == selects(mask, field),
{
    proof {
        reveal(selects);
    }
    mask / field % 2 == 1
}

fn width_of(mask: u8, field: u8, bytes: usize) -> (r: usize)
    requires
        field > 0,
    ensures
        r == width(mask, field, bytes as int),
{
    if selected(mask, field) {
        bytes
    } else {
        0
    }
}

/// Wire width of each field present in `mask`.
fn fields_len(mask: u8) -> (r: usize)
    ensures
        r == fields_width(mask),
        r <= 19,
{
    width_of(mask, FIELD_LAT, 4) + width_of(mask, FIELD_LON, 4) + width_of(mask, FIELD_ALT, 2) + width_of(
        mask,
        FIELD_SPEED,
        2,
    ) + width_of(mask, FIELD_COURSE, 2) + width_of(mask, FIELD_SATS, 1) + width_of(mask, FIELD_TIME, 4)
}

/// Encoded length of a position message carrying `mask`.
pub fn position_msg_len(mask: u8) -> (r: usize)
    ensures
        r == message_len(mask),
        r <= 21,
{
    2 + fields_len(mask)
}

// -- The frame --------------------------------------------------------------------

/// A decoded over-air frame borrowing its payload from the receive buffer.
#[derive(Clone, Copy, Debug, PartialEq, Eq)]
pub struct Frame<'a> {
    /// Address of the node that originated the frame (never a repeater's).
    pub src: u8,
    /// Originator's sequence number.
    pub id: u8,
    /// Retransmissions still permitted. A repeater forwards only when this is
    /// non-zero, and decrements it on the way out.
    pub hops_left: u8,
    /// The transmitter's hop clock, when the frame carries one. The value in
    /// an outgoing frame is a placeholder the radio overwrites at the
    /// instant it keys up.
    pub sync: Option<SyncWord>,
    /// Application payload.
    pub payload: &'a [u8],
}

/// Bytes ahead of the payload.
pub open spec fn head_len(sync: Option<SyncWord>) -> int {
    if sync is Some {
        HEADER_SYNC_LEN as int
    } else {
        HEADER_LEN as int
    }
}

/// The sync word as it travels, nothing where there is none.
pub open spec fn sync_bytes(sync: Option<SyncWord>) -> Seq<u8> {
    match sync {
        Some(w) => w.wire(),
        None => Seq::empty(),
    }
}

/// A frame on the air.
pub open spec fn frame_bytes(src: u8, id: u8, hops_left: u8, sync: Option<SyncWord>, payload: Seq<u8>) -> Seq<u8> {
    seq![src, id, (hops_left % 128 + (if sync is Some { 128int } else { 0 })) as u8] + sync_bytes(sync) + payload
}

/// Whether a received packet is a frame: not a runt, not an empty payload,
/// and from an assignable address.
pub open spec fn is_frame(b: Seq<u8>) -> bool {
    &&& b.len() > HEADER_LEN
    &&& b[0] != 0
    &&& (b[2] >= FLAG_SYNC ==> b.len() > HEADER_SYNC_LEN)
}

/// The sync word a received frame carries.
pub open spec fn frame_sync(b: Seq<u8>) -> Option<SyncWord> {
    if b[2] >= FLAG_SYNC {
        Some(SyncWord::of_wire(b.subrange(HEADER_LEN as int, HEADER_SYNC_LEN as int)))
    } else {
        None
    }
}

/// A frame taken apart.
#[verifier::ext_equal]
pub struct Parts {
    pub src: u8,
    pub id: u8,
    pub hops_left: u8,
    pub sync: Option<SyncWord>,
    pub payload: Seq<u8>,
}

/// What a received frame says.
pub open spec fn frame_read(b: Seq<u8>) -> Parts {
    Parts {
        src: b[0],
        id: b[1],
        hops_left: (b[2] % 128) as u8,
        sync: frame_sync(b),
        payload: b.skip(head_len(frame_sync(b))),
    }
}

/// Whether a payload can go out in a frame into `room` bytes.
pub open spec fn sendable(sync: Option<SyncWord>, payload: Seq<u8>, room: int) -> bool {
    0 < payload.len() <= PAYLOAD_MAX && head_len(sync) + payload.len() <= room
}

/// Where the sync word stands in a frame, if it carries one.
pub open spec fn sync_at(sync: Option<SyncWord>) -> Option<usize> {
    if sync is Some {
        Some(HEADER_LEN)
    } else {
        None
    }
}

impl<'a> Frame<'a> {
    /// Bytes ahead of the payload: the header, and the sync word if any.
    pub fn header_len(&self) -> (r: usize)
        ensures
            r == head_len(self.sync),
    {
        if self.sync.is_some() {
            HEADER_SYNC_LEN
        } else {
            HEADER_LEN
        }
    }

    /// Where the sync word sits in the encoded frame, if it carries one. The
    /// radio stamps the real word there on transmit.
    pub fn sync_offset(&self) -> (r: Option<usize>)
        ensures
            r == sync_at(self.sync),
    {
        if self.sync.is_some() {
            Some(HEADER_LEN)
        } else {
            None
        }
    }

    /// Encoded length of this frame.
    pub fn encoded_len(&self) -> (r: usize)
        requires
            head_len(self.sync) + self.payload@.len() <= usize::MAX,
        ensures
            r == head_len(self.sync) + self.payload@.len(),
            r == frame_bytes(self.src, self.id, self.hops_left, self.sync, self.payload@).len(),
    {
        self.header_len() + self.payload.len()
    }

    /// Write the frame into `out`, returning the number of bytes written.
    ///
    /// Returns `None`, and writes nothing, if the payload is empty, longer
    /// than [`PAYLOAD_MAX`], or `out` is too small.
    pub fn encode(&self, out: &mut [u8]) -> (r: Option<usize>)
        ensures
            final(out)@.len() == old(out)@.len(),
            ({
                let wire = frame_bytes(self.src, self.id, self.hops_left, self.sync, self.payload@);
                if !sendable(self.sync, self.payload@, old(out)@.len() as int) {
                    r is None && final(out)@ == old(out)@
                } else {
                    r == Some(wire.len() as usize) && final(out)@ == wire + old(out)@.skip(wire.len() as int)
                }
            }),
    {
        let ghost wire = frame_bytes(self.src, self.id, self.hops_left, self.sync, self.payload@);
        let ghost before = out@;
        if self.payload.len() == 0 || self.payload.len() > PAYLOAD_MAX {
            return None;
        }
        let n: usize = self.encoded_len();
        if out.len() < n {
            return None;
        }
        out[0] = self.src;
        out[1] = self.id;
        out[2] = self.hops_left % 128;
        if let Some(sync) = self.sync {
            let w: [u8; SYNC_LEN] = sync.to_bytes();
            out[2] = self.hops_left % 128 + 128;
            out[3] = w[0];
            out[4] = w[1];
            out[5] = w[2];
            out[6] = w[3];
        }
        let h: usize = self.header_len();
        assert(out@.take(h as int) =~= wire.take(h as int));
        let mut i: usize = 0;
        while i < self.payload.len()
            invariant
                i <= self.payload@.len(),
                h == head_len(self.sync),
                h + self.payload@.len() == n == wire.len(),
                wire == frame_bytes(self.src, self.id, self.hops_left, self.sync, self.payload@),
                out@.len() == before.len(),
                n <= before.len(),
                forall|k: int| 0 <= k < h + i ==> out@[k] == wire[k],
                forall|k: int| n <= k < before.len() ==> out@[k] == before[k],
            decreases self.payload@.len() - i,
        {
            out[h + i] = self.payload[i];
            i += 1;
        }
        assert(out@ =~= wire + before.skip(n as int));
        Some(n)
    }

    /// Decode a received packet.
    ///
    /// Returns `None` for a runt, an empty payload, or a source address of 0
    /// - the last of which is not a legal address and so marks the packet as
    /// something other than one of ours.
    pub fn decode(bytes: &'a [u8]) -> (r: Option<Frame<'a>>)
        ensures
            r is Some <==> is_frame(bytes@),
            r matches Some(f) ==> frame_read(bytes@) == (Parts {
                src: f.src,
                id: f.id,
                hops_left: f.hops_left,
                sync: f.sync,
                payload: f.payload@,
            }),
    {
        if bytes.len() <= HEADER_LEN || bytes[0] == 0 {
            return None;
        }
        let synced: bool = bytes[2] >= FLAG_SYNC;
        let h: usize = if synced { HEADER_SYNC_LEN } else { HEADER_LEN };
        if bytes.len() <= h {
            return None;
        }
        let sync: Option<SyncWord> = if synced {
            let w: [u8; SYNC_LEN] = [bytes[3], bytes[4], bytes[5], bytes[6]];
            assert(w@ =~= bytes@.subrange(HEADER_LEN as int, HEADER_SYNC_LEN as int));
            Some(SyncWord::from_bytes(w))
        } else {
            None
        };
        Some(Frame {
            src: bytes[0],
            id: bytes[1],
            hops_left: bytes[2] % 128,
            sync,
            payload: &bytes[h..bytes.len()],
        })
    }
}

/// A frame survives the air: encoded and decoded, it is the same frame, its
/// hop count and its sync word cut to the widths they travel in. A repeater
/// that decrements the hop count leaves the origin's address, id and payload
/// alone.
pub proof fn law_frame_round_trip(src: u8, id: u8, hops_left: u8, sync: Option<SyncWord>, payload: Seq<u8>)
    requires
        src != 0,
        payload.len() > 0,
    ensures
        ({
            let b = frame_bytes(src, id, hops_left, sync, payload);
            &&& is_frame(b)
            &&& b[0] == src
            &&& b[1] == id
            &&& b[2] % 128 == hops_left % 128
            &&& frame_sync(b) == (match sync {
                Some(w) => Some(w.masked()),
                None => None,
            })
            &&& b.skip(head_len(frame_sync(b))) == payload
        }),
{
    let b = frame_bytes(src, id, hops_left, sync, payload);
    if let Some(w) = sync {
        assert(b.subrange(HEADER_LEN as int, HEADER_SYNC_LEN as int) =~= w.wire());
        crate::hop::law_sync_word_round_trip(w);
        assert(b.skip(HEADER_SYNC_LEN as int) =~= payload);
    } else {
        assert(b.skip(HEADER_LEN as int) =~= payload);
    }
}

// -- Position -----------------------------------------------------------------------

/// Position transmission: `[POSITION tag] [field mask] [selected fields]`.
///
/// The sender picks which fields to spend air time on and stamps its choice
/// into the mask, so the frame describes its own layout. 0x50 was an earlier
/// layout and is not reused.
pub const MSG_POSITION: u8 = 0x51;

/// Longest encoded position message: tag + mask + every field.
pub const POSITION_MSG_MAX: usize = 2 + 4 + 4 + 2 + 2 + 2 + 1 + 4;

/// A position report, as a receiver acts on it.
#[derive(Clone, Copy, Debug, PartialEq, Eq, Structural)]
pub struct Position {
    /// Latitude, 1e-7 degrees.
    pub lat_e7: i32,
    /// Longitude, 1e-7 degrees.
    pub lon_e7: i32,
    /// Altitude, decimeters.
    pub alt_dm: i16,
    /// Speed, centimeters per second.
    pub speed_cms: u16,
    /// Course, hundredths of a degree.
    pub course_cdeg: u16,
    /// Whether the sender had a fix.
    pub fix: bool,
    /// Satellites used.
    pub sats: u8,
    /// Time of day, milliseconds.
    pub tod_ms: u32,
}

/// Where each field starts in a message with this mask.
pub open spec fn at_lon(mask: u8) -> int {
    2 + width(mask, FIELD_LAT, 4)
}

/// Where the altitude starts.
pub open spec fn at_alt(mask: u8) -> int {
    at_lon(mask) + width(mask, FIELD_LON, 4)
}

/// Where the speed starts.
pub open spec fn at_speed(mask: u8) -> int {
    at_alt(mask) + width(mask, FIELD_ALT, 2)
}

/// Where the course starts.
pub open spec fn at_course(mask: u8) -> int {
    at_speed(mask) + width(mask, FIELD_SPEED, 2)
}

/// Where the satellite count starts.
pub open spec fn at_sats(mask: u8) -> int {
    at_course(mask) + width(mask, FIELD_COURSE, 2)
}

/// Where the time of day starts.
pub open spec fn at_time(mask: u8) -> int {
    at_sats(mask) + width(mask, FIELD_SATS, 1)
}

/// A field's bytes, if selected.
pub open spec fn field(mask: u8, f: u8, bytes: Seq<u8>) -> Seq<u8> {
    if selects(mask, f) {
        bytes
    } else {
        Seq::empty()
    }
}

/// A position message carrying the fields in `mask`, whose top bit is
/// ignored.
pub open spec fn position_bytes(p: Position, mask: u8) -> Seq<u8> {
    let m = (mask % 128) as u8;
    seq![MSG_POSITION, m] + field(m, FIELD_LAT, bytes::le32(bytes::of_i32(p.lat_e7))) + field(
        m,
        FIELD_LON,
        bytes::le32(bytes::of_i32(p.lon_e7)),
    ) + field(m, FIELD_ALT, bytes::le16(bytes::of_i16(p.alt_dm))) + field(m, FIELD_SPEED, bytes::le16(p.speed_cms))
        + field(m, FIELD_COURSE, bytes::le16(p.course_cdeg)) + field(m, FIELD_SATS, seq![p.sats]) + field(
        m,
        FIELD_TIME,
        bytes::le32(p.tod_ms),
    )
}

/// What a position message says, fields the sender left out zeroed: `None` if
/// it is something else or is shorter than its own mask claims.
pub open spec fn position_read(d: Seq<u8>) -> Option<Position> {
    let m = (d[1] % 128) as u8;
    if d.len() < 2 || d[0] != MSG_POSITION || d.len() < message_len(m) {
        None
    } else {
        Some(Position {
            lat_e7: if selects(m, FIELD_LAT) { bytes::to_i32(bytes::le32_at(d, 2)) } else { 0 },
            lon_e7: if selects(m, FIELD_LON) { bytes::to_i32(bytes::le32_at(d, at_lon(m))) } else { 0 },
            alt_dm: if selects(m, FIELD_ALT) { bytes::to_i16(bytes::le16_at(d, at_alt(m))) } else { 0 },
            speed_cms: if selects(m, FIELD_SPEED) { bytes::le16_at(d, at_speed(m)) } else { 0 },
            course_cdeg: if selects(m, FIELD_COURSE) { bytes::le16_at(d, at_course(m)) } else { 0 },
            fix: true,
            sats: if selects(m, FIELD_SATS) { d[at_sats(m)] } else { 0 },
            tod_ms: if selects(m, FIELD_TIME) { bytes::le32_at(d, at_time(m)) } else { 0 },
        })
    }
}

/// A position with the fields outside `mask` zeroed and a fix.
pub open spec fn masked_position(p: Position, mask: u8) -> Position {
    Position {
        lat_e7: if selects(mask, FIELD_LAT) { p.lat_e7 } else { 0 },
        lon_e7: if selects(mask, FIELD_LON) { p.lon_e7 } else { 0 },
        alt_dm: if selects(mask, FIELD_ALT) { p.alt_dm } else { 0 },
        speed_cms: if selects(mask, FIELD_SPEED) { p.speed_cms } else { 0 },
        course_cdeg: if selects(mask, FIELD_COURSE) { p.course_cdeg } else { 0 },
        fix: true,
        sats: if selects(mask, FIELD_SATS) { p.sats } else { 0 },
        tod_ms: if selects(mask, FIELD_TIME) { p.tod_ms } else { 0 },
    }
}

/// Append a field to a message of length `n`, if `mask` selects it.
fn append(b: &mut [u8; POSITION_MSG_MAX], n: usize, mask: u8, f: u8, src: &[u8]) -> (r: usize)
    requires
        f > 0,
        n + src@.len() <= POSITION_MSG_MAX,
        forall|i: int| n <= i < POSITION_MSG_MAX ==> old(b)@[i] == 0,
    ensures
        r == n + width(mask, f, src@.len() as int),
        final(b)@.take(r as int) == old(b)@.take(n as int) + field(mask, f, src@),
        forall|i: int| r <= i < POSITION_MSG_MAX ==> final(b)@[i] == 0,
{
    let ghost before = b@;
    if selected(mask, f) {
        put(b, n, src);
        assert(b@.take(n + src@.len()) =~= before.take(n as int) + src@);
        n + src.len()
    } else {
        assert(before.take(n as int) + Seq::<u8>::empty() =~= before.take(n as int));
        n
    }
}

/// Encode a position transmission carrying the fields in `mask`, returning
/// the buffer and the used length. Bits outside [`FIELDS_ALL`] are ignored.
pub fn encode_position(p: &Position, mask: u8) -> (r: ([u8; POSITION_MSG_MAX], usize))
    ensures
        r.1 == message_len((mask % 128) as u8),
        r.1 <= POSITION_MSG_MAX,
        r.0@.take(r.1 as int) == position_bytes(*p, mask),
        forall|i: int| r.1 <= i < POSITION_MSG_MAX ==> r.0@[i] == 0,
{
    let m: u8 = mask % 128;
    let mut b: [u8; POSITION_MSG_MAX] = [0u8; POSITION_MSG_MAX];
    b[0] = MSG_POSITION;
    b[1] = m;
    assert(b@.take(2) =~= seq![MSG_POSITION, m]);
    let n: usize = append(&mut b, 2, m, FIELD_LAT, &u32_bytes(i32_word(p.lat_e7)));
    let n: usize = append(&mut b, n, m, FIELD_LON, &u32_bytes(i32_word(p.lon_e7)));
    let n: usize = append(&mut b, n, m, FIELD_ALT, &u16_bytes(i16_word(p.alt_dm)));
    let n: usize = append(&mut b, n, m, FIELD_SPEED, &u16_bytes(p.speed_cms));
    let n: usize = append(&mut b, n, m, FIELD_COURSE, &u16_bytes(p.course_cdeg));
    let sats: [u8; 1] = [p.sats];
    assert(sats@ =~= seq![p.sats]);
    let n: usize = append(&mut b, n, m, FIELD_SATS, &sats);
    let n: usize = append(&mut b, n, m, FIELD_TIME, &u32_bytes(p.tod_ms));
    (b, n)
}

/// Decode a position transmission, or `None` if the payload is something else
/// or is shorter than its own mask claims.
///
/// Fields the sender left out come back zeroed. The fix is always set: a node
/// only beacons while it has one, so receiving a beacon is the proof.
pub fn decode_position(data: &[u8]) -> (r: Option<Position>)
    ensures
        r == position_read(data@),
{
    if data.len() < 2 || data[0] != MSG_POSITION {
        return None;
    }
    let m: u8 = data[1] % 128;
    if data.len() < position_msg_len(m) {
        return None;
    }
    let mut p: Position = Position {
        lat_e7: 0,
        lon_e7: 0,
        alt_dm: 0,
        speed_cms: 0,
        course_cdeg: 0,
        fix: true,
        sats: 0,
        tod_ms: 0,
    };
    let mut n: usize = 2;
    if selected(m, FIELD_LAT) {
        p.lat_e7 = word_i32(u32_at(data, n));
        n += 4;
    }
    if selected(m, FIELD_LON) {
        p.lon_e7 = word_i32(u32_at(data, n));
        n += 4;
    }
    if selected(m, FIELD_ALT) {
        p.alt_dm = word_i16(u16_at(data, n));
        n += 2;
    }
    if selected(m, FIELD_SPEED) {
        p.speed_cms = u16_at(data, n);
        n += 2;
    }
    if selected(m, FIELD_COURSE) {
        p.course_cdeg = u16_at(data, n);
        n += 2;
    }
    if selected(m, FIELD_SATS) {
        p.sats = data[n];
        n += 1;
    }
    if selected(m, FIELD_TIME) {
        p.tod_ms = u32_at(data, n);
    }
    Some(p)
}

/// A field's four bytes read back from where its mask puts them.
proof fn lemma_field32(d: Seq<u8>, head: Seq<u8>, m: u8, f: u8, at: int, v: u32)
    requires
        at == head.len(),
        d.len() >= (head + field(m, f, bytes::le32(v))).len(),
        d.take((head + field(m, f, bytes::le32(v))).len() as int) == head + field(m, f, bytes::le32(v)),
    ensures
        d.take(head.len() as int) == head,
        selects(m, f) ==> bytes::le32_at(d, at) == v,
{
    lemma_slice_at(head, field(m, f, bytes::le32(v)), d, at);
    if selects(m, f) {
        bytes::lemma_le32_slice(d, at, v);
    }
}

/// A field's two bytes read back from where its mask puts them.
proof fn lemma_field16(d: Seq<u8>, head: Seq<u8>, m: u8, f: u8, at: int, v: u16)
    requires
        at == head.len(),
        d.len() >= (head + field(m, f, bytes::le16(v))).len(),
        d.take((head + field(m, f, bytes::le16(v))).len() as int) == head + field(m, f, bytes::le16(v)),
    ensures
        d.take(head.len() as int) == head,
        selects(m, f) ==> bytes::le16_at(d, at) == v,
{
    lemma_slice_at(head, field(m, f, bytes::le16(v)), d, at);
    if selects(m, f) {
        bytes::lemma_le16_slice(d, at, v);
    }
}

/// A position survives the air: whatever follows the message, the fields the
/// sender selected come back as sent, the others zeroed, with a fix.
pub proof fn law_position_round_trip(p: Position, mask: u8, tail: Seq<u8>)
    ensures
        position_read(position_bytes(p, mask) + tail) == Some(masked_position(p, (mask % 128) as u8)),
        position_bytes(p, mask).len() == message_len((mask % 128) as u8),
{
    let m = (mask % 128) as u8;
    let s2 = seq![MSG_POSITION, m];
    let s3 = s2 + field(m, FIELD_LAT, bytes::le32(bytes::of_i32(p.lat_e7)));
    let s4 = s3 + field(m, FIELD_LON, bytes::le32(bytes::of_i32(p.lon_e7)));
    let s5 = s4 + field(m, FIELD_ALT, bytes::le16(bytes::of_i16(p.alt_dm)));
    let s6 = s5 + field(m, FIELD_SPEED, bytes::le16(p.speed_cms));
    let s7 = s6 + field(m, FIELD_COURSE, bytes::le16(p.course_cdeg));
    let sats = field(m, FIELD_SATS, seq![p.sats]);
    let s8 = s7 + sats;
    let s9 = s8 + field(m, FIELD_TIME, bytes::le32(p.tod_ms));
    let d = s9 + tail;
    assert(d.take(s9.len() as int) =~= s9);
    lemma_field32(d, s8, m, FIELD_TIME, at_time(m), p.tod_ms);
    lemma_slice_at(s7, sats, d, at_sats(m));
    assert(selects(m, FIELD_SATS) ==> d[at_sats(m)] == sats[0]);
    lemma_field16(d, s6, m, FIELD_COURSE, at_course(m), p.course_cdeg);
    lemma_field16(d, s5, m, FIELD_SPEED, at_speed(m), p.speed_cms);
    lemma_field16(d, s4, m, FIELD_ALT, at_alt(m), bytes::of_i16(p.alt_dm));
    lemma_field32(d, s3, m, FIELD_LON, at_lon(m), bytes::of_i32(p.lon_e7));
    lemma_field32(d, s2, m, FIELD_LAT, 2, bytes::of_i32(p.lat_e7));
    assert(d[0] == s2[0] && d[1] == s2[1]) by {
        assert(d.take(2)[0] == s2[0] && d.take(2)[1] == s2[1]);
    }
    bytes::lemma_signed(0, p.alt_dm, p.lat_e7);
    bytes::lemma_signed(0, 0, p.lon_e7);
}

/// A piece laid behind a head sits at the head's length in whatever starts
/// with both, which starts with the head.
proof fn lemma_slice_at(head: Seq<u8>, piece: Seq<u8>, d: Seq<u8>, at: int)
    requires
        at == head.len(),
        d.len() >= (head + piece).len(),
        d.take((head + piece).len() as int) == head + piece,
    ensures
        d.take(head.len() as int) == head,
        forall|i: int| at <= i < at + piece.len() ==> #[trigger] d[i] == piece[i - at],
{
    let whole = head + piece;
    let t = d.take(whole.len() as int);
    assert forall|i: int| 0 <= i < whole.len() implies #[trigger] d[i] == whole[i] by {
        assert(t[i] == d[i]);
    }
    assert forall|i: int| at <= i < at + piece.len() implies #[trigger] d[i] == piece[i - at] by {
        assert(d[i] == whole[i]);
    }
    assert(d.take(head.len() as int) =~= head);
}

// -- The config file's spelling of a mask ----------------------------------------

/// The field names the config file uses, in bit order, as the parser reads
/// them and the example file writes them.
pub const FIELD_NAMES: [(u8, &'static str); 7] = [
    (FIELD_LAT, "lat"),
    (FIELD_LON, "lon"),
    (FIELD_ALT, "altitude"),
    (FIELD_SPEED, "speed"),
    (FIELD_COURSE, "course"),
    (FIELD_SATS, "sats"),
    (FIELD_TIME, "time"),
];

/// The names `mask` selects from the `i`-th on, separated by commas.
pub open spec fn field_list(mask: u8, i: int, first: bool) -> Seq<char>
    decreases 7 - i,
{
    if i >= 7 {
        Seq::empty()
    } else if selects(mask, FIELD_NAMES@[i].0) {
        (if first { Seq::<char>::empty() } else { ","@ }) + FIELD_NAMES@[i].1@ + field_list(mask, i + 1, false)
    } else {
        field_list(mask, i + 1, first)
    }
}

/// `mask` as the config file spells it.
pub open spec fn fields_text(mask: u8) -> Seq<char> {
    "\""@ + field_list(mask, 0, true) + "\""@
}

/// Write `mask` as the quoted, comma-separated list the config file's
/// `fields` key takes.
pub fn write_fields(mask: u8, out: &mut String)
    ensures
        final(out)@ == old(out)@ + fields_text(mask),
{
    let ghost before = out@;
    out.append("\"");
    let mut first: bool = true;
    let mut i: usize = 0;
    while i < 7
        invariant
            i <= 7,
            out@ + field_list(mask, i as int, first) == before + "\""@ + field_list(mask, 0, true),
        decreases 7 - i,
    {
        let ghost prev = out@;
        let ghost was_first = first;
        let (bit, name) = FIELD_NAMES[i];
        assert(bit > 0);
        if selected(mask, bit) {
            if !first {
                out.append(",");
            }
            out.append(name);
            first = false;
            assert(out@ + field_list(mask, i + 1, false) =~= prev + field_list(mask, i as int, was_first));
        }
        i += 1;
    }
    assert(out@ + field_list(mask, 7, first) =~= out@);
    out.append("\"");
    assert(out@ =~= before + fields_text(mask));
}

// -- Ping ---------------------------------------------------------------------------

/// Ping transmission: `[PING tag] [flags] [uptime_s u16le]`.
///
/// What a node puts on the air in place of a position while it has no fix.
pub const MSG_PING: u8 = 0x52;

/// Set in [`Ping::flags`] when the GPS module is producing NMEA.
pub const PING_FLAG_GPS_PRESENT: u8 = 0x01;

/// Set when the sender has held a fix at some point since it booted.
pub const PING_FLAG_HAD_FIX: u8 = 0x02;

/// A node reporting that it is on the air without a position to send.
#[derive(Clone, Copy, Debug, PartialEq, Eq, Structural)]
pub struct Ping {
    /// Seconds since the sender booted, saturating at [`u16::MAX`].
    pub uptime_s: u16,
    /// The GPS module is talking.
    pub gps_present: bool,
    /// The sender has had a fix since boot, so this ping is a fix lost
    /// rather than one never acquired.
    pub had_fix: bool,
}

impl Default for Ping {
    fn default() -> (r: Self)
        ensures
            r == (Ping { uptime_s: 0, gps_present: false, had_fix: false }),
    {
        Ping { uptime_s: 0, gps_present: false, had_fix: false }
    }
}

/// The flag byte of a ping.
pub open spec fn ping_flags(p: Ping) -> u8 {
    ((if p.gps_present { 1int } else { 0 }) + (if p.had_fix { 2int } else { 0 })) as u8
}

/// A ping on the air.
pub open spec fn ping_bytes(p: Ping) -> Seq<u8> {
    seq![MSG_PING, ping_flags(p), bytes::lo(p.uptime_s), bytes::hi(p.uptime_s)]
}

/// What a ping says: `None` if it is something else or short. Unknown flag
/// bits are ignored.
pub open spec fn ping_read(d: Seq<u8>) -> Option<Ping> {
    if d.len() < PING_MSG_LEN || d[0] != MSG_PING {
        None
    } else {
        Some(Ping {
            uptime_s: bytes::le16_at(d, 2),
            gps_present: d[1] % 2 == 1,
            had_fix: d[1] / 2 % 2 == 1,
        })
    }
}

impl Ping {
    /// Flag byte as it travels on the air.
    pub fn flags(&self) -> (r: u8)
        ensures
            r == ping_flags(*self),
    {
        let mut f: u8 = 0;
        if self.gps_present {
            f = f + PING_FLAG_GPS_PRESENT;
        }
        if self.had_fix {
            f = f + PING_FLAG_HAD_FIX;
        }
        f
    }

    /// Encode the ping as a frame payload.
    pub fn encode(&self) -> (r: [u8; PING_MSG_LEN])
        ensures
            r@ == ping_bytes(*self),
    {
        let up: [u8; 2] = u16_bytes(self.uptime_s);
        let r: [u8; PING_MSG_LEN] = [MSG_PING, self.flags(), up[0], up[1]];
        assert(r@ =~= ping_bytes(*self));
        r
    }

    /// Decode a ping, or `None` if the payload is something else or short.
    /// Unknown flag bits are ignored, so a future sender that sets one is
    /// still understood here.
    pub fn decode(data: &[u8]) -> (r: Option<Self>)
        ensures
            r == ping_read(data@),
    {
        if data.len() < PING_MSG_LEN || data[0] != MSG_PING {
            return None;
        }
        Some(Self { uptime_s: u16_at(data, 2), gps_present: data[1] % 2 == 1, had_fix: data[1] / 2 % 2 == 1 })
    }
}

/// A ping survives the air, whatever follows it.
pub proof fn law_ping_round_trip(p: Ping, tail: Seq<u8>)
    ensures
        ping_read(ping_bytes(p) + tail) == Some(p),
{
    bytes::lemma_le16_read(ping_bytes(p) + tail, 2, p.uptime_s);
}

// -- Name ---------------------------------------------------------------------------

/// Name transmission: `[NAME tag] [label bytes]`.
///
/// What the sender is called. The label travels at its own length and the
/// frame is what says where it ends, so a short name costs short air time.
pub const MSG_NAME: u8 = 0x53;

/// Longest name message: the tag and the longest label.
pub const NAME_MSG_MAX: usize = 1 + ble::NAME_LABEL_MAX;

/// Encoded length of a name message carrying `label`.
pub fn name_msg_len(label: &str) -> (r: usize)
    requires
        label.spec_bytes().len() < usize::MAX,
    ensures
        r == 1 + label.spec_bytes().len(),
{
    1 + label.len()
}

/// A name message on the air.
pub open spec fn name_bytes(label: Seq<u8>) -> Seq<u8> {
    seq![MSG_NAME] + label
}

/// The label a name message carries: `None` if it is something else or does
/// not carry a label a board would store.
pub open spec fn name_read(d: Seq<u8>) -> Option<Seq<u8>> {
    if d.len() >= 1 && d[0] == MSG_NAME && ble::is_label(d.skip(1)) {
        Some(d.skip(1))
    } else {
        None
    }
}

/// Encode a name transmission, returning the buffer and the used length.
///
/// `None` for a label this firmware would not store, which includes the empty
/// one: a board that has never been named has nothing to say here and beacons
/// instead.
pub fn encode_name(label: &str) -> (r: Option<([u8; NAME_MSG_MAX], usize)>)
    ensures
        r is Some <==> ble::is_label(label.spec_bytes()),
        r matches Some((b, n)) ==> {
            &&& n == 1 + label.spec_bytes().len()
            &&& b@.take(n as int) == name_bytes(label.spec_bytes())
            &&& forall|i: int| n <= i < NAME_MSG_MAX ==> b@[i] == 0
        },
{
    if !valid_label(label.as_bytes()) {
        return None;
    }
    let mut b: [u8; NAME_MSG_MAX] = [0u8; NAME_MSG_MAX];
    b[0] = MSG_NAME;
    put(&mut b, 1, label.as_bytes());
    let n: usize = name_msg_len(label);
    assert(b@.take(n as int) =~= name_bytes(label.spec_bytes()));
    Some((b, n))
}

/// Decode a name transmission, or `None` if the payload is something else or
/// does not carry a label this firmware would store.
///
/// The label reaches a screen, a console line and a log file, and the only
/// thing standing between those and an arbitrary byte string is a hardware
/// CRC that a frame from somebody else's network can pass.
pub fn decode_name(data: &[u8]) -> (r: Option<&str>)
    ensures
        r is Some <==> name_read(data@) is Some,
        r matches Some(s) ==> Some(s.spec_bytes()) == name_read(data@),
{
    if data.len() < 1 || data[0] != MSG_NAME {
        return None;
    }
    let label: &[u8] = &data[1..data.len()];
    assert(label@ =~= data@.skip(1));
    if !valid_label(label) {
        return None;
    }
    proof {
        ble::lemma_label_is_text(label@);
    }
    utf8(label)
}

/// A name survives the air.
pub proof fn law_name_round_trip(label: Seq<u8>)
    requires
        ble::is_label(label),
    ensures
        name_read(name_bytes(label)) == Some(label),
{
    assert(name_bytes(label).skip(1) =~= label);
}

/// A receiver tries each payload in turn, and no payload decodes as two.
pub proof fn law_payloads_do_not_alias(d: Seq<u8>)
    ensures
        !(position_read(d) is Some && ping_read(d) is Some),
        !(position_read(d) is Some && name_read(d) is Some),
        !(ping_read(d) is Some && name_read(d) is Some),
{
}

/// A ping is cheaper on the air than the leanest position.
pub proof fn law_a_ping_is_smaller_than_a_position(mask: u8)
    requires
        selects(mask, FIELD_LAT),
        selects(mask, FIELD_LON),
    ensures
        PING_MSG_LEN < message_len(mask),
{
}

// -- What goes on the air ---------------------------------------------------------

/// A field is selected by its bit.
proof fn lemma_selects_bits(mask: u8)
    ensures
        selects(mask, FIELD_LAT) <==> mask & 0x01 != 0,
        selects(mask, FIELD_LON) <==> mask & 0x02 != 0,
        selects(mask, FIELD_ALT) <==> mask & 0x04 != 0,
        selects(mask, FIELD_SPEED) <==> mask & 0x08 != 0,
        selects(mask, FIELD_COURSE) <==> mask & 0x10 != 0,
        selects(mask, FIELD_SATS) <==> mask & 0x20 != 0,
        selects(mask, FIELD_TIME) <==> mask & 0x40 != 0,
        (mask % 128) & 0x01 == mask & 0x01,
        (mask % 128) & 0x02 == mask & 0x02,
        (mask % 128) & 0x04 == mask & 0x04,
        (mask % 128) & 0x08 == mask & 0x08,
        (mask % 128) & 0x10 == mask & 0x10,
        (mask % 128) & 0x20 == mask & 0x20,
        (mask % 128) & 0x40 == mask & 0x40,
{
    reveal(selects);
    assert((mask / 1 % 2 == 1 <==> mask & 0x01 != 0) && (mask / 2 % 2 == 1 <==> mask & 0x02 != 0) && (mask / 4 % 2 == 1
        <==> mask & 0x04 != 0) && (mask / 8 % 2 == 1 <==> mask & 0x08 != 0) && (mask / 16 % 2 == 1 <==> mask & 0x10 != 0)
        && (mask / 32 % 2 == 1 <==> mask & 0x20 != 0) && (mask / 64 % 2 == 1 <==> mask & 0x40 != 0)) by (bit_vector);
    assert((mask % 128) & 0x01 == mask & 0x01 && (mask % 128) & 0x02 == mask & 0x02 && (mask % 128) & 0x04 == mask & 0x04
        && (mask % 128) & 0x08 == mask & 0x08 && (mask % 128) & 0x10 == mask & 0x10 && (mask % 128) & 0x20 == mask & 0x20
        && (mask % 128) & 0x40 == mask & 0x40) by (bit_vector);
}

/// A position arrives field by field: each one whose bit the sender set comes
/// back as it was, each other one zeroed, whatever follows the message.
pub proof fn law_the_fields_sent_are_the_fields_received(p: Position, mask: u8, tail: Seq<u8>)
    ensures
        position_read(position_bytes(p, mask) + tail) matches Some(q) && {
            &&& q.lat_e7 == (if mask & 0x01 != 0 { p.lat_e7 as int } else { 0 })
            &&& q.lon_e7 == (if mask & 0x02 != 0 { p.lon_e7 as int } else { 0 })
            &&& q.alt_dm == (if mask & 0x04 != 0 { p.alt_dm as int } else { 0 })
            &&& q.speed_cms == (if mask & 0x08 != 0 { p.speed_cms as int } else { 0 })
            &&& q.course_cdeg == (if mask & 0x10 != 0 { p.course_cdeg as int } else { 0 })
            &&& q.sats == (if mask & 0x20 != 0 { p.sats as int } else { 0 })
            &&& q.tod_ms == (if mask & 0x40 != 0 { p.tod_ms as int } else { 0 })
            &&& q.fix
        },
{
    law_position_round_trip(p, mask, tail);
    lemma_selects_bits(mask);
    lemma_selects_bits((mask % 128) as u8);
}

/// What a position message costs: a tag and the mask, four bytes for each
/// coordinate, two each for altitude, speed and course, one for the satellites
/// and four for the time, and nothing for a field that is not sent. It opens
/// on its tag and the fields it carries.
pub proof fn law_a_field_costs_its_own_width(p: Position, mask: u8)
    ensures
        position_bytes(p, mask).len() == 2 + (if mask & 0x01 != 0 { 4int } else { 0 }) + (if mask & 0x02 != 0 { 4int } else {
            0
        }) + (if mask & 0x04 != 0 { 2int } else { 0 }) + (if mask & 0x08 != 0 { 2int } else { 0 }) + (
        if mask & 0x10 != 0 { 2int } else { 0 }) + (if mask & 0x20 != 0 { 1int } else { 0 }) + (
        if mask & 0x40 != 0 { 4int } else { 0 }),
        message_len(mask) == position_bytes(p, mask).len(),
        position_bytes(p, mask)[0] == 0x51,
        position_bytes(p, mask)[1] == mask % 128,
{
    law_position_round_trip(p, mask, Seq::empty());
    lemma_selects_bits(mask);
    lemma_selects_bits((mask % 128) as u8);
}

/// The fields stand in the order of their bits, as little-endian words.
pub proof fn law_a_full_position_is_laid_out(p: Position)
    ensures
        ({
            let b = position_bytes(p, 0x7F);
            &&& b.len() == 21
            &&& bytes::to_i32(bytes::le32_at(b, 2)) == p.lat_e7
            &&& bytes::to_i32(bytes::le32_at(b, 6)) == p.lon_e7
            &&& bytes::to_i16(bytes::le16_at(b, 10)) == p.alt_dm
            &&& bytes::le16_at(b, 12) == p.speed_cms
            &&& bytes::le16_at(b, 14) == p.course_cdeg
            &&& b[16] == p.sats
            &&& bytes::le32_at(b, 17) == p.tod_ms
        }),
{
    let m: u8 = 0x7F;
    assert(m & 0x01 != 0 && m & 0x02 != 0 && m & 0x04 != 0 && m & 0x08 != 0 && m & 0x10 != 0 && m & 0x20 != 0 && m & 0x40
        != 0) by (bit_vector)
        requires
            m == 0x7F,
    ;
    lemma_selects_bits(m);
    let b = position_bytes(p, m);
    assert(b.len() == 21 && b[16] == p.sats);
    bytes::lemma_le32_slice(b, 2, bytes::of_i32(p.lat_e7));
    bytes::lemma_le32_slice(b, 6, bytes::of_i32(p.lon_e7));
    bytes::lemma_le16_slice(b, 10, bytes::of_i16(p.alt_dm));
    bytes::lemma_le16_slice(b, 12, p.speed_cms);
    bytes::lemma_le16_slice(b, 14, p.course_cdeg);
    bytes::lemma_le32_slice(b, 17, p.tod_ms);
    bytes::lemma_signed(0, p.alt_dm, p.lat_e7);
    bytes::lemma_signed(0, 0, p.lon_e7);
}

/// What is no payload: a position needs its tag and as many bytes as its own
/// mask claims, a ping its tag and four bytes, a name its tag and one to
/// fifteen letters, digits, dashes or underscores.
pub proof fn law_what_is_no_payload(d: Seq<u8>, p: Position)
    requires
        d.len() >= 2,
    ensures
        position_read(d) is Some <==> d[0] == 0x51 && d.len() >= position_bytes(p, d[1]).len(),
        ping_read(d) is Some <==> d[0] == 0x52 && d.len() >= 4,
        name_read(d) is Some <==> d[0] == 0x53 && ble::is_label(d.skip(1)),
        position_read(d.take(1)) is None,
        ping_read(d.take(1)) is None,
        name_read(d.take(1)) is None,
{
    law_position_round_trip(p, d[1], Seq::empty());
}

/// A ping is four bytes: its tag, a bit for a receiver that talks and one for
/// a fix held before, and the uptime. A bit no one has given a meaning is
/// passed over.
pub proof fn law_a_ping_is_laid_out(p: Ping, d: Seq<u8>)
    ensures
        ping_bytes(p).len() == 4,
        ping_bytes(p)[0] == 0x52,
        ping_bytes(p)[1] == (if p.gps_present { 1int } else { 0 }) + (if p.had_fix { 2int } else { 0 }),
        bytes::le16_at(ping_bytes(p), 2) == p.uptime_s,
        d.len() >= 4 && d[0] == 0x52 ==> (ping_read(d) matches Some(q) && {
            &&& q.gps_present <==> d[1] & 1 != 0
            &&& q.had_fix <==> d[1] & 2 != 0
            &&& q.uptime_s == bytes::le16_at(d, 2)
        }),
{
    bytes::lemma_le16_read(ping_bytes(p), 2, p.uptime_s);
    let f = d[1];
    assert((f % 2 == 1 <==> f & 1 != 0) && (f / 2 % 2 == 1 <==> f & 2 != 0)) by (bit_vector);
}

/// A frame is its sender, its number, the hops it has left with a bit for the
/// sync word, the sync word if it has one, and its payload.
pub proof fn law_a_frame_is_laid_out(src: u8, id: u8, hops_left: u8, sync: Option<SyncWord>, payload: Seq<u8>)
    requires
        hops_left < 128,
    ensures
        ({
            let b = frame_bytes(src, id, hops_left, sync, payload);
            &&& b[0] == src && b[1] == id
            &&& sync is None ==> b[2] == hops_left && b.len() == 3 + payload.len() && b.skip(3) == payload
            &&& sync matches Some(w) ==> b[2] == hops_left + 128 && b.len() == 7 + payload.len() && b.skip(7) == payload
                && b.subrange(3, 7) == bytes::le32(w.packed())
        }),
{
    let b = frame_bytes(src, id, hops_left, sync, payload);
    if let Some(w) = sync {
        assert(b.subrange(3, 7) =~= bytes::le32(w.packed()));
        assert(b.skip(7) =~= payload);
    } else {
        assert(b.skip(3) =~= payload);
    }
}

/// What is no frame: one from nobody, or with nothing behind its header.
pub proof fn law_what_is_no_frame(b: Seq<u8>)
    ensures
        b.len() <= 3 ==> !is_frame(b),
        b.len() > 3 ==> (is_frame(b) <==> b[0] != 0 && (b[2] < 128 || b.len() > 7)),
        is_frame(b) ==> (frame_sync(b) is Some <==> b[2] >= 128),
{
}

/// A name goes out behind its tag, as it is; and anything that is no such tag,
/// or no label, is no name.
pub proof fn law_a_name_is_laid_out(label: Seq<u8>, d: Seq<u8>)
    ensures
        name_bytes(label).len() == label.len() + 1,
        name_bytes(label)[0] == 0x53,
        name_bytes(label).skip(1) == label,
        name_read(d) is Some <==> d.len() > 0 && d[0] == 0x53 && ble::is_label(d.skip(1)),
        name_read(d) matches Some(read) ==> read == d.skip(1),
{
    assert(name_bytes(label).skip(1) =~= label);
}

/// Selecting a field sets its bit and no other.
pub proof fn law_selecting_a_field_sets_its_bit(mask: u8, field: u8)
    requires
        mask < 0x80,
        field == 0x01 || field == 0x02 || field == 0x04 || field == 0x08 || field == 0x10 || field == 0x20 || field == 0x40,
    ensures
        selecting(mask, field) == mask | field,
        selects(mask, field) <==> mask & field != 0,
{
    reveal(selects);
    assert(mask / field % 2 == 1 <==> mask & field != 0) by (bit_vector)
        requires
            field == 0x01 || field == 0x02 || field == 0x04 || field == 0x08 || field == 0x10 || field == 0x20 || field == 0x40,
    ;
    assert(mask & field != 0 ==> mask | field == mask) by (bit_vector)
        requires
            field == 0x01 || field == 0x02 || field == 0x04 || field == 0x08 || field == 0x10 || field == 0x20 || field == 0x40,
    ;
    assert(mask & field == 0 ==> mask | field == mask + field) by (bit_vector)
        requires
            mask < 0x80,
            field < 0x80,
    ;
}

/// A frame is read where it stands: the sender, the number, the hops in seven
/// bits, the sync word where the eighth says so, and the rest is the payload.
pub proof fn law_a_frame_is_read_where_it_stands(b: Seq<u8>, i: int)
    requires
        is_frame(b),
    ensures
        ({
            let f = frame_read(b);
            let h = if b[2] & 0x80 != 0 {
                7int
            } else {
                3int
            };
            &&& f.src == b[0] && f.id == b[1] && f.hops_left == b[2] & 0x7F
            &&& f.sync is Some <==> b[2] & 0x80 != 0
            &&& f.sync matches Some(w) ==> w == SyncWord::of_wire(b.subrange(3, 7))
            &&& f.payload.len() == b.len() - h && f.payload.len() > 0
            &&& 0 <= i < f.payload.len() ==> f.payload[i] == b[h + i]
        }),
{
    let c = b[2];
    assert((c & 0x80 != 0 <==> c >= 0x80) && c & 0x7F == c % 128) by (bit_vector);
}

/// What was sent is what is read, the hops cut to seven bits and the sync word
/// to its own.
pub proof fn law_a_frame_sent_is_the_frame_read(src: u8, id: u8, hops_left: u8, sync: Option<SyncWord>, payload: Seq<u8>)
    requires
        src != 0,
        0 < payload.len(),
    ensures
        ({
            let b = frame_bytes(src, id, hops_left, sync, payload);
            let f = frame_read(b);
            &&& is_frame(b)
            &&& f.src == src && f.id == id && f.hops_left == hops_left % 128
            &&& f.sync is Some <==> sync is Some
            &&& f.payload == payload
        }),
{
    let b = frame_bytes(src, id, hops_left, sync, payload);
    let f = frame_read(b);
    assert(f.payload =~= payload);
}

/// A frame goes out where its payload is one to 32 bytes and there is room for
/// it; its sync word stands behind the three bytes of the header.
pub proof fn law_what_can_be_sent(sync: Option<SyncWord>, payload: Seq<u8>, room: int)
    ensures
        sendable(sync, payload, room) <==> 1 <= payload.len() <= 32 && room >= payload.len() + (if sync is Some {
            7int
        } else {
            3int
        }),
        sync is Some ==> sync_at(sync) == Some(3usize),
        sync is None ==> sync_at(sync) is None,
{
}

} // verus!
