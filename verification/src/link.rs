//! The framed command protocol, the telemetry blob and the checksums.
//!
//! Frame format:
//!   `[SYNC 0xAA] [LEN_LO] [LEN_HI] [CMD] [PAYLOAD: LEN bytes] [CRC8]`
//!
//! LEN is the payload length only (0-256). CRC8 covers CMD + PAYLOAD. Both
//! directions use the same framing; command ids are split by direction so a
//! device never confuses an echo for a request.

use vstd::prelude::*;
use crate::bytes;
use crate::bytes::{byte_i8, i16_word, i8_byte, put, u16_at, u16_bytes, u32_at, u32_bytes, word_i16};

pub mod resp;
pub mod usb;

verus! {

/// Frame sync byte.
pub const SYNC: u8 = 0xAA;

/// Maximum payload size per frame.
pub const MAX_PAYLOAD: usize = 256;

/// Maximum bytes in a status/log line (and the matching BLE characteristic
/// value). Longer lines are truncated at the source.
pub const LOG_MAX: usize = 128;

/// Length of a node-ping report: src + rssi + the two on-air ping fields,
/// laid out `[src u8, rssi i16le, flags u8, uptime_s u16le]`.
pub const PING_LEN: usize = 1 + 2 + 1 + 2;

// -- CRC-8 and CRC-32 ---------------------------------------------------------

/// One bit of CRC-8 with polynomial 0x07.
pub open spec fn crc8_bit(c: u8) -> u8 {
    if c & 0x80 != 0 {
        (c << 1) ^ 0x07
    } else {
        c << 1
    }
}

/// `n` bits of CRC-8.
pub open spec fn crc8_bits(c: u8, n: nat) -> u8
    decreases n,
{
    if n == 0 {
        c
    } else {
        crc8_bit(crc8_bits(c, (n - 1) as nat))
    }
}

/// The CRC-8/ITU of a byte string: polynomial 0x07, initial value 0.
pub open spec fn crc8_of(s: Seq<u8>) -> u8
    decreases s.len(),
{
    if s.len() == 0 {
        0
    } else {
        crc8_bits(crc8_of(s.drop_last()) ^ s.last(), 8)
    }
}

/// One bit of the reflected CRC-32 register.
pub open spec fn crc32_bit(c: u32) -> u32 {
    if c & 1 != 0 {
        (c >> 1) ^ 0xEDB8_8320
    } else {
        c >> 1
    }
}

/// `n` bits of CRC-32.
pub open spec fn crc32_bits(c: u32, n: nat) -> u32
    decreases n,
{
    if n == 0 {
        c
    } else {
        crc32_bit(crc32_bits(c, (n - 1) as nat))
    }
}

/// The CRC-32 register after `s`, started at `c`.
pub open spec fn crc32_run(c: u32, s: Seq<u8>) -> u32
    decreases s.len(),
{
    if s.len() == 0 {
        c
    } else {
        crc32_bits(crc32_run(c, s.drop_last()) ^ (s.last() as u32), 8)
    }
}

/// The CRC-32 (IEEE, reflected) of a byte string.
pub open spec fn crc32_of(s: Seq<u8>) -> u32 {
    !crc32_run(0xFFFF_FFFF, s)
}

/// The CRC-32 of a stream whose bytes so far had CRC `crc` and whose next
/// chunk is `s`.
pub open spec fn crc32_next(crc: u32, s: Seq<u8>) -> u32 {
    !crc32_run(!crc, s)
}

proof fn lemma_crc32_run_concat(c: u32, a: Seq<u8>, b: Seq<u8>)
    ensures
        crc32_run(c, a + b) == crc32_run(crc32_run(c, a), b),
    decreases b.len(),
{
    if b.len() == 0 {
        assert(a + b =~= a);
    } else {
        lemma_crc32_run_concat(c, a, b.drop_last());
        assert((a + b).drop_last() =~= a + b.drop_last());
    }
}

/// Splitting a stream anywhere leaves its CRC-32 unchanged: the checksum of
/// the first part continued over the second is the checksum of the whole.
pub proof fn law_crc32_streams(a: Seq<u8>, b: Seq<u8>)
    ensures
        crc32_next(crc32_of(a), b) == crc32_of(a + b),
        crc32_next(0, b) == crc32_of(b),
        crc32_of(Seq::empty()) == 0,
{
    let c = crc32_run(0xFFFF_FFFF, a);
    assert(!0xFFFF_FFFFu32 == 0u32) by (bit_vector);
    assert(!(!c) == c) by (bit_vector);
    assert(!0u32 == 0xFFFF_FFFFu32) by (bit_vector);
    lemma_crc32_run_concat(0xFFFF_FFFF, a, b);
}

proof fn lemma_crc8_bits_differ(a: u8, b: u8, n: nat)
    requires
        a != b,
    ensures
        crc8_bits(a, n) != crc8_bits(b, n),
    decreases n,
{
    if n > 0 {
        lemma_crc8_bits_differ(a, b, (n - 1) as nat);
        let x = crc8_bits(a, (n - 1) as nat);
        let y = crc8_bits(b, (n - 1) as nat);
        assert(crc8_bit(x) != crc8_bit(y)) by (bit_vector)
            requires
                x != y,
        ;
    }
}

/// A changed byte is always noticed by the CRC-8 too.
pub proof fn law_crc8_notices_a_changed_byte(s: Seq<u8>, k: int, v: u8)
    requires
        0 <= k < s.len(),
        s[k] != v,
    ensures
        crc8_of(s.update(k, v)) != crc8_of(s),
    decreases s.len(),
{
    let t = s.update(k, v);
    let last = s.last();
    if k == s.len() - 1 {
        assert(t.drop_last() =~= s.drop_last());
        let x = crc8_of(s.drop_last());
        assert(x ^ v != x ^ last) by (bit_vector)
            requires
                v != last,
        ;
        lemma_crc8_bits_differ(x ^ v, x ^ last, 8);
    } else {
        law_crc8_notices_a_changed_byte(s.drop_last(), k, v);
        assert(t.drop_last() =~= s.drop_last().update(k, v));
        let x = crc8_of(s.drop_last());
        let y = crc8_of(t.drop_last());
        assert(x ^ last != y ^ last) by (bit_vector)
            requires
                x != y,
        ;
        lemma_crc8_bits_differ(x ^ last, y ^ last, 8);
    }
}

proof fn lemma_crc32_bits_differ(a: u32, b: u32, n: nat)
    requires
        a != b,
    ensures
        crc32_bits(a, n) != crc32_bits(b, n),
    decreases n,
{
    if n > 0 {
        lemma_crc32_bits_differ(a, b, (n - 1) as nat);
        let x = crc32_bits(a, (n - 1) as nat);
        let y = crc32_bits(b, (n - 1) as nat);
        assert(crc32_bit(x) != crc32_bit(y)) by (bit_vector)
            requires
                x != y,
        ;
    }
}

proof fn lemma_crc32_run_differs(c: u32, s: Seq<u8>, k: int, v: u8)
    requires
        0 <= k < s.len(),
        s[k] != v,
    ensures
        crc32_run(c, s.update(k, v)) != crc32_run(c, s),
    decreases s.len(),
{
    let t = s.update(k, v);
    let last = s.last() as u32;
    if k == s.len() - 1 {
        assert(t.drop_last() =~= s.drop_last());
        let x = crc32_run(c, s.drop_last());
        let w = v as u32;
        assert(x ^ w != x ^ last) by (bit_vector)
            requires
                w != last,
        ;
        lemma_crc32_bits_differ(x ^ w, x ^ last, 8);
    } else {
        lemma_crc32_run_differs(c, s.drop_last(), k, v);
        assert(t.drop_last() =~= s.drop_last().update(k, v));
        let x = crc32_run(c, s.drop_last());
        let y = crc32_run(c, t.drop_last());
        assert(x ^ last != y ^ last) by (bit_vector)
            requires
                x != y,
        ;
        lemma_crc32_bits_differ(x ^ last, y ^ last, 8);
    }
}

/// A changed byte is always noticed: however it was changed, and wherever it
/// stands, the CRC-32 of the string is another.
pub proof fn law_crc32_notices_a_changed_byte(s: Seq<u8>, k: int, v: u8)
    requires
        0 <= k < s.len(),
        s[k] != v,
    ensures
        crc32_of(s.update(k, v)) != crc32_of(s),
{
    lemma_crc32_run_differs(0xFFFF_FFFF, s, k, v);
    let x = crc32_run(0xFFFF_FFFF, s);
    let y = crc32_run(0xFFFF_FFFF, s.update(k, v));
    assert(!x != !y) by (bit_vector)
        requires
            x != y,
    ;
}

/// CRC-8 with polynomial 0x07 (CRC-8/ITU) over CMD + PAYLOAD.
pub fn crc8(data: &[u8]) -> (r: u8)
    ensures
        r == crc8_of(data@),
{
    let mut crc: u8 = 0;
    let mut i: usize = 0;
    while i < data.len()
        invariant
            i <= data@.len(),
            crc == crc8_of(data@.take(i as int)),
        decreases data@.len() - i,
    {
        assert(data@.take(i + 1).drop_last() =~= data@.take(i as int));
        crc = crc ^ data[i];
        let ghost start = crc;
        let mut k: u8 = 0;
        while k < 8
            invariant
                k <= 8,
                crc == crc8_bits(start, k as nat),
            decreases 8 - k,
        {
            if crc & 0x80 != 0 {
                crc = (crc << 1) ^ 0x07;
            } else {
                crc = crc << 1;
            }
            k += 1;
        }
        i += 1;
    }
    assert(data@.take(data@.len() as int) =~= data@);
    crc
}

/// The CRC-32 register after `data`, started at `start`.
fn crc32_register(start: u32, data: &[u8]) -> (r: u32)
    ensures
        r == crc32_run(start, data@),
{
    let mut crc: u32 = start;
    let mut i: usize = 0;
    while i < data.len()
        invariant
            i <= data@.len(),
            crc == crc32_run(start, data@.take(i as int)),
        decreases data@.len() - i,
    {
        assert(data@.take(i + 1).drop_last() =~= data@.take(i as int));
        crc = crc ^ (data[i] as u32);
        let ghost begun = crc;
        let mut k: u8 = 0;
        while k < 8
            invariant
                k <= 8,
                crc == crc32_bits(begun, k as nat),
            decreases 8 - k,
        {
            if crc & 1 != 0 {
                crc = (crc >> 1) ^ 0xEDB8_8320;
            } else {
                crc = crc >> 1;
            }
            k += 1;
        }
        i += 1;
    }
    assert(data@.take(data@.len() as int) =~= data@);
    crc
}

/// CRC-32 (IEEE, reflected) used for config and firmware transfer
/// integrity. Matches the standard zlib value.
pub fn crc32(data: &[u8]) -> (r: u32)
    ensures
        r == crc32_of(data@),
{
    !crc32_register(0xFFFF_FFFF, data)
}

/// One more chunk of a running CRC-32: the same value [`crc32`] gives the
/// whole stream, with the pre- and post-inversion undone and redone around
/// each chunk.
pub fn crc32_continue(crc: u32, data: &[u8]) -> (r: u32)
    ensures
        r == crc32_next(crc, data@),
{
    !crc32_register(!crc, data)
}

// -- Telemetry (served over BLE) ----------------------------------------------

/// Set in [`Telemetry::flags`] when the SD card is initialized and logging.
pub const TELEM_FLAG_SD_OK: u8 = 0x01;

/// Set when the GPS currently has a fix.
pub const TELEM_FLAG_GPS_FIX: u8 = 0x02;

/// Set when a stored radio config was adopted rather than firmware defaults.
pub const TELEM_FLAG_CFG_LOADED: u8 = 0x04;

/// Set when the config asks for verbose console logging.
pub const TELEM_FLAG_VERBOSE: u8 = 0x08;

/// Set in [`Telemetry::hop`] when the radio is frequency hopping. The low
/// nibble is then the hop clock's stratum.
pub const TELEM_HOP_ON: u8 = 0x80;

/// Mask of the stratum in [`Telemetry::hop`].
pub const TELEM_HOP_STRATUM: u8 = 0x0F;

/// Length of the telemetry blob before [`Telemetry::ble_rssi`] was appended:
/// the least a decoder accepts.
pub const TELEMETRY_LEN_V1: usize = 19;

/// Length of the telemetry blob.
pub const TELEMETRY_LEN: usize = TELEMETRY_LEN_V1 + 1;

/// Periodic radio/GPS status, served over BLE.
///
/// Layout (little-endian): `last_rssi: i16, last_snr_cb: i16,
/// secs_since_rx: u16, rx_count: u32, tx_count: u32, flags: u8, sats: u8,
/// hop: u8, hop_channel: u8, parks_missed: u8, ble_rssi: i8`.
#[derive(Clone, Copy, Debug, PartialEq, Eq, Hash, Structural)]
pub struct Telemetry {
    /// RSSI of the last received LoRa packet (dBm), 0 if none yet.
    pub last_rssi: i16,
    /// SNR of the last received LoRa packet in centibels (quarter-dB * 25).
    pub last_snr_cb: i16,
    /// Seconds since the last LoRa RX; 0xFFFF = never.
    pub secs_since_rx: u16,
    /// LoRa packets received since boot.
    pub rx_count: u32,
    /// LoRa packets transmitted since boot.
    pub tx_count: u32,
    /// TELEM_FLAG_* bits.
    pub flags: u8,
    /// Satellites used in the current GPS fix.
    pub sats: u8,
    /// [`TELEM_HOP_ON`] plus the hop clock's stratum, 0 when not hopping.
    pub hop: u8,
    /// Index of the channel the receiver is on right now, 0 when not
    /// hopping.
    pub hop_channel: u8,
    /// Deep sleeps entered before the hardware loop finished parking, since
    /// the last cold boot, saturating.
    pub parks_missed: u8,
    /// The BLE link's signal as the board's controller measures it, in dBm;
    /// 0 when there is no reading.
    pub ble_rssi: i8,
}

impl Default for Telemetry {
    fn default() -> (r: Self)
        ensures
            r.last_rssi == 0,
            r.last_snr_cb == 0,
            r.secs_since_rx == 0,
            r.rx_count == 0,
            r.tx_count == 0,
            r.flags == 0,
            r.sats == 0,
            r.hop == 0,
            r.hop_channel == 0,
            r.parks_missed == 0,
            r.ble_rssi == 0,
    {
        Self {
            last_rssi: 0,
            last_snr_cb: 0,
            secs_since_rx: 0,
            rx_count: 0,
            tx_count: 0,
            flags: 0,
            sats: 0,
            hop: 0,
            hop_channel: 0,
            parks_missed: 0,
            ble_rssi: 0,
        }
    }
}

/// The telemetry blob, byte by byte.
pub open spec fn telemetry_bytes(t: Telemetry) -> Seq<u8> {
    seq![
        bytes::lo(bytes::of_i16(t.last_rssi)), bytes::hi(bytes::of_i16(t.last_rssi)),
        bytes::lo(bytes::of_i16(t.last_snr_cb)), bytes::hi(bytes::of_i16(t.last_snr_cb)),
        bytes::lo(t.secs_since_rx), bytes::hi(t.secs_since_rx),
        bytes::byte_of(t.rx_count, 0), bytes::byte_of(t.rx_count, 1), bytes::byte_of(t.rx_count, 2), bytes::byte_of(t.rx_count, 3),
        bytes::byte_of(t.tx_count, 0), bytes::byte_of(t.tx_count, 1), bytes::byte_of(t.tx_count, 2), bytes::byte_of(t.tx_count, 3),
        t.flags, t.sats, t.hop, t.hop_channel, t.parks_missed,
        bytes::of_i8(t.ble_rssi),
    ]
}

/// What a telemetry blob says: `None` when it is too short, no link reading
/// when it stops before that byte.
pub open spec fn telemetry_read(b: Seq<u8>) -> Option<Telemetry> {
    if b.len() < TELEMETRY_LEN_V1 {
        None
    } else {
        Some(Telemetry {
            last_rssi: bytes::to_i16(bytes::le16_at(b, 0)),
            last_snr_cb: bytes::to_i16(bytes::le16_at(b, 2)),
            secs_since_rx: bytes::le16_at(b, 4),
            rx_count: bytes::le32_at(b, 6),
            tx_count: bytes::le32_at(b, 10),
            flags: b[14],
            sats: b[15],
            hop: b[16],
            hop_channel: b[17],
            parks_missed: b[18],
            ble_rssi: if b.len() > TELEMETRY_LEN_V1 { bytes::to_i8(b[19]) } else { 0 },
        })
    }
}

impl Telemetry {
    /// The stratum the hop byte names, where it says the radio hops.
    pub open spec fn stratum(self) -> Option<u8> {
        if self.hop >= 0x80 {
            Some((self.hop % 16) as u8)
        } else {
            None
        }
    }

    /// The hop clock's stratum, or `None` when the radio is not hopping.
    pub fn hop_stratum(&self) -> (r: Option<u8>)
        ensures
            r == self.stratum(),
    {
        let h: u8 = self.hop;
        assert((h & TELEM_HOP_ON != 0) == (h >= 0x80) && h & TELEM_HOP_STRATUM == h % 16) by (bit_vector);
        if self.hop & TELEM_HOP_ON != 0 {
            Some(self.hop & TELEM_HOP_STRATUM)
        } else {
            None
        }
    }

    /// The blob as it travels.
    pub fn encode(&self) -> (r: [u8; TELEMETRY_LEN])
        ensures
            r@ == telemetry_bytes(*self),
    {
        let rssi: [u8; 2] = u16_bytes(i16_word(self.last_rssi));
        let snr: [u8; 2] = u16_bytes(i16_word(self.last_snr_cb));
        let since: [u8; 2] = u16_bytes(self.secs_since_rx);
        let rx: [u8; 4] = u32_bytes(self.rx_count);
        let tx: [u8; 4] = u32_bytes(self.tx_count);
        let r: [u8; TELEMETRY_LEN] = [
            rssi[0], rssi[1], snr[0], snr[1], since[0], since[1],
            rx[0], rx[1], rx[2], rx[3], tx[0], tx[1], tx[2], tx[3],
            self.flags, self.sats, self.hop, self.hop_channel, self.parks_missed,
            i8_byte(self.ble_rssi),
        ];
        assert(r@ =~= telemetry_bytes(*self));
        r
    }

    /// Extra trailing bytes are tolerated; input shorter than
    /// [`TELEMETRY_LEN_V1`] is rejected. A blob of exactly that length
    /// carries no link reading.
    pub fn decode(b: &[u8]) -> (r: Option<Self>)
        ensures
            r == telemetry_read(b@),
    {
        if b.len() < TELEMETRY_LEN_V1 {
            return None;
        }
        Some(Self {
            last_rssi: word_i16(u16_at(b, 0)),
            last_snr_cb: word_i16(u16_at(b, 2)),
            secs_since_rx: u16_at(b, 4),
            rx_count: u32_at(b, 6),
            tx_count: u32_at(b, 10),
            flags: b[14],
            sats: b[15],
            hop: b[16],
            hop_channel: b[17],
            parks_missed: b[18],
            ble_rssi: if b.len() > TELEMETRY_LEN_V1 { byte_i8(b[19]) } else { 0 },
        })
    }
}

/// Telemetry survives the wire: whatever follows the blob, it reads back as
/// itself, and cut to the first layout it reads back without the link
/// reading.
pub proof fn law_telemetry_round_trip(t: Telemetry, tail: Seq<u8>)
    ensures
        telemetry_read(telemetry_bytes(t) + tail) == Some(t),
        telemetry_read(telemetry_bytes(t).take(TELEMETRY_LEN_V1 as int)) == Some(Telemetry { ble_rssi: 0, ..t }),
{
    let a = telemetry_bytes(t) + tail;
    let b = telemetry_bytes(t).take(TELEMETRY_LEN_V1 as int);
    bytes::lemma_signed(t.ble_rssi, t.last_rssi, 0);
    bytes::lemma_signed(0, t.last_snr_cb, 0);
    bytes::lemma_le16_read(a, 0, bytes::of_i16(t.last_rssi));
    bytes::lemma_le16_read(a, 2, bytes::of_i16(t.last_snr_cb));
    bytes::lemma_le16_read(a, 4, t.secs_since_rx);
    bytes::lemma_le16_read(b, 0, bytes::of_i16(t.last_rssi));
    bytes::lemma_le16_read(b, 2, bytes::of_i16(t.last_snr_cb));
    bytes::lemma_le16_read(b, 4, t.secs_since_rx);
    bytes::lemma_le32_read(a, 6, t.rx_count);
    bytes::lemma_le32_read(a, 10, t.tx_count);
    bytes::lemma_le32_read(b, 6, t.rx_count);
    bytes::lemma_le32_read(b, 10, t.tx_count);
}

// -- Frame parser (byte-at-a-time state machine) ------------------------------

/// Most bytes a frame's checksum covers: the command and the longest
/// payload.
const DATA_MAX: usize = MAX_PAYLOAD + 1;

/// What the parser is waiting for.
#[derive(Clone, Copy, Debug, PartialEq, Eq, Structural)]
pub enum ParseState {
    Sync,
    LenLo,
    LenHi,
    /// Collects CMD + PAYLOAD.
    Data,
    Crc,
}

/// A parsed frame ready for processing.
pub struct Frame<'a> {
    pub cmd: u8,
    pub payload: &'a [u8],
}

/// Incremental frame parser. Feed bytes one at a time via
/// [`feed`](FrameParser::feed); when it returns `true`, read the frame with
/// [`frame`](FrameParser::frame).
pub struct FrameParser {
    state: ParseState,
    /// Buffer holding CMD + PAYLOAD.
    buf: [u8; DATA_MAX],
    /// Total expected bytes in buf (1 cmd + len payload).
    expected: usize,
    /// Current write position in buf.
    pos: usize,
}

/// A parser, as its contract speaks of it.
#[verifier::ext_equal]
pub struct Parsing {
    pub state: ParseState,
    pub buf: Seq<u8>,
    pub expected: nat,
    pub pos: nat,
}

impl View for FrameParser {
    type V = Parsing;

    closed spec fn view(&self) -> Parsing {
        Parsing {
            state: self.state,
            buf: self.buf@,
            expected: self.expected as nat,
            pos: self.pos as nat,
        }
    }
}

impl Parsing {
    /// A parser that has been fed nothing: waiting for a sync byte, with an
    /// empty frame in a zeroed buffer.
    pub open spec fn fresh() -> Parsing {
        Parsing {
            state: ParseState::Sync,
            buf: Seq::new((MAX_PAYLOAD + 1) as nat, |i: int| 0u8),
            expected: 0,
            pos: 0,
        }
    }

    /// The collected bytes stay inside the buffer, and the two length bytes
    /// inside what two bytes hold.
    pub open spec fn wf(self) -> bool {
        &&& self.buf.len() == MAX_PAYLOAD + 1
        &&& (self.state is LenHi ==> self.expected <= 255)
        &&& (self.state is Data ==> self.pos < self.expected <= MAX_PAYLOAD + 1)
        &&& (self.state is Crc ==> 1 <= self.expected <= MAX_PAYLOAD + 1)
    }

    /// The parser after one more byte, and whether that byte completed a
    /// frame with a valid checksum.
    pub open spec fn fed(self, byte: u8) -> (Parsing, bool) {
        match self.state {
            ParseState::Sync => if byte == SYNC {
                (Parsing { state: ParseState::LenLo, ..self }, false)
            } else {
                (self, false)
            },
            ParseState::LenLo => (Parsing { state: ParseState::LenHi, expected: byte as nat, ..self }, false),
            ParseState::LenHi => {
                let len = self.expected + 256 * (byte as nat);
                if len > MAX_PAYLOAD {
                    (Parsing { state: ParseState::Sync, expected: len, ..self }, false)
                } else {
                    (Parsing { state: ParseState::Data, expected: len + 1, pos: 0, ..self }, false)
                }
            },
            ParseState::Data => {
                let buf = self.buf.update(self.pos as int, byte);
                let pos = self.pos + 1;
                if pos >= self.expected {
                    (Parsing { state: ParseState::Crc, buf, pos, ..self }, false)
                } else {
                    (Parsing { buf, pos, ..self }, false)
                }
            },
            ParseState::Crc => (
                Parsing { state: ParseState::Sync, ..self },
                byte == crc8_of(self.buf.take(self.expected as int)),
            ),
        }
    }

    /// The parser after a string of bytes.
    pub open spec fn fed_all(self, s: Seq<u8>) -> Parsing
        decreases s.len(),
    {
        if s.len() == 0 {
            self
        } else {
            self.fed_all(s.drop_last()).fed(s.last()).0
        }
    }
}

impl Default for FrameParser {
    fn default() -> (r: Self)
        ensures
            r@ == Parsing::fresh(),
            r@.wf(),
    {
        Self::new()
    }
}

impl FrameParser {
    /// A parser waiting for a sync byte.
    pub fn new() -> (r: Self)
        ensures
            r@ == Parsing::fresh(),
            r@.wf(),
    {
        let r: FrameParser = Self { state: ParseState::Sync, buf: [0u8; DATA_MAX], expected: 0, pos: 0 };
        assert(r@ =~= Parsing::fresh());
        r
    }

    /// Feed a single byte. Returns `true` when a complete frame with a valid
    /// CRC has been received.
    pub fn feed(&mut self, byte: u8) -> (r: bool)
        requires
            old(self)@.wf(),
        ensures
            final(self)@.wf(),
            (final(self)@, r) == old(self)@.fed(byte),
    {
        match self.state {
            ParseState::Sync => {
                if byte == SYNC {
                    self.state = ParseState::LenLo;
                }
                false
            },
            ParseState::LenLo => {
                self.expected = byte as usize;
                self.state = ParseState::LenHi;
                false
            },
            ParseState::LenHi => {
                self.expected = self.expected + 256 * (byte as usize);
                if self.expected > MAX_PAYLOAD {
                    self.state = ParseState::Sync;
                } else {
                    self.expected = self.expected + 1;  // +1 for the CMD byte
                    self.pos = 0;
                    self.state = ParseState::Data;
                }
                false
            },
            ParseState::Data => {
                self.buf[self.pos] = byte;
                self.pos = self.pos + 1;
                if self.pos >= self.expected {
                    self.state = ParseState::Crc;
                }
                false
            },
            ParseState::Crc => {
                let computed: u8 = crc8(&self.buf[0..self.expected]);
                self.state = ParseState::Sync;
                // On a mismatch the frame is discarded silently.
                computed == byte
            },
        }
    }

    /// The last parsed frame. Only meaningful immediately after
    /// [`feed`](FrameParser::feed) returned `true`.
    pub fn frame(&self) -> (r: Frame<'_>)
        requires
            self@.wf(),
            1 <= self@.expected <= MAX_PAYLOAD + 1,
        ensures
            r.cmd == self@.buf[0],
            r.payload@ == self@.buf.subrange(1, self@.expected as int),
    {
        Frame { cmd: self.buf[0], payload: &self.buf[1..self.expected] }
    }
}

// -- Frame builder ------------------------------------------------------------

/// Max on-wire frame size: 1 sync + 2 len + 1 cmd + payload + 1 crc.
pub const MAX_FRAME: usize = 5 + MAX_PAYLOAD;

/// Scratch buffer for building outgoing frames.
pub struct FrameBuf {
    pub buf: [u8; MAX_FRAME],
    pub len: usize,
}

/// The part of a payload a frame carries.
pub open spec fn carried(payload: Seq<u8>) -> Seq<u8> {
    if payload.len() > MAX_PAYLOAD {
        payload.take(MAX_PAYLOAD as int)
    } else {
        payload
    }
}

/// A whole frame on the wire, for a payload that fits one.
pub open spec fn frame_bytes(cmd: u8, payload: Seq<u8>) -> Seq<u8> {
    seq![SYNC, (payload.len() % 256) as u8, (payload.len() / 256) as u8] + (seq![cmd] + payload).push(
        crc8_of(seq![cmd] + payload),
    )
}

impl Default for FrameBuf {
    fn default() -> (r: Self)
        ensures
            r.len == 0,
            forall|i: int| 0 <= i < MAX_FRAME ==> r.buf@[i] == 0,
    {
        Self::new()
    }
}

impl FrameBuf {
    /// An empty buffer.
    pub fn new() -> (r: Self)
        ensures
            r.len == 0,
            forall|i: int| 0 <= i < MAX_FRAME ==> r.buf@[i] == 0,
    {
        Self { buf: [0u8; MAX_FRAME], len: 0 }
    }

    /// Build a frame with the given command and payload; a payload longer
    /// than [`MAX_PAYLOAD`] is cut to it.
    pub fn build(&mut self, cmd: u8, payload: &[u8]) -> (r: &[u8])
        ensures
            r@ == frame_bytes(cmd, carried(payload@)),
            final(self).len == carried(payload@).len() + 5,
            final(self).buf@.take(final(self).len as int) == r@,
    {
        let plen: usize = if payload.len() < MAX_PAYLOAD { payload.len() } else { MAX_PAYLOAD };
        let ghost sent = carried(payload@);
        self.buf[0] = SYNC;
        self.buf[1] = (plen % 256) as u8;
        self.buf[2] = (plen / 256) as u8;
        self.buf[3] = cmd;
        put(&mut self.buf, 4, &payload[0..plen]);
        let crc_end: usize = 4 + plen;
        let crc: u8 = crc8(&self.buf[3..crc_end]);
        assert(self.buf@.subrange(3, crc_end as int) =~= seq![cmd] + sent);
        self.buf[crc_end] = crc;
        self.len = crc_end + 1;
        assert(self.buf@.take(self.len as int) =~= frame_bytes(cmd, sent));
        self.as_bytes()
    }

    /// The frame last built.
    pub fn as_bytes(&self) -> (r: &[u8])
        requires
            self.len <= MAX_FRAME,
        ensures
            r@ == self.buf@.take(self.len as int),
    {
        &self.buf[0..self.len]
    }
}

proof fn lemma_fed_prefix(p: Parsing, cmd: u8, payload: Seq<u8>, j: int)
    requires
        p.wf(),
        p.state is Sync,
        payload.len() <= MAX_PAYLOAD,
        0 <= j <= payload.len() + 1,
    ensures
        ({
            let body = seq![cmd] + payload;
            let q = p.fed_all(frame_bytes(cmd, payload).take(3 + j));
            &&& q.wf()
            &&& q.expected == body.len()
            &&& q.pos == j
            &&& q.buf.take(j) == body.take(j)
            &&& (if j == body.len() { q.state is Crc } else { q.state is Data })
        }),
    decreases j,
{
    let f = frame_bytes(cmd, payload);
    let body = seq![cmd] + payload;
    if j == 0 {
        let s3 = f.take(3);
        let s2 = f.take(2);
        let s1 = f.take(1);
        assert(s3.drop_last() =~= s2);
        assert(s2.drop_last() =~= s1);
        assert(s1.drop_last() =~= f.take(0));
        assert(p.fed_all(f.take(0)) == p);
        assert(p.fed_all(s1) == p.fed(SYNC).0);
        assert(p.fed_all(s2) == p.fed_all(s1).fed(f[1]).0);
        assert(p.fed_all(s3) == p.fed_all(s2).fed(f[2]).0);
        assert(p.fed_all(s3).buf.take(0) =~= body.take(0));
    } else {
        lemma_fed_prefix(p, cmd, payload, j - 1);
        let before = p.fed_all(f.take(3 + j - 1));
        let s = f.take(3 + j);
        assert(s.drop_last() =~= f.take(3 + j - 1));
        assert(s.last() == body[j - 1]);
        let q = before.fed(body[j - 1]).0;
        assert(q.buf.take(j) =~= body.take(j)) by {
            assert forall|i: int| 0 <= i < j implies q.buf[i] == body[i] by {
                if i < j - 1 {
                    assert(before.buf.take(j - 1)[i] == body.take(j - 1)[i]);
                }
            }
        }
    }
}

/// A frame built from a command and a payload parses back to them: fed to a
/// parser waiting for a sync byte, its last byte and no earlier one
/// completes a frame, the frame is the one that was built, and the parser is
/// waiting for the next.
pub proof fn law_frame_round_trip(p: Parsing, cmd: u8, payload: Seq<u8>)
    requires
        p.wf(),
        p.state is Sync,
        payload.len() <= MAX_PAYLOAD,
    ensures
        ({
            let f = frame_bytes(cmd, payload);
            let (q, done) = p.fed_all(f.drop_last()).fed(f.last());
            &&& done
            &&& q.wf()
            &&& q.state is Sync
            &&& q.expected == payload.len() + 1
            &&& q.buf[0] == cmd
            &&& q.buf.subrange(1, q.expected as int) == payload
            &&& forall|k: int| 0 <= k < f.len() - 1 ==> !(#[trigger] p.fed_all(f.take(k))).fed(f[k]).1
        }),
{
    let f = frame_bytes(cmd, payload);
    let body = seq![cmd] + payload;
    lemma_fed_prefix(p, cmd, payload, body.len() as int);
    assert(f.drop_last() =~= f.take(3 + body.len() as int));
    let before = p.fed_all(f.drop_last());
    assert(before.buf.take(body.len() as int) =~= body);
    let q = before.fed(f.last()).0;
    assert(q.buf.subrange(1, q.expected as int) =~= payload) by {
        assert forall|i: int| 0 <= i < payload.len() implies q.buf[i + 1] == payload[i] by {
            assert(before.buf.take(body.len() as int)[i + 1] == body[i + 1]);
        }
    }
    assert(q.buf[0] == before.buf.take(body.len() as int)[0]);
    assert forall|k: int| 0 <= k < f.len() - 1 implies !(#[trigger] p.fed_all(f.take(k))).fed(f[k]).1 by {
        if k >= 3 {
            lemma_fed_prefix(p, cmd, payload, k - 3);
        } else {
            assert(f.take(0) =~= Seq::<u8>::empty());
            assert(f.take(1).drop_last() =~= f.take(0));
            assert(f.take(2).drop_last() =~= f.take(1));
            assert(p.fed_all(f.take(0)) == p);
            assert(p.fed_all(f.take(1)) == p.fed(SYNC).0);
            assert(p.fed_all(f.take(2)) == p.fed_all(f.take(1)).fed(f[1]).0);
        }
    }
}

/// Where no byte of the first `m` completes a frame, none does in another
/// string that starts with the same ones.
proof fn lemma_same_start(p: Parsing, f: Seq<u8>, g: Seq<u8>, m: int)
    requires
        0 <= m <= f.len(),
        m <= g.len(),
        f.take(m) == g.take(m),
        forall|n: int| 0 <= n < m ==> !(#[trigger] p.fed_all(f.take(n))).fed(f[n]).1,
    ensures
        forall|n: int| 0 <= n < m ==> !(#[trigger] p.fed_all(g.take(n))).fed(g[n]).1,
{
    assert forall|n: int| 0 <= n < m implies !(#[trigger] p.fed_all(g.take(n))).fed(g[n]).1 by {
        assert(g.take(n) =~= g.take(m).take(n));
        assert(f.take(n) =~= f.take(m).take(n));
        assert(g[n] == g.take(m)[n] && f[n] == f.take(m)[n]);
        assert(!p.fed_all(f.take(n)).fed(f[n]).1);
    }
}

/// A changed byte behind the length leaves a frame whose CRC is not its own.
proof fn lemma_corrupt_crc(cmd: u8, payload: Seq<u8>, k: int, v: u8)
    requires
        3 <= k < frame_bytes(cmd, payload).len(),
        frame_bytes(cmd, payload)[k] != v,
    ensures
        ({
            let bad = frame_bytes(cmd, payload).update(k, v);
            bad.last() != crc8_of(bad.subrange(3, bad.len() - 1))
        }),
{
    let bad = frame_bytes(cmd, payload).update(k, v);
    let body = seq![cmd] + payload;
    let other = bad.subrange(3, bad.len() - 1);
    if k < 3 + body.len() {
        assert(other =~= body.update(k - 3, v));
        law_crc8_notices_a_changed_byte(body, k - 3, v);
    } else {
        assert(other =~= body);
    }
}

/// A frame with one byte of its command, payload or CRC changed is dropped
/// whole: none of its bytes completes a frame, and the parser is waiting for
/// the next.
#[verifier::spinoff_prover]
pub proof fn law_a_corrupt_frame_is_dropped(p: Parsing, cmd: u8, payload: Seq<u8>, k: int, v: u8)
    requires
        p.wf(),
        p.state is Sync,
        payload.len() <= MAX_PAYLOAD,
        3 <= k < frame_bytes(cmd, payload).len(),
        frame_bytes(cmd, payload)[k] != v,
    ensures
        ({
            let bad = frame_bytes(cmd, payload).update(k, v);
            &&& p.fed_all(bad).wf()
            &&& p.fed_all(bad).state is Sync
            &&& forall|n: int| 0 <= n < bad.len() ==> !(#[trigger] p.fed_all(bad.take(n))).fed(bad[n]).1
        }),
{
    let bad = frame_bytes(cmd, payload).update(k, v);
    let m = bad.len() - 1;
    // The frame that the changed bytes would be, but for its CRC.
    let other = bad.subrange(3, m);
    let f = frame_bytes(other[0], other.skip(1));
    assert(seq![other[0]] + other.skip(1) =~= other);
    assert(f.take(m) =~= bad.take(m));
    lemma_fed_prefix(p, other[0], other.skip(1), other.len() as int);
    law_frame_round_trip(p, other[0], other.skip(1));
    lemma_same_start(p, f, bad, m);
    lemma_corrupt_crc(cmd, payload, k, v);
    let before = p.fed_all(bad.take(m));
    assert(before.state is Crc && before.wf());
    assert(before.buf.take(before.expected as int) =~= other);
    assert(!before.fed(bad[m]).1);
    assert(bad.drop_last() =~= bad.take(m));
    assert(p.fed_all(bad) == before.fed(bad[m]).0);
}

/// Noise between frames is passed over: a parser waiting for a sync byte is
/// still waiting after any bytes that are not one.
pub proof fn law_noise_is_passed_over(p: Parsing, noise: Seq<u8>)
    requires
        p.state is Sync,
        forall|i: int| 0 <= i < noise.len() ==> #[trigger] noise[i] != SYNC,
    ensures
        p.fed_all(noise) == p,
        forall|n: int| 0 <= n < noise.len() ==> !(#[trigger] p.fed_all(noise.take(n))).fed(noise[n]).1,
    decreases noise.len(),
{
    if noise.len() > 0 {
        let most = noise.drop_last();
        law_noise_is_passed_over(p, most);
        assert forall|n: int| 0 <= n < noise.len() implies !(#[trigger] p.fed_all(noise.take(n))).fed(noise[n]).1 by {
            if n < most.len() {
                assert(noise.take(n) =~= most.take(n));
                assert(!p.fed_all(most.take(n)).fed(most[n]).1);
            } else {
                assert(noise.take(n) =~= most);
            }
        }
    }
}

// -- What the checksums and the layouts are ---------------------------------------

/// What a byte adds to a CRC-8: the sum of what its bits add.
pub open spec fn crc8_row(b: u8) -> u8 {
    (if b & 1 != 0 { 0x07 } else { 0u8 })
        ^ (if b & 2 != 0 { 0x0E } else { 0u8 })
        ^ (if b & 4 != 0 { 0x1C } else { 0u8 })
        ^ (if b & 8 != 0 { 0x38 } else { 0u8 })
        ^ (if b & 16 != 0 { 0x70 } else { 0u8 })
        ^ (if b & 32 != 0 { 0xE0 } else { 0u8 })
        ^ (if b & 64 != 0 { 0xC7 } else { 0u8 })
        ^ (if b & 128 != 0 { 0x89 } else { 0u8 })
}

/// What a byte adds to a CRC-32: the sum of what its bits add.
pub open spec fn crc32_row(b: u32) -> u32 {
    (if b & 1 != 0 { 0x7707_3096 } else { 0u32 })
        ^ (if b & 2 != 0 { 0xEE0E_612C } else { 0u32 })
        ^ (if b & 4 != 0 { 0x076D_C419 } else { 0u32 })
        ^ (if b & 8 != 0 { 0x0EDB_8832 } else { 0u32 })
        ^ (if b & 16 != 0 { 0x1DB7_1064 } else { 0u32 })
        ^ (if b & 32 != 0 { 0x3B6E_20C8 } else { 0u32 })
        ^ (if b & 64 != 0 { 0x76DC_4190 } else { 0u32 })
        ^ (if b & 128 != 0 { 0xEDB8_8320 } else { 0u32 })
}

proof fn lemma_crc8_eight_bits(c: u8)
    ensures
        crc8_bits(c, 8) == crc8_row(c),
{
    reveal_with_fuel(crc8_bits, 9);
    let c1 = crc8_bit(c);
    let c2 = crc8_bit(c1);
    let c3 = crc8_bit(c2);
    let c4 = crc8_bit(c3);
    let c5 = crc8_bit(c4);
    let c6 = crc8_bit(c5);
    let c7 = crc8_bit(c6);
    let c8 = crc8_bit(c7);
    assert(c8 == crc8_row(c)) by (bit_vector)
        requires
            c1 == crc8_bit(c),
            c2 == crc8_bit(c1),
            c3 == crc8_bit(c2),
            c4 == crc8_bit(c3),
            c5 == crc8_bit(c4),
            c6 == crc8_bit(c5),
            c7 == crc8_bit(c6),
            c8 == crc8_bit(c7),
    ;
}

proof fn lemma_crc32_eight_bits(c: u32)
    ensures
        crc32_bits(c, 8) == (c >> 8) ^ crc32_row(c & 0xFF),
{
    reveal_with_fuel(crc32_bits, 9);
    let c1 = crc32_bit(c);
    let c2 = crc32_bit(c1);
    let c3 = crc32_bit(c2);
    let c4 = crc32_bit(c3);
    let c5 = crc32_bit(c4);
    let c6 = crc32_bit(c5);
    let c7 = crc32_bit(c6);
    let c8 = crc32_bit(c7);
    assert(c8 == (c >> 8) ^ crc32_row(c & 0xFF)) by (bit_vector)
        requires
            c1 == crc32_bit(c),
            c2 == crc32_bit(c1),
            c3 == crc32_bit(c2),
            c4 == crc32_bit(c3),
            c5 == crc32_bit(c4),
            c6 == crc32_bit(c5),
            c7 == crc32_bit(c6),
            c8 == crc32_bit(c7),
    ;
}

/// The CRC-8 is the one of a table: nothing for an empty string, and each byte
/// more takes it to the row of the two summed.
pub proof fn law_crc8_goes_by_the_table(s: Seq<u8>, b: u8)
    ensures
        crc8_of(Seq::empty()) == 0,
        crc8_of(s.push(b)) == crc8_row(crc8_of(s) ^ b),
{
    assert(s.push(b).drop_last() =~= s);
    lemma_crc8_eight_bits(crc8_of(s) ^ b);
}

/// The CRC-32 is the one of a table: the register starts with every bit set,
/// each byte more shifts it a byte down and adds the row its low byte names,
/// and the checksum is the register turned over.
pub proof fn law_crc32_goes_by_the_table(s: Seq<u8>, b: u8)
    ensures
        crc32_of(Seq::empty()) == 0,
        ({
            let r = !crc32_of(s);
            let x = r ^ (b as u32);
            crc32_of(s.push(b)) == !((x >> 8) ^ crc32_row(x & 0xFF))
        }),
{
    law_crc32_streams(Seq::empty(), Seq::empty());
    assert(s.push(b).drop_last() =~= s);
    let c = crc32_run(0xFFFF_FFFF, s);
    assert(!(!c) == c) by (bit_vector);
    lemma_crc32_eight_bits(c ^ (b as u32));
}

/// Where each part of the telemetry blob stands in its 20 bytes.
pub proof fn law_the_telemetry_is_laid_out(t: Telemetry)
    ensures
        ({
            let b = telemetry_bytes(t);
            &&& b.len() == 20
            &&& bytes::to_i16(bytes::le16_at(b, 0)) == t.last_rssi
            &&& bytes::to_i16(bytes::le16_at(b, 2)) == t.last_snr_cb
            &&& bytes::le16_at(b, 4) == t.secs_since_rx
            &&& bytes::le32_at(b, 6) == t.rx_count
            &&& bytes::le32_at(b, 10) == t.tx_count
            &&& b[14] == t.flags && b[15] == t.sats && b[16] == t.hop && b[17] == t.hop_channel && b[18] == t.parks_missed
            &&& bytes::to_i8(b[19]) == t.ble_rssi
        }),
{
    let b = telemetry_bytes(t);
    bytes::lemma_signed(t.ble_rssi, t.last_rssi, 0);
    bytes::lemma_signed(0, t.last_snr_cb, 0);
    bytes::lemma_le16_read(b, 0, bytes::of_i16(t.last_rssi));
    bytes::lemma_le16_read(b, 2, bytes::of_i16(t.last_snr_cb));
    bytes::lemma_le16_read(b, 4, t.secs_since_rx);
    bytes::lemma_le32_read(b, 6, t.rx_count);
    bytes::lemma_le32_read(b, 10, t.tx_count);
}

/// Nineteen bytes are telemetry, fewer are none, and the twentieth is the only
/// one that may be missing.
pub proof fn law_what_is_no_telemetry(b: Seq<u8>)
    ensures
        telemetry_read(b) is Some <==> b.len() >= 19,
        telemetry_read(b) matches Some(t) ==> t.flags == b[14] && t.sats == b[15] && t.hop == b[16] && t.hop_channel == b[17]
            && t.parks_missed == b[18] && t.secs_since_rx == bytes::le16_at(b, 4) && t.rx_count == bytes::le32_at(b, 6)
            && t.tx_count == bytes::le32_at(b, 10) && t.last_rssi == bytes::to_i16(bytes::le16_at(b, 0)) && t.last_snr_cb
            == bytes::to_i16(bytes::le16_at(b, 2)) && (b.len() == 19 ==> t.ble_rssi == 0) && (b.len() > 19 ==> t.ble_rssi
            == bytes::to_i8(b[19])),
{
}

/// The hop byte says whether the radio hops in its top bit, and the stratum it
/// hops on in the low four.
pub proof fn law_the_hop_byte_is_its_bits(t: Telemetry)
    ensures
        t.stratum() is Some <==> t.hop & 0x80 != 0,
        t.stratum() matches Some(s) ==> s == t.hop & 0x0F,
{
    let h = t.hop;
    assert((h & 0x80 != 0) == (h >= 0x80) && h & 0x0F == h % 16) by (bit_vector);
}

/// Where each part of a frame stands: the sync byte, the payload's length low
/// byte first, the command, the payload, and the checksum of the last two.
pub proof fn law_a_frame_is_laid_out(cmd: u8, payload: Seq<u8>, i: int)
    requires
        payload.len() <= 256,
    ensures
        ({
            let f = frame_bytes(cmd, payload);
            &&& f.len() == payload.len() + 5
            &&& f[0] == 0xAA
            &&& f[1] + 256 * f[2] == payload.len()
            &&& f[3] == cmd
            &&& 0 <= i < payload.len() ==> f[4 + i] == payload[i]
            &&& f.last() == crc8_of(f.subrange(3, f.len() - 1))
        }),
{
    let f = frame_bytes(cmd, payload);
    assert(f.subrange(3, f.len() - 1) =~= seq![cmd] + payload);
}

/// A payload is carried whole up to 256 bytes, and cut there.
pub proof fn law_a_payload_is_cut_at_the_end(payload: Seq<u8>, i: int)
    ensures
        payload.len() <= 256 ==> carried(payload) == payload,
        payload.len() > 256 ==> carried(payload).len() == 256,
        0 <= i < carried(payload).len() ==> carried(payload)[i] == payload[i],
{
}

/// A frame completes on the byte that is the checksum of what was collected,
/// and on no other; the parser then waits for the next sync byte, and a length
/// no frame has sends it there at once.
pub proof fn law_when_a_frame_completes(p: Parsing, byte: u8)
    requires
        p.wf(),
    ensures
        p.fed(byte).0.wf(),
        p.fed(byte).1 <==> p.state is Crc && byte == crc8_of(p.buf.take(p.expected as int)),
        p.state is Crc ==> p.fed(byte).0.state is Sync && p.fed(byte).0.buf == p.buf && p.fed(byte).0.expected == p.expected,
        p.state is Sync ==> (p.fed(byte).0.state is LenLo <==> byte == 0xAA),
        p.state is LenLo ==> p.fed(byte).0.state is LenHi,
        p.state is LenHi ==> (p.fed(byte).0.state is Sync <==> p.expected + 256 * byte > 256),
        p.state is LenHi && p.expected + 256 * byte <= 256 ==> p.fed(byte).0.state is Data && p.fed(byte).0.expected
            == p.expected + 256 * byte + 1 && p.fed(byte).0.pos == 0,
        p.state is Data ==> p.fed(byte).0.pos == p.pos + 1 && p.fed(byte).0.buf[p.pos as int] == byte,
        p.state is Data ==> (p.fed(byte).0.state is Crc <==> p.pos + 1 == p.expected),
{
}

} // verus!
