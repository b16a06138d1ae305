//! BLE GATT extensions served by the board's firmware: names, the settings
//! blob, config command ids and the bulk transfer's op codes.

use vstd::prelude::*;
use vstd::string::StringSliceAdditionalSpecFns;
use vstd::utf8::*;
use crate::bytes;
use crate::text;
use crate::time;
use crate::bytes::{put, u32_at, u32_bytes};
use crate::text::utf8;

verus! {

/// Prefix every board's advertised name carries.
///
/// A named board advertises `<prefix>-<label>`; one that has never been
/// named advertises `<prefix>-<xxxx>` from the tail of its BLE address. See
/// [`advertised_name`].
pub const NAME_PREFIX: &'static str = "ws3gps";

/// Separator between the prefix and the label.
pub const NAME_SEP: u8 = 0x2D;

/// Bytes of label a board stores (see [`CFG_NAME`]).
pub const NAME_LABEL_MAX: usize = 15;

/// Bytes a stored label occupies. One more than the longest label, so a
/// full-length label is still followed by a zero.
pub const NAME_FIELD_LEN: usize = NAME_LABEL_MAX + 1;

/// Longest name a board advertises: prefix, separator, label.
pub const NAME_MAX: usize = 6 + 1 + NAME_LABEL_MAX;

/// Whether a byte may stand in a label: ASCII letters, digits, `-` and `_`.
pub open spec fn label_byte(b: u8) -> bool {
    ||| 0x30 <= b <= 0x39
    ||| 0x41 <= b <= 0x5A
    ||| 0x61 <= b <= 0x7A
    ||| b == 0x2D
    ||| b == 0x5F
}

/// A label a board will store: 1 to [`NAME_LABEL_MAX`] label bytes.
pub open spec fn is_label(label: Seq<u8>) -> bool {
    &&& 0 < label.len() <= NAME_LABEL_MAX
    &&& forall|i: int| 0 <= i < label.len() ==> label_byte(label[i])
}

/// Whether a label is one a board will store.
///
/// The charset is what a name can be without needing an escape somewhere:
/// it travels through a scan list, a console line and a log file. An empty
/// label is not valid here - clearing a name is a separate case that
/// [`CFG_NAME`] checks for first.
pub fn valid_label(label: &[u8]) -> (r: bool)
    ensures
        r == is_label(label@),
{
    if label.len() == 0 || label.len() > NAME_LABEL_MAX {
        return false;
    }
    let mut i: usize = 0;
    while i < label.len()
        invariant
            i <= label@.len(),
            0 < label@.len() <= NAME_LABEL_MAX,
            forall|j: int| 0 <= j < i ==> label_byte(label@[j]),
        decreases label@.len() - i,
    {
        let b: u8 = label[i];
        let ok: bool = (0x30 <= b && b <= 0x39) || (0x41 <= b && b <= 0x5A) || (0x61 <= b && b <= 0x7A)
            || b == 0x2D || b == 0x5F;
        if !ok {
            assert(!label_byte(label@[i as int]));
            return false;
        }
        i += 1;
    }
    true
}

/// The lower-case hexadecimal digit of a nibble.
pub open spec fn hex_digit(n: u8) -> u8 {
    if n < 10 {
        (0x30 + n) as u8
    } else {
        (0x57 + n) as u8
    }
}

/// The two hexadecimal digits of a byte.
pub open spec fn hex_byte(b: u8) -> Seq<u8> {
    seq![hex_digit((b / 16) as u8), hex_digit((b % 16) as u8)]
}

fn hex(n: u8) -> (r: u8)
    requires
        n < 16,
    ensures
        r == hex_digit(n),
{
    if n < 10 {
        0x30 + n
    } else {
        0x57 + n
    }
}

/// What follows the prefix and the separator in a board's name.
pub open spec fn name_tail(label: Seq<u8>, addr: Seq<u8>) -> Seq<u8> {
    if is_label(label) {
        label
    } else {
        hex_byte(addr[1]) + hex_byte(addr[0])
    }
}

/// The name a board advertises under.
pub open spec fn full_name(label: Seq<u8>, addr: Seq<u8>) -> Seq<char> {
    "ws3gps-"@ + text::ascii_chars(name_tail(label, addr))
}

/// The name a board with this label and address advertises under, written
/// into `buf`.
///
/// An empty (or invalid) label is an unnamed board, which falls back to the
/// tail of its BLE address. `addr` is LSB-first, as the controller takes it,
/// and the two bytes used are the two a scanner prints last.
pub fn advertised_name<'a>(label: &str, addr: &[u8; 6], buf: &'a mut [u8; NAME_MAX]) -> (r: &'a str)
    ensures
        r@ == full_name(label.spec_bytes(), addr@),
{
    let ghost head: Seq<u8> = seq![0x77, 0x73, 0x33, 0x67, 0x70, 0x73, 0x2D];
    let ghost tail = name_tail(label.spec_bytes(), addr@);
    let prefix: [u8; 7] = [0x77, 0x73, 0x33, 0x67, 0x70, 0x73, NAME_SEP];
    put(buf, 0, &prefix);
    let n: usize;
    if valid_label(label.as_bytes()) {
        let name: &[u8] = label.as_bytes();
        put(buf, 7, name);
        n = 7 + name.len();
    } else {
        let a: u8 = addr[1];
        let b: u8 = addr[0];
        let tail4: [u8; 4] = [hex(a / 16), hex(a % 16), hex(b / 16), hex(b % 16)];
        assert(tail4@ =~= hex_byte(addr@[1]) + hex_byte(addr@[0]));
        put(buf, 7, &tail4);
        n = 11;
    }
    assert(buf@.subrange(0, n as int) =~= head + tail);
    assert(text::is_ascii_bytes(buf@.subrange(0, n as int)));
    proof {
        text::lemma_ascii_text(buf@.subrange(0, n as int));
        reveal_strlit("ws3gps-");
        assert(text::ascii_chars(head + tail) =~= "ws3gps-"@ + text::ascii_chars(tail));
    }
    match utf8(&buf[0..n]) {
        Some(s) => s,
        None => NAME_PREFIX,
    }
}

/// [`crate::link::Telemetry`] wire format, notify + read.
pub const TELEMETRY_UUID: &'static str = "c3a10005-9f6e-4b2c-8f5a-2e32c3b1e5d0";

/// [`TELEMETRY_UUID`] as a number.
pub const TELEMETRY_UUID_U128: u128 = 0xc3a10005_9f6e_4b2c_8f5a_2e32c3b1e5d0;

/// Bulk transfer (radio TOML config), write.
pub const BULK_UUID: &'static str = "c3a10006-9f6e-4b2c-8f5a-2e32c3b1e5d0";

/// [`BULK_UUID`] as a number.
pub const BULK_UUID_U128: u128 = 0xc3a10006_9f6e_4b2c_8f5a_2e32c3b1e5d0;

/// Remote position: `[src u8, rssi i16le, position 20B, age_s u16le]`, notify +
/// read. One notification per report received, not per tick.
pub const REMOTE_UUID: &'static str = "c3a10007-9f6e-4b2c-8f5a-2e32c3b1e5d0";

/// [`REMOTE_UUID`] as a number.
pub const REMOTE_UUID_U128: u128 = 0xc3a10007_9f6e_4b2c_8f5a_2e32c3b1e5d0;

/// Status/log line (ASCII), notify + read. Carries the latest line, up to
/// [`crate::link::LOG_MAX`] bytes.
pub const LOG_UUID: &'static str = "c3a10008-9f6e-4b2c-8f5a-2e32c3b1e5d0";

/// [`LOG_UUID`] as a number.
pub const LOG_UUID_U128: u128 = 0xc3a10008_9f6e_4b2c_8f5a_2e32c3b1e5d0;

/// Current device settings, readable so an app can populate its controls on
/// connect, and notified whenever a value changes.
pub const SETTINGS_UUID: &'static str = "c3a10009-9f6e-4b2c-8f5a-2e32c3b1e5d0";

/// [`SETTINGS_UUID`] as a number.
pub const SETTINGS_UUID_U128: u128 = 0xc3a10009_9f6e_4b2c_8f5a_2e32c3b1e5d0;

/// The board's current radio configuration as one
/// [`crate::radiocfg::RadioConfig`] read-back blob, read + notify.
pub const RADIO_CONFIG_UUID: &'static str = "c3a1000a-9f6e-4b2c-8f5a-2e32c3b1e5d0";

/// [`RADIO_CONFIG_UUID`] as a number.
pub const RADIO_CONFIG_UUID_U128: u128 = 0xc3a1000a_9f6e_4b2c_8f5a_2e32c3b1e5d0;

/// Remote node ping: `[src u8, rssi i16le, flags u8, uptime_s u16le, age_s
/// u16le]`, notify + read. What a node reports in place of a position while it
/// has no fix.
pub const NODE_PING_UUID: &'static str = "c3a1000b-9f6e-4b2c-8f5a-2e32c3b1e5d0";

/// [`NODE_PING_UUID`] as a number.
pub const NODE_PING_UUID_U128: u128 = 0xc3a1000b_9f6e_4b2c_8f5a_2e32c3b1e5d0;

/// The board's name as it advertises it (ASCII, up to [`NAME_MAX`] bytes),
/// read + notify. Set through [`CFG_NAME`].
pub const NAME_UUID: &'static str = "c3a1000c-9f6e-4b2c-8f5a-2e32c3b1e5d0";

/// [`NAME_UUID`] as a number.
pub const NAME_UUID_U128: u128 = 0xc3a1000c_9f6e_4b2c_8f5a_2e32c3b1e5d0;

/// Which node this board is on the LoRa network, and what it is called:
/// `[address u8, label zero-padded]`, read + notify. Address 0 means the radio
/// has not been configured yet; an empty label is a board never named.
pub const NODE_ID_UUID: &'static str = "c3a1000d-9f6e-4b2c-8f5a-2e32c3b1e5d0";

/// [`NODE_ID_UUID`] as a number.
pub const NODE_ID_UUID_U128: u128 = 0xc3a1000d_9f6e_4b2c_8f5a_2e32c3b1e5d0;

/// Bytes of a position packet inside a remote position value.
pub const POSITION_PACKET_LEN: usize = 20;

/// Smallest remote position value: src + rssi + packet. The length a reader
/// must accept, not the length the board sends (see [`REMOTE_LEN_V2`]).
pub const REMOTE_LEN: usize = 1 + 2 + POSITION_PACKET_LEN;

/// Remote position value as the board sends it: [`REMOTE_LEN`] followed by
/// the age field.
pub const REMOTE_LEN_V2: usize = REMOTE_LEN + 2;

/// Offset of the `age_s` field in a [`REMOTE_LEN_V2`] value.
pub const REMOTE_AGE_OFF: usize = REMOTE_LEN;

/// Node ping value length: the [`crate::link::PING_LEN`] payload plus the
/// same age field a remote position carries.
pub const NODE_PING_LEN: usize = crate::link::PING_LEN + 2;

/// Offset of the `age_s` field in a [`NODE_PING_LEN`] value.
pub const NODE_PING_AGE_OFF: usize = crate::link::PING_LEN;

/// Node id value length: the LoRa address and the padded label.
pub const NODE_ID_LEN: usize = 1 + NAME_FIELD_LEN;

/// Node name value length: the originating address and the padded label.
pub const NODE_NAME_LEN: usize = 1 + NAME_FIELD_LEN;

/// How the `age_s` field on [`REMOTE_UUID`] and [`NODE_PING_UUID`] reads:
/// seconds since the board heard the report, saturating here.
pub const AGE_MAX_S: u16 = 0xFFFF;

// -- Labels in a padded field -------------------------------------------------

/// A label zero-padded to [`NAME_FIELD_LEN`].
pub open spec fn padded(label: Seq<u8>) -> Seq<u8> {
    Seq::new(NAME_FIELD_LEN as nat, |i: int| if i < label.len() { label[i] } else { 0 })
}

/// Where a padded label stops, from `from` on: the first zero, and never
/// past the longest label.
pub open spec fn label_stop(f: Seq<u8>, from: int) -> int
    decreases NAME_LABEL_MAX - from,
{
    if from >= NAME_LABEL_MAX || f[from] == 0 {
        from
    } else {
        label_stop(f, from + 1)
    }
}

/// The label a padded field holds, empty where what it holds is not one.
pub open spec fn field_label(f: Seq<u8>) -> Seq<u8> {
    let t = f.take(label_stop(f, 0));
    if is_label(t) {
        t
    } else {
        Seq::empty()
    }
}

proof fn lemma_padded_stop(label: Seq<u8>, from: int)
    requires
        is_label(label),
        0 <= from <= label.len(),
    ensures
        label_stop(padded(label), from) == label.len(),
    decreases label.len() - from,
{
    if from < label.len() {
        assert(label_byte(label[from]));
        lemma_padded_stop(label, from + 1);
    }
}

/// A label laid into a padded field reads back as itself, and an empty field
/// as no label.
pub proof fn law_padded_label_round_trip(label: Seq<u8>)
    ensures
        is_label(label) ==> field_label(padded(label)) == label,
        field_label(padded(Seq::<u8>::empty())) == Seq::<u8>::empty(),
{
    if is_label(label) {
        lemma_padded_stop(label, 0);
        assert(padded(label).take(label.len() as int) =~= label);
    }
    let none = padded(Seq::<u8>::empty());
    assert(label_stop(none, 0) == 0);
    assert(none.take(0) =~= Seq::<u8>::empty());
}

/// A label's bytes are ASCII, so it is text.
pub proof fn lemma_label_is_text(label: Seq<u8>)
    requires
        is_label(label),
    ensures
        valid_utf8(label),
        decode_utf8(label) == text::ascii_chars(label),
{
    assert(text::is_ascii_bytes(label)) by {
        assert forall|i: int| 0 <= i < label.len() implies label[i] < 0x80 by {
            assert(label_byte(label[i]));
        }
    }
    text::lemma_ascii_text(label);
}

/// The label a padded field holds, `""` where what it holds is not one.
pub(crate) fn label_of(field: &[u8]) -> (r: &str)
    requires
        field@.len() == NAME_FIELD_LEN,
    ensures
        r.spec_bytes() == field_label(field@),
        r@ == text::ascii_chars(field_label(field@)),
{
    let mut end: usize = 0;
    while end < NAME_LABEL_MAX && field[end] != 0
        invariant
            field@.len() == NAME_FIELD_LEN,
            end <= NAME_LABEL_MAX,
            label_stop(field@, 0) == label_stop(field@, end as int),
        decreases NAME_LABEL_MAX - end,
    {
        end += 1;
    }
    let text: &[u8] = &field[0..end];
    assert(text@ =~= field@.take(label_stop(field@, 0)));
    if valid_label(text) {
        proof {
            lemma_label_is_text(text@);
        }
        match utf8(text) {
            Some(s) => {
                return s;
            },
            None => {},
        }
    }
    proof {
        reveal_strlit("");
        assert(""@ =~= Seq::<char>::empty());
        assert(text::ascii_chars(Seq::<u8>::empty()) =~= Seq::<char>::empty());
    }
    ""
}

/// The [`NODE_ID_UUID`] value for a board at `address` called `label`.
///
/// A label that is not one a board stores goes out empty rather than as
/// itself.
pub fn node_id(address: u8, label: &str) -> (r: [u8; NODE_ID_LEN])
    ensures
        r@ == id_value(address, label.spec_bytes()),
{
    let mut v: [u8; NODE_ID_LEN] = [0u8; NODE_ID_LEN];
    v[0] = address;
    if valid_label(label.as_bytes()) {
        put(&mut v, 1, label.as_bytes());
    }
    assert(v@ =~= seq![address] + padded(
        if is_label(label.spec_bytes()) { label.spec_bytes() } else { Seq::empty() },
    ));
    v
}

/// Read a [`NODE_ID_UUID`] value back as `(address, label)`.
///
/// `None` only for a value too short to be one. Trailing bytes are
/// tolerated. The label stops at its padding and reads as `""` unless it is
/// a label a board would store.
pub fn parse_node_id(v: &[u8]) -> (r: Option<(u8, &str)>)
    ensures
        r is None <==> v@.len() < NODE_ID_LEN,
        r matches Some((address, label)) ==> {
            &&& address == v@[0]
            &&& label.spec_bytes() == field_label(v@.subrange(1, NODE_ID_LEN as int))
        },
{
    if v.len() < NODE_ID_LEN {
        return None;
    }
    Some((v[0], label_of(&v[1..NODE_ID_LEN])))
}

/// A node id value reads back as the address and the label it was made from,
/// whatever follows it.
pub proof fn law_node_id_round_trip(address: u8, label: Seq<u8>, tail: Seq<u8>)
    requires
        is_label(label),
    ensures
        ({
            let v = seq![address] + padded(label) + tail;
            &&& v.len() >= NODE_ID_LEN
            &&& v[0] == address
            &&& field_label(v.subrange(1, NODE_ID_LEN as int)) == label
        }),
{
    let v = seq![address] + padded(label) + tail;
    assert(v.subrange(1, NODE_ID_LEN as int) =~= padded(label));
    law_padded_label_round_trip(label);
}

/// A label is letters, digits, dashes and underscores, one to fifteen of them.
pub proof fn law_what_a_label_is(label: Seq<u8>, b: u8)
    ensures
        label_byte(b) <==> ({
            let c = b as char;
            'a' <= c <= 'z' || 'A' <= c <= 'Z' || '0' <= c <= '9' || c == '-' || c == '_'
        }),
        label.len() == 0 ==> !is_label(label),
        label.len() > 15 ==> !is_label(label),
        1 <= label.len() <= 15 ==> (is_label(label) <==> forall|i: int|
            0 <= i < label.len() ==> #[trigger] label_byte(label[i])),
{
    if is_label(label) {
        assert forall|i: int| 0 <= i < label.len() implies #[trigger] label_byte(label[i]) by {}
    }
}

/// What a hexadecimal digit is worth.
pub open spec fn hex_value(d: u8) -> int {
    if '0' <= d as char <= '9' {
        d - 0x30
    } else if 'a' <= d as char <= 'f' {
        d - 0x61 + 10
    } else {
        -1
    }
}

/// An unnamed board is told by the tail of its address: two lower-case digits
/// for each of its two last-printed bytes, high byte first. A named one is
/// told by its label.
pub proof fn law_an_unnamed_board_shows_its_address(label: Seq<u8>, addr: Seq<u8>)
    ensures
        is_label(label) ==> name_tail(label, addr) == label,
        !is_label(label) ==> ({
            let t = name_tail(label, addr);
            &&& t.len() == 4
            &&& 0 <= hex_value(t[0]) < 16 && 0 <= hex_value(t[1]) < 16 && 0 <= hex_value(t[2]) < 16 && 0 <= hex_value(t[3])
                < 16
            &&& 16 * hex_value(t[0]) + hex_value(t[1]) == addr[1]
            &&& 16 * hex_value(t[2]) + hex_value(t[3]) == addr[0]
        }),
{
}

/// A name field holds its label from the front, and zeros to the end.
pub proof fn law_a_name_field_is_zero_padded(label: Seq<u8>, i: int)
    requires
        label.len() <= 15,
        0 <= i < 16,
    ensures
        padded(label).len() == 16,
        i < label.len() ==> padded(label)[i] == label[i],
        i >= label.len() ==> padded(label)[i] == 0,
{
}

proof fn lemma_label_stop(f: Seq<u8>, from: int, k: int)
    requires
        0 <= from <= k <= NAME_LABEL_MAX,
        forall|i: int| from <= i < k ==> f[i] != 0,
        k == NAME_LABEL_MAX || f[k] == 0,
    ensures
        label_stop(f, from) == k,
    decreases k - from,
{
    if from < k {
        assert(f[from] != 0);
        lemma_label_stop(f, from + 1, k);
    }
}

/// A name field reads as what stands before its first zero, if that is a
/// label, and as no name otherwise.
pub proof fn law_a_name_field_reads_to_its_first_zero(f: Seq<u8>, k: int)
    requires
        f.len() == 16,
        0 <= k <= 15,
        forall|i: int| 0 <= i < k ==> f[i] != 0,
        k == 15 || f[k] == 0,
    ensures
        is_label(f.take(k)) ==> field_label(f) == f.take(k),
        !is_label(f.take(k)) ==> field_label(f) == Seq::<u8>::empty(),
{
    lemma_label_stop(f, 0, k);
}

// -- Mode ---------------------------------------------------------------------

/// What the board is for right now.
#[derive(Clone, Copy, Debug, PartialEq, Eq, Hash, Structural)]
pub enum Mode {
    /// Everything the firmware can lower, lowered: deep sleep on the
    /// wake-check cadence. The default, and where an unattended board spends
    /// most of its life.
    Stored,
    /// Awake and connectable, but not tracking. Deliberately transient: it
    /// is never what reaches flash (see [`Mode::persisted`]).
    Idle,
    /// Tracking: GPS acquiring, positions out over LoRa, pings without a
    /// fix. Entered by command and left by command.
    Tracking,
    /// Listening: the node held next to the phone. GPS acquiring and the
    /// receiver up, nothing out on the air.
    Listening,
}

impl Default for Mode {
    fn default() -> (r: Self)
        ensures
            r is Stored,
    {
        Mode::Stored
    }
}

/// The value of a node's id: its address, and its label's field.
pub open spec fn id_value(address: u8, label: Seq<u8>) -> Seq<u8> {
    seq![address] + padded(
        if is_label(label) {
            label
        } else {
            Seq::empty()
        },
    )
}

impl Mode {
    /// What a mode is called.
    pub open spec fn words(self) -> Seq<char> {
        match self {
            Mode::Stored => "stored"@,
            Mode::Idle => "idle"@,
            Mode::Tracking => "tracking"@,
            Mode::Listening => "listening"@,
        }
    }

    /// The wire byte of a mode.
    pub open spec fn wire(self) -> u8 {
        match self {
            Mode::Stored => 0,
            Mode::Idle => 1,
            Mode::Tracking => 2,
            Mode::Listening => 3,
        }
    }

    /// The mode a wire byte names.
    pub open spec fn of_wire(v: u8) -> Option<Mode> {
        if v == 0 {
            Some(Mode::Stored)
        } else if v == 1 {
            Some(Mode::Idle)
        } else if v == 2 {
            Some(Mode::Tracking)
        } else if v == 3 {
            Some(Mode::Listening)
        } else {
            None
        }
    }

    /// The mode a wire byte names, the resting one where it names none.
    pub open spec fn of_wire_or_stored(v: u8) -> Mode {
        match Mode::of_wire(v) {
            Some(m) => m,
            None => Mode::Stored,
        }
    }

    /// The mode that reaches flash.
    pub open spec fn kept(self) -> Mode {
        if self is Idle {
            Mode::Stored
        } else {
            self
        }
    }

    /// Whether the GPS and the radio are up in this mode.
    pub open spec fn raised(self) -> bool {
        self is Tracking || self is Listening
    }

    /// Decode the wire byte. `None` for a value this firmware does not know.
    pub fn from_wire(v: u8) -> (r: Option<Self>)
        ensures
            r == Mode::of_wire(v),
            forall|m: Mode| r == Some(m) <==> m.wire() == v,
    {
        match v {
            0 => Some(Mode::Stored),
            1 => Some(Mode::Idle),
            2 => Some(Mode::Tracking),
            3 => Some(Mode::Listening),
            _ => None,
        }
    }

    /// The wire byte.
    pub fn as_wire(self) -> (r: u8)
        ensures
            r == self.wire(),
    {
        match self {
            Mode::Stored => 0,
            Mode::Idle => 1,
            Mode::Tracking => 2,
            Mode::Listening => 3,
        }
    }

    /// The mode's name.
    pub fn as_str(self) -> (r: &'static str)
        ensures
            r@ == self.words(),
    {
        match self {
            Mode::Stored => "stored",
            Mode::Idle => "idle",
            Mode::Tracking => "tracking",
            Mode::Listening => "listening",
        }
    }

    /// What this mode becomes on its way to flash: only the commanded
    /// working modes are worth surviving a power cycle, so idle persists as
    /// [`Mode::Stored`].
    pub fn persisted(self) -> (r: Self)
        ensures
            r == self.kept(),
            !(r is Idle),
    {
        match self {
            Mode::Idle => Mode::Stored,
            other => other,
        }
    }

    /// Whether the GPS, the radio and the card come up with the board.
    pub fn tracks(self) -> (r: bool)
        ensures
            r == self.raised(),
    {
        matches!(self, Mode::Tracking | Mode::Listening)
    }

    /// Whether the node puts anything on the air: beacons, pings and
    /// repeats. Listening is the mode that raises the radio and still says
    /// no here.
    pub fn transmits(self) -> (r: bool)
        ensures
            r == (self is Tracking),
    {
        matches!(self, Mode::Tracking)
    }
}

// -- Settings -----------------------------------------------------------------

/// Wire length of [`Settings`].
pub const SETTINGS_LEN: usize = 28;

/// Layout version in byte 0, so an app meeting a newer firmware can reject
/// the blob rather than misread it.
pub const SETTINGS_VERSION: u8 = 6;

/// Flag bit of [`Settings::radio_standby`]. Bit 0 is reserved.
pub const SFLAG_RADIO_STANDBY: u8 = 0x02;

/// Flag bit of [`Settings::gps_sleep`].
pub const SFLAG_GPS_SLEEP: u8 = 0x04;

/// Everything the config characteristic can set, in one readable blob.
#[derive(Clone, Copy, Debug, PartialEq, Eq, Hash, Structural)]
pub struct Settings {
    /// The radio is parked in standby ([`CFG_RADIO_STANDBY`]).
    pub radio_standby: bool,
    /// GPS backup mode ([`CFG_GPS_SLEEP`]).
    pub gps_sleep: bool,
    /// Wake-check interval ([`CFG_ESP_SLEEP_S`]), 0 = sleep disabled.
    pub sleep_interval_s: u32,
    /// Position notify interval in ms.
    pub notify_interval_ms: u32,
    /// Advertising window per wake check ([`CFG_ESP_ADV_WINDOW_S`]). Always
    /// the effective value, never 0.
    pub adv_window_s: u32,
    /// Seconds the BLE controller stays powered down between advertising
    /// windows ([`CFG_BLE_OFF_S`]), 0 = never take it down.
    pub ble_off_s: u32,
    /// What the board is doing right now ([`CFG_MODE`]).
    pub mode: Mode,
    /// Seconds [`Mode::Idle`] lasts before the board stores itself
    /// ([`CFG_IDLE_TIMEOUT_S`]), 0 = it never does.
    pub idle_timeout_s: u32,
    /// Seconds BLE stays up between off periods while tracking
    /// ([`CFG_BLE_ON_S`]). Always the effective value, never 0.
    pub ble_on_s: u32,
}

/// Settings with nothing set.
pub open spec fn settings_zero() -> Settings {
    Settings {
        radio_standby: false,
        gps_sleep: false,
        sleep_interval_s: 0,
        notify_interval_ms: 0,
        adv_window_s: 0,
        ble_off_s: 0,
        mode: Mode::Stored,
        idle_timeout_s: 0,
        ble_on_s: 0,
    }
}

impl Default for Settings {
    fn default() -> (r: Self)
        ensures
            r == settings_zero(),
    {
        Self {
            radio_standby: false,
            gps_sleep: false,
            sleep_interval_s: 0,
            notify_interval_ms: 0,
            adv_window_s: 0,
            ble_off_s: 0,
            mode: Mode::Stored,
            idle_timeout_s: 0,
            ble_on_s: 0,
        }
    }
}

/// The two override flags in one byte: bit 1 the radio, bit 2 the GPS.
pub open spec fn settings_flags(radio_standby: bool, gps_sleep: bool) -> u8 {
    ((if radio_standby { SFLAG_RADIO_STANDBY as int } else { 0 }) + (if gps_sleep { SFLAG_GPS_SLEEP as int } else { 0 })) as u8
}

/// The settings blob, byte by byte.
pub open spec fn settings_bytes(s: Settings) -> Seq<u8> {
    seq![
        SETTINGS_VERSION, settings_flags(s.radio_standby, s.gps_sleep), s.mode.wire(), 0,
        bytes::byte_of(s.sleep_interval_s, 0), bytes::byte_of(s.sleep_interval_s, 1), bytes::byte_of(s.sleep_interval_s, 2), bytes::byte_of(s.sleep_interval_s, 3),
        bytes::byte_of(s.notify_interval_ms, 0), bytes::byte_of(s.notify_interval_ms, 1), bytes::byte_of(s.notify_interval_ms, 2), bytes::byte_of(s.notify_interval_ms, 3),
        bytes::byte_of(s.adv_window_s, 0), bytes::byte_of(s.adv_window_s, 1), bytes::byte_of(s.adv_window_s, 2), bytes::byte_of(s.adv_window_s, 3),
        bytes::byte_of(s.ble_off_s, 0), bytes::byte_of(s.ble_off_s, 1), bytes::byte_of(s.ble_off_s, 2), bytes::byte_of(s.ble_off_s, 3),
        bytes::byte_of(s.idle_timeout_s, 0), bytes::byte_of(s.idle_timeout_s, 1), bytes::byte_of(s.idle_timeout_s, 2), bytes::byte_of(s.idle_timeout_s, 3),
        bytes::byte_of(s.ble_on_s, 0), bytes::byte_of(s.ble_on_s, 1), bytes::byte_of(s.ble_on_s, 2), bytes::byte_of(s.ble_on_s, 3),
    ]
}

/// What a settings blob says: `None` for a short buffer or an unknown layout
/// version, the resting mode for an unknown mode byte.
pub open spec fn settings_read(b: Seq<u8>) -> Option<Settings> {
    if b.len() < SETTINGS_LEN || b[0] != SETTINGS_VERSION {
        None
    } else {
        Some(Settings {
            radio_standby: b[1] / 2 % 2 == 1,
            gps_sleep: b[1] / 4 % 2 == 1,
            sleep_interval_s: bytes::le32_at(b, 4),
            notify_interval_ms: bytes::le32_at(b, 8),
            adv_window_s: bytes::le32_at(b, 12),
            ble_off_s: bytes::le32_at(b, 16),
            mode: Mode::of_wire_or_stored(b[2]),
            idle_timeout_s: bytes::le32_at(b, 20),
            ble_on_s: bytes::le32_at(b, 24),
        })
    }
}

impl Settings {
    /// The blob as it travels.
    pub fn encode(&self) -> (r: [u8; SETTINGS_LEN])
        ensures
            r@ == settings_bytes(*self),
    {
        let mut flags: u8 = 0;
        if self.radio_standby {
            flags = flags + SFLAG_RADIO_STANDBY;
        }
        if self.gps_sleep {
            flags = flags + SFLAG_GPS_SLEEP;
        }
        let sleep: [u8; 4] = u32_bytes(self.sleep_interval_s);
        let notify: [u8; 4] = u32_bytes(self.notify_interval_ms);
        let adv: [u8; 4] = u32_bytes(self.adv_window_s);
        let off: [u8; 4] = u32_bytes(self.ble_off_s);
        let idle: [u8; 4] = u32_bytes(self.idle_timeout_s);
        let on: [u8; 4] = u32_bytes(self.ble_on_s);
        let r: [u8; SETTINGS_LEN] = [
            SETTINGS_VERSION, flags, self.mode.as_wire(), 0,
            sleep[0], sleep[1], sleep[2], sleep[3],
            notify[0], notify[1], notify[2], notify[3],
            adv[0], adv[1], adv[2], adv[3],
            off[0], off[1], off[2], off[3],
            idle[0], idle[1], idle[2], idle[3],
            on[0], on[1], on[2], on[3],
        ];
        assert(r@ =~= settings_bytes(*self));
        r
    }

    /// Returns `None` for a short buffer or an unknown layout version. An
    /// unknown mode byte reads as the safe mode rather than refusing the
    /// whole blob.
    pub fn decode(b: &[u8]) -> (r: Option<Self>)
        ensures
            r == settings_read(b@),
    {
        if b.len() < SETTINGS_LEN || b[0] != SETTINGS_VERSION {
            return None;
        }
        let mode: Mode = match Mode::from_wire(b[2]) {
            Some(m) => m,
            None => Mode::Stored,
        };
        Some(Self {
            radio_standby: b[1] / 2 % 2 == 1,
            gps_sleep: b[1] / 4 % 2 == 1,
            sleep_interval_s: u32_at(b, 4),
            notify_interval_ms: u32_at(b, 8),
            adv_window_s: u32_at(b, 12),
            ble_off_s: u32_at(b, 16),
            mode,
            idle_timeout_s: u32_at(b, 20),
            ble_on_s: u32_at(b, 24),
        })
    }
}

/// Settings survive the wire, whatever follows the blob.
pub proof fn law_settings_round_trip(s: Settings, tail: Seq<u8>)
    ensures
        settings_read(settings_bytes(s) + tail) == Some(s),
{
    let b = settings_bytes(s) + tail;
    bytes::lemma_le32_read(b, 4, s.sleep_interval_s);
    bytes::lemma_le32_read(b, 8, s.notify_interval_ms);
    bytes::lemma_le32_read(b, 12, s.adv_window_s);
    bytes::lemma_le32_read(b, 16, s.ble_off_s);
    bytes::lemma_le32_read(b, 20, s.idle_timeout_s);
    bytes::lemma_le32_read(b, 24, s.ble_on_s);
}

/// Where each setting stands in the settings characteristic.
pub proof fn law_the_settings_are_laid_out(s: Settings)
    ensures
        ({
            let b = settings_bytes(s);
            &&& b.len() == 28 && b[0] == 6 && b[3] == 0
            &&& b[1] == (if s.radio_standby { 2int } else { 0 }) + (if s.gps_sleep { 4int } else { 0 })
            &&& b[2] == (match s.mode {
                Mode::Stored => 0int,
                Mode::Idle => 1,
                Mode::Tracking => 2,
                Mode::Listening => 3,
            })
            &&& bytes::le32_at(b, 4) == s.sleep_interval_s
            &&& bytes::le32_at(b, 8) == s.notify_interval_ms
            &&& bytes::le32_at(b, 12) == s.adv_window_s
            &&& bytes::le32_at(b, 16) == s.ble_off_s
            &&& bytes::le32_at(b, 20) == s.idle_timeout_s
            &&& bytes::le32_at(b, 24) == s.ble_on_s
        }),
{
    let b = settings_bytes(s);
    bytes::lemma_le32_read(b, 4, s.sleep_interval_s);
    bytes::lemma_le32_read(b, 8, s.notify_interval_ms);
    bytes::lemma_le32_read(b, 12, s.adv_window_s);
    bytes::lemma_le32_read(b, 16, s.ble_off_s);
    bytes::lemma_le32_read(b, 20, s.idle_timeout_s);
    bytes::lemma_le32_read(b, 24, s.ble_on_s);
}

/// Settings read byte by byte: any of this version and length, with a mode no
/// one has given a meaning read as stored and an unknown flag passed over.
pub proof fn law_settings_read_where_they_stand(b: Seq<u8>)
    ensures
        settings_read(b) is Some <==> b.len() >= 28 && b[0] == 6,
        settings_read(b) matches Some(s) ==> {
            &&& s.radio_standby <==> b[1] & 2 != 0
            &&& s.gps_sleep <==> b[1] & 4 != 0
            &&& s.mode is Idle <==> b[2] == 1
            &&& s.mode is Tracking <==> b[2] == 2
            &&& s.mode is Listening <==> b[2] == 3
            &&& s.sleep_interval_s == bytes::le32_at(b, 4)
            &&& s.notify_interval_ms == bytes::le32_at(b, 8)
            &&& s.adv_window_s == bytes::le32_at(b, 12)
            &&& s.ble_off_s == bytes::le32_at(b, 16)
            &&& s.idle_timeout_s == bytes::le32_at(b, 20)
            &&& s.ble_on_s == bytes::le32_at(b, 24)
        },
{
    let f = b[1];
    assert((f / 2 % 2 == 1 <==> f & 2 != 0) && (f / 4 % 2 == 1 <==> f & 4 != 0)) by (bit_vector);
}

/// Only tracking and listening raise the radio, and what a flat cell leaves of
/// a mode is the mode, but for idle, which comes back stored.
pub proof fn law_what_a_mode_means(m: Mode)
    ensures
        m.raised() <==> m.wire() >= 2,
        m.kept().wire() == (if m.wire() == 1 { 0int } else { m.wire() as int }),
        m.kept().kept() == m.kept(),
        Mode::of_wire(m.wire()) == Some(m),
        Mode::of_wire_or_stored(m.wire()) == m,
        forall|v: u8| v > 3 ==> #[trigger] Mode::of_wire_or_stored(v) is Stored,
{
}

// -- Config command ids ---------------------------------------------------------
//
// Ids 0x01-0x0F are reserved for the position protocol (0x01 = notify
// interval). Payload format is `[id, len, value]`; acks come back on the ack
// characteristic with the applied value. 0x10 is reserved: a write to it is
// refused as unknown.

/// `u8` 0/1: 1 puts the radio into standby, 0 brings it back to receive. An
/// override inside a tracking posture.
pub const CFG_RADIO_STANDBY: u8 = 0x11;

/// `u8` 0/1: GPS backup mode on/off.
pub const CFG_GPS_SLEEP: u8 = 0x12;

/// `u32` seconds: deep-sleep wake-check interval, i.e. the cadence
/// [`Mode::Stored`] runs on. 0 means the board never stores itself on its
/// own; one explicitly told to store itself borrows [`STORE_DEFAULT_S`].
pub const CFG_ESP_SLEEP_S: u8 = 0x13;

/// Floor for [`CFG_ESP_SLEEP_S`].
pub const ESP_SLEEP_MIN_S: u32 = 5;

/// Ceiling for [`CFG_ESP_SLEEP_S`]: the worst case for reaching a sleeping
/// board.
pub const ESP_SLEEP_MAX_S: u32 = 5 * 60;

/// The cadence a board told to store itself sleeps on when none is set.
pub const STORE_DEFAULT_S: u32 = 300;

/// `u32` seconds: how long each wake check advertises before going back to
/// deep sleep.
pub const CFG_ESP_ADV_WINDOW_S: u8 = 0x14;

/// Floor for [`CFG_ESP_ADV_WINDOW_S`].
pub const ESP_ADV_MIN_S: u32 = 1;

/// Ceiling for [`CFG_ESP_ADV_WINDOW_S`].
pub const ESP_ADV_MAX_S: u32 = 60;

/// What [`CFG_ESP_ADV_WINDOW_S`] means when never configured.
pub const ESP_ADV_DEFAULT_S: u32 = 15;

/// `u32` seconds: sleep *now*, for this long, and then come back. A command,
/// not a setting; 0 means "for the configured wake-check interval".
pub const CFG_SLEEP_NOW: u8 = 0x15;

/// `u32` seconds: how long the BLE controller stays powered down between
/// advertising windows while tracking. 0 disables it.
pub const CFG_BLE_OFF_S: u8 = 0x16;

/// Floor for a non-zero [`CFG_BLE_OFF_S`].
pub const BLE_OFF_MIN_S: u32 = 5;

/// Ceiling for [`CFG_BLE_OFF_S`].
pub const BLE_OFF_MAX_S: u32 = 5 * 60;

/// `u8`: the board's [`Mode`] - 0 stored, 1 idle, 2 tracking, 3 listening.
pub const CFG_MODE: u8 = 0x17;

/// `u32` seconds: how long [`Mode::Idle`] lasts before the board stores
/// itself. 0 turns that off, and 0 is the default.
pub const CFG_IDLE_TIMEOUT_S: u8 = 0x18;

/// Floor for a non-zero [`CFG_IDLE_TIMEOUT_S`].
pub const IDLE_TIMEOUT_MIN_S: u32 = 10;

/// Ceiling for [`CFG_IDLE_TIMEOUT_S`].
pub const IDLE_TIMEOUT_MAX_S: u32 = 60 * 60;

/// The timeout an app offers when it is switched on.
pub const IDLE_TIMEOUT_DEFAULT_S: u32 = 10 * 60;

/// ASCII label up to [`NAME_LABEL_MAX`] bytes: what this board is called. An
/// empty value clears the label; one outside [`valid_label`] is rejected.
pub const CFG_NAME: u8 = 0x19;

/// `u32` seconds: how long BLE stays up between off periods while tracking.
/// 0 means never configured and resolves to [`BLE_ON_DEFAULT_S`].
pub const CFG_BLE_ON_S: u8 = 0x1A;

/// Floor for [`CFG_BLE_ON_S`].
pub const BLE_ON_MIN_S: u32 = 1;

/// Ceiling for [`CFG_BLE_ON_S`].
pub const BLE_ON_MAX_S: u32 = 60;

/// What [`CFG_BLE_ON_S`] means when never configured.
pub const BLE_ON_DEFAULT_S: u32 = 15;

/// `[target u8, flags u8]`: call a sleeping node over LoRa. The flags are
/// [`crate::lora::WAKE_FLAG_TRACKING`] or nothing.
pub const CFG_WAKE: u8 = 0x1B;

/// What [`CFG_SLEEP_NOW`] with a value of 0 resolves to when sleep mode is
/// off.
pub const SLEEP_NOW_DEFAULT_S: u32 = 60;

/// The seconds a [`CFG_SLEEP_NOW`] request comes to.
pub open spec fn sleep_now_of(requested_s: u32, sleep_interval_s: u32) -> u32 {
    let asked = if requested_s != 0 {
        requested_s
    } else if sleep_interval_s != 0 {
        sleep_interval_s
    } else {
        SLEEP_NOW_DEFAULT_S
    };
    time::clamped(asked as int, ESP_SLEEP_MIN_S as int, ESP_SLEEP_MAX_S as int) as u32
}

/// Resolve a [`CFG_SLEEP_NOW`] request into the seconds the board will
/// actually sleep for.
pub fn resolve_sleep_now(requested_s: u32, sleep_interval_s: u32) -> (r: u32)
    ensures
        r == sleep_now_of(requested_s, sleep_interval_s),
{
    let secs: u32 = match (requested_s, sleep_interval_s) {
        (0, 0) => SLEEP_NOW_DEFAULT_S,
        (0, cadence) => cadence,
        (asked, _) => asked,
    };
    if secs < ESP_SLEEP_MIN_S {
        ESP_SLEEP_MIN_S
    } else if secs > ESP_SLEEP_MAX_S {
        ESP_SLEEP_MAX_S
    } else {
        secs
    }
}

/// A sleep asked for is the sleep given: a request inside the bounds resolves
/// to itself whatever the cadence, one outside to the bound it is past, and
/// only a request of none depends on the cadence.
pub proof fn law_the_sleep_asked_for_is_the_sleep_given(requested_s: u32, cadence_s: u32, other_s: u32)
    ensures
        5 <= requested_s <= 300 ==> sleep_now_of(requested_s, cadence_s) == requested_s,
        0 < requested_s < 5 ==> sleep_now_of(requested_s, cadence_s) == 5,
        requested_s > 300 ==> sleep_now_of(requested_s, cadence_s) == 300,
        requested_s != 0 ==> sleep_now_of(requested_s, cadence_s) == sleep_now_of(requested_s, other_s),
        cadence_s != 0 ==> sleep_now_of(0, cadence_s) == sleep_now_of(cadence_s, other_s),
        sleep_now_of(0, 0) == 60,
{
}

// -- Bulk transfer protocol (writes on [`BULK_UUID`]) ---------------------------

/// Bulk op: `[OP_BEGIN, kind u8, total_len u32le, crc32 u32le, version
/// u16le]`.
pub const OP_BEGIN: u8 = 0x01;

/// Bulk op: `[OP_DATA, seq u16le, bytes...]`.
pub const OP_DATA: u8 = 0x02;

/// Bulk op: `[OP_END]`.
pub const OP_END: u8 = 0x03;

/// Bulk op: `[OP_ABORT]`.
pub const OP_ABORT: u8 = 0x04;

/// Bulk kind: radio TOML config, applied live and saved. Kind 2 is retired.
pub const KIND_TOML: u8 = 1;

/// Bulk kind: an application image for the inactive OTA slot, written
/// straight through to flash as it arrives.
pub const KIND_OTA: u8 = 3;

/// Ack id used for bulk transfer status on the ack characteristic.
pub const ACK_ID_BULK: u8 = 0x20;

/// Ack status: the board refused for a reason of its own rather than the
/// op's - no update slots, an image too big, a flash write that failed.
pub const ACK_BOARD_ERROR: u8 = 0x10;

/// Ack status: the op does not fit the transfer's state - another transport
/// owns one, or there is none for this op to act on. 0x11 is reserved.
pub const ACK_BAD_STATE: u8 = 0x12;

/// Max data bytes per OP_DATA write.
pub const BULK_DATA_MAX: usize = 192;

/// Longest write any characteristic in this protocol takes: an `OP_DATA`
/// frame, which is [`BULK_DATA_MAX`] behind a three-byte `[op, seq u16le]`
/// header.
pub const WRITE_MAX: usize = 3 + BULK_DATA_MAX;

/// Longest write the config characteristic takes: `[id, len, value]` with
/// the longest value any id defines, which is a [`CFG_NAME`] label.
pub const CONFIG_WRITE_MAX: usize = 2 + NAME_LABEL_MAX;

/// The settings of a blob nobody has filled in: every duration at nothing, no
/// override, stored.
pub proof fn law_blank_settings_are_nothing()
    ensures
        ({
            let s = settings_zero();
            &&& !s.radio_standby && !s.gps_sleep && s.mode is Stored
            &&& s.sleep_interval_s == 0 && s.notify_interval_ms == 0 && s.adv_window_s == 0
            &&& s.ble_off_s == 0 && s.idle_timeout_s == 0 && s.ble_on_s == 0
        }),
{
}

/// A board advertises the fleet's name, a dash, and its own label or the end of
/// its address.
pub proof fn law_a_name_starts_with_the_fleets(label: Seq<u8>, addr: Seq<u8>, i: int)
    ensures
        full_name(label, addr).take(7) == "ws3gps-"@,
        full_name(label, addr).len() == 7 + name_tail(label, addr).len(),
        0 <= i < name_tail(label, addr).len() ==> full_name(label, addr)[7 + i] == name_tail(label, addr)[i] as char,
{
    reveal_strlit("ws3gps-");
    assert("ws3gps-"@.len() == 7);
    assert(full_name(label, addr).take(7) =~= "ws3gps-"@);
}

/// A node id is the address and then the label's field, blank for a board whose
/// label is none.
pub proof fn law_a_node_id_is_laid_out(address: u8, label: Seq<u8>, i: int)
    requires
        0 <= i < 16,
    ensures
        id_value(address, label).len() == 17,
        id_value(address, label)[0] == address,
        is_label(label) ==> field_label(id_value(address, label).subrange(1, 17)) == label,
        !is_label(label) ==> id_value(address, label)[1 + i] == 0,
{
    if is_label(label) {
        law_node_id_round_trip(address, label, Seq::empty());
        assert(seq![address] + padded(label) + Seq::<u8>::empty() =~= id_value(address, label));
    }
}

/// What each mode is called.
pub proof fn law_what_a_mode_is_called()
    ensures
        Mode::Stored.words() == "stored"@ && Mode::Idle.words() == "idle"@,
        Mode::Tracking.words() == "tracking"@ && Mode::Listening.words() == "listening"@,
{
}

} // verus!
