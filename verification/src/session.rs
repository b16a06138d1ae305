//! What a BLE session does to the board: how a config write lands in the
//! settings, what the settings characteristic reports back, and when an
//! unattended board sleeps between advertising windows.
//!
//! Everything here is pure. The firmware supplies the clock and performs the
//! effects ([`Action`]); nothing below touches a timer, flash or radio.

use vstd::prelude::*;
use crate::ack::{Ack, AckStatus, Echo, Refusal};
use crate::ble;
use crate::ble::{label_of, resolve_sleep_now, valid_label, Mode, Settings, NAME_FIELD_LEN};
use crate::bytes;
use crate::bytes::{put, u32_at, u32_bytes};
use crate::link;
use crate::link::crc32;
use crate::lora;
use crate::posture::Request;
use crate::radiocfg::PowerConfig;

pub mod knobs;

pub use knobs::{Knob, KnobSpec, Zero, BLE_ON_AT, KNOBS};

verus! {

// -- Settings that survive a sleep and a power cycle -----------------------------

/// The radio was asked into standby: an override inside a tracking posture,
/// honored whenever tracking is next commanded.
pub const PFLAG_RADIO_STANDBY: u32 = 0x02;

/// The GPS was asked to enter backup mode: the other override.
pub const PFLAG_GPS_SLEEP: u32 = 0x04;

/// Whether the flag of weight `flag` is among `flags`.
pub open spec fn has_flag(flags: u32, flag: u32) -> bool {
    flags as int / (flag as int) % 2 == 1
}

/// `flags` with the flag of weight `flag` set or cleared.
pub open spec fn with_flag(flags: u32, flag: u32, on: bool) -> u32 {
    if has_flag(flags, flag) == on {
        flags
    } else if on {
        (flags + flag) as u32
    } else {
        (flags - flag) as u32
    }
}

/// The two override flags are independent: each is what it was last set to,
/// and setting one leaves the other.
pub proof fn law_the_overrides_are_independent(flags: u32, on: bool)
    ensures
        has_flag(with_flag(flags, PFLAG_RADIO_STANDBY, on), PFLAG_RADIO_STANDBY) == on,
        has_flag(with_flag(flags, PFLAG_RADIO_STANDBY, on), PFLAG_GPS_SLEEP) == has_flag(flags, PFLAG_GPS_SLEEP),
        has_flag(with_flag(flags, PFLAG_GPS_SLEEP, on), PFLAG_GPS_SLEEP) == on,
        has_flag(with_flag(flags, PFLAG_GPS_SLEEP, on), PFLAG_RADIO_STANDBY) == has_flag(flags, PFLAG_RADIO_STANDBY),
        !has_flag(flags, PFLAG_RADIO_STANDBY) ==> flags + PFLAG_RADIO_STANDBY <= u32::MAX,
        has_flag(flags, PFLAG_RADIO_STANDBY) ==> flags >= PFLAG_RADIO_STANDBY,
        !has_flag(flags, PFLAG_GPS_SLEEP) ==> flags + PFLAG_GPS_SLEEP <= u32::MAX,
        has_flag(flags, PFLAG_GPS_SLEEP) ==> flags >= PFLAG_GPS_SLEEP,
{
    lemma_standby_flag(flags, on);
    lemma_gps_flag(flags, on);
}

proof fn lemma_standby_flag(flags: u32, on: bool)
    ensures
        has_flag(with_flag(flags, PFLAG_RADIO_STANDBY, on), PFLAG_RADIO_STANDBY) == on,
        has_flag(with_flag(flags, PFLAG_RADIO_STANDBY, on), PFLAG_GPS_SLEEP) == has_flag(flags, PFLAG_GPS_SLEEP),
        !has_flag(flags, PFLAG_RADIO_STANDBY) ==> flags + PFLAG_RADIO_STANDBY <= u32::MAX,
        has_flag(flags, PFLAG_RADIO_STANDBY) ==> flags >= PFLAG_RADIO_STANDBY,
{
    let q = flags as int / 8;
    let r = flags as int % 8;
    lemma_low_bits(q, r);
    lemma_low_bits(q, r + 2);
    lemma_low_bits(q, r - 2);
    assert(flags == 8 * q + r);
    assert(r == 0 || r == 1 || r == 2 || r == 3 || r == 4 || r == 5 || r == 6 || r == 7);
}

proof fn lemma_gps_flag(flags: u32, on: bool)
    ensures
        has_flag(with_flag(flags, PFLAG_GPS_SLEEP, on), PFLAG_GPS_SLEEP) == on,
        has_flag(with_flag(flags, PFLAG_GPS_SLEEP, on), PFLAG_RADIO_STANDBY) == has_flag(flags, PFLAG_RADIO_STANDBY),
        !has_flag(flags, PFLAG_GPS_SLEEP) ==> flags + PFLAG_GPS_SLEEP <= u32::MAX,
        has_flag(flags, PFLAG_GPS_SLEEP) ==> flags >= PFLAG_GPS_SLEEP,
{
    let q = flags as int / 8;
    let r = flags as int % 8;
    lemma_low_bits(q, r);
    lemma_low_bits(q, r + 4);
    lemma_low_bits(q, r - 4);
    assert(flags == 8 * q + r);
    assert(r == 0 || r == 1 || r == 2 || r == 3 || r == 4 || r == 5 || r == 6 || r == 7);
}

/// The second and third bits of a number are those of its remainder by eight.
proof fn lemma_low_bits(q: int, r: int)
    ensures
        (8 * q + r) / 2 % 2 == r / 2 % 2,
        (8 * q + r) / 4 % 2 == r / 4 % 2,
{
    assert((8 * q + r) / 2 == 4 * q + r / 2);
    assert((8 * q + r) / 4 == 2 * q + r / 4);
}

/// Everything a config write can change that outlives the connection, in the
/// words the firmware keeps in RTC RAM and mirrors to flash.
///
/// The notify interval is deliberately not here: it is per-session state that
/// resets with the board (see [`Action::NotifyInterval`]).
///
/// The five durations are read through [`Stored::knob`], which resolves a
/// stored zero the way its [`KnobSpec`] says; the fields hold the raw stored
/// values.
#[derive(Clone, Copy, Debug, PartialEq, Eq, Hash)]
pub struct Stored {
    pub sleep_interval_s: u32,
    /// `PFLAG_*` bits.
    pub flags: u32,
    pub adv_window_s: u32,
    pub ble_off_s: u32,
    /// What the board is doing, and - once [`Mode::persisted`] has had it -
    /// what it comes back doing after a flat cell.
    ///
    /// The RTC copy holds the live mode, [`Mode::Idle`] included; only
    /// [`Stored::encode_record`] normalizes it, so flash never says idle.
    pub mode: Mode,
    pub idle_timeout_s: u32,
    pub ble_on_s: u32,
    /// What the board is called ([`ble::CFG_NAME`]), zero-padded ASCII.
    ///
    /// All-zero is a board that has never been named, which advertises under
    /// its address instead. Read it through [`Stored::label`], which is where
    /// the padding stops.
    pub name: [u8; NAME_FIELD_LEN],
}

/// The name field that holds `bytes`.
pub open spec fn name_field(bytes: Seq<u8>) -> [u8; NAME_FIELD_LEN] {
    [
        bytes[0], bytes[1], bytes[2], bytes[3], bytes[4], bytes[5], bytes[6], bytes[7], bytes[8], bytes[9], bytes[10],
        bytes[11], bytes[12], bytes[13], bytes[14], bytes[15],
    ]
}

/// A field is the one that holds what it holds.
pub proof fn lemma_name_field(a: [u8; NAME_FIELD_LEN])
    ensures
        name_field(a@) == a,
{
    let b = name_field(a@);
    assert(b@ =~= a@);
    assert(b =~= a);
}

/// The settings of a board nobody has configured.
pub open spec fn unconfigured() -> Stored {
    Stored {
        sleep_interval_s: 0,
        flags: 0,
        adv_window_s: 0,
        ble_off_s: 0,
        mode: Mode::Stored,
        idle_timeout_s: 0,
        ble_on_s: 0,
        name: name_field(ble::padded(Seq::empty())),
    }
}

impl Default for Stored {
    fn default() -> (r: Self)
        ensures
            r == unconfigured(),
    {
        Self::new()
    }
}

impl Stored {
    /// The raw value of a knob.
    pub open spec fn raw(self, knob: Knob) -> u32 {
        match knob {
            Knob::SleepInterval => self.sleep_interval_s,
            Knob::AdvWindow => self.adv_window_s,
            Knob::BleOff => self.ble_off_s,
            Knob::IdleTimeout => self.idle_timeout_s,
            Knob::BleOn => self.ble_on_s,
        }
    }

    /// The settings with a knob's raw value at `v`.
    pub open spec fn with_raw(self, knob: Knob, v: u32) -> Stored {
        match knob {
            Knob::SleepInterval => Stored { sleep_interval_s: v, ..self },
            Knob::AdvWindow => Stored { adv_window_s: v, ..self },
            Knob::BleOff => Stored { ble_off_s: v, ..self },
            Knob::IdleTimeout => Stored { idle_timeout_s: v, ..self },
            Knob::BleOn => Stored { ble_on_s: v, ..self },
        }
    }

    /// A duration as the board uses it.
    pub open spec fn used(self, knob: Knob) -> u32 {
        knob.meant(self.raw(knob))
    }

    /// The settings under a label.
    pub open spec fn named(self, label: Seq<u8>) -> Stored {
        Stored { name: name_field(ble::padded(label)), ..self }
    }

    /// The settings once a label was offered, and whether it was taken.
    pub open spec fn relabelled(self, label: Seq<u8>) -> (Stored, bool) {
        if label.len() == 0 || ble::is_label(label) {
            (self.named(label), true)
        } else {
            (self, false)
        }
    }

    /// Whether the radio is asked into standby.
    pub open spec fn standing_by(self) -> bool {
        has_flag(self.flags, PFLAG_RADIO_STANDBY)
    }

    /// Whether the receiver is asked into backup.
    pub open spec fn backed_up(self) -> bool {
        has_flag(self.flags, PFLAG_GPS_SLEEP)
    }

    /// The cadence a board told to store itself sleeps on.
    pub open spec fn cadence(self) -> u32 {
        if self.sleep_interval_s == 0 {
            ble::STORE_DEFAULT_S
        } else {
            self.sleep_interval_s
        }
    }

    /// How long the board advertises before something is decided.
    pub open spec fn budget(self) -> u32 {
        match self.mode {
            Mode::Stored => self.used(Knob::AdvWindow),
            Mode::Listening => self.used(Knob::AdvWindow),
            Mode::Tracking => self.used(Knob::BleOn),
            Mode::Idle => if self.used(Knob::IdleTimeout) == 0 {
                self.used(Knob::AdvWindow)
            } else {
                self.used(Knob::IdleTimeout)
            },
        }
    }

    /// What happens when that budget runs out.
    pub open spec fn expiring(self) -> Next {
        match self.mode {
            Mode::Stored => Next::Sleep { interval_s: self.cadence() },
            Mode::Idle => if self.used(Knob::IdleTimeout) == 0 || self.sleep_interval_s == 0 {
                Next::Advertise { bounded: false }
            } else {
                Next::Sleep { interval_s: self.sleep_interval_s }
            },
            Mode::Tracking => if self.ble_off_s == 0 {
                Next::Advertise { bounded: false }
            } else {
                Next::BleDown { off_s: self.ble_off_s }
            },
            Mode::Listening => Next::Advertise { bounded: false },
        }
    }

    /// The settings blob that reports this board.
    pub open spec fn reported(self, notify_interval_ms: u32) -> Settings {
        Settings {
            radio_standby: self.standing_by(),
            gps_sleep: self.backed_up(),
            sleep_interval_s: self.used(Knob::SleepInterval),
            notify_interval_ms,
            adv_window_s: self.used(Knob::AdvWindow),
            ble_off_s: self.used(Knob::BleOff),
            mode: self.mode,
            idle_timeout_s: self.used(Knob::IdleTimeout),
            ble_on_s: self.used(Knob::BleOn),
        }
    }

    /// A knob of these settings once a file has asked for what it asks.
    pub open spec fn adopting(self, p: PowerConfig, knob: Knob) -> u32 {
        match p.asked(knob) {
            Some(v) => v,
            None => self.raw(knob),
        }
    }

    /// These settings once a file has asked for what it asks.
    pub open spec fn adopted(self, p: PowerConfig) -> Stored {
        Stored {
            sleep_interval_s: self.adopting(p, Knob::SleepInterval),
            adv_window_s: self.adopting(p, Knob::AdvWindow),
            ble_off_s: self.adopting(p, Knob::BleOff),
            idle_timeout_s: self.adopting(p, Knob::IdleTimeout),
            ble_on_s: self.adopting(p, Knob::BleOn),
            ..self
        }
    }

    /// A board nobody has configured. The mode is the resting one, not the
    /// one a board comes up in (see [`boot_mode`]).
    pub fn new() -> (r: Self)
        ensures
            r == unconfigured(),
    {
        let name: [u8; NAME_FIELD_LEN] = [0; NAME_FIELD_LEN];
        proof {
            assert(name@ =~= ble::padded(Seq::empty()));
            lemma_name_field(name);
        }
        Self {
            sleep_interval_s: 0,
            flags: 0,
            adv_window_s: 0,
            ble_off_s: 0,
            mode: Mode::Stored,
            idle_timeout_s: 0,
            ble_on_s: 0,
            name,
        }
    }

    /// The stored label, or `""` for a board that has never been named.
    ///
    /// Padding stops at the first zero byte. Anything that is not a valid
    /// label reads as unnamed rather than as itself.
    pub fn label(&self) -> (r: &str)
        ensures
            r@ == crate::text::ascii_chars(ble::field_label(self.name@)),
    {
        label_of(self.name.as_slice())
    }

    /// Store a label, or clear it with an empty one. Returns whether the
    /// value was accepted; a rejected write leaves the old name in place.
    pub fn set_label(&mut self, label: &[u8]) -> (r: bool)
        ensures
            (*final(self), r) == old(self).relabelled(label@),
    {
        if label.len() != 0 && !valid_label(label) {
            return false;
        }
        let mut name: [u8; NAME_FIELD_LEN] = [0; NAME_FIELD_LEN];
        put(&mut name, 0, label);
        proof {
            assert(name@ =~= ble::padded(label@));
            lemma_name_field(name);
        }
        self.name = name;
        true
    }

    /// Whether the radio is asked into standby.
    pub fn radio_standby(&self) -> (r: bool)
        ensures
            r == self.standing_by(),
    {
        self.flags / PFLAG_RADIO_STANDBY % 2 == 1
    }

    /// Whether the receiver is asked into backup.
    pub fn gps_sleep(&self) -> (r: bool)
        ensures
            r == self.backed_up(),
    {
        self.flags / PFLAG_GPS_SLEEP % 2 == 1
    }

    /// A duration as the board uses it: a stored zero resolved the way the
    /// knob's row says.
    pub fn knob(&self, knob: Knob) -> (r: u32)
        ensures
            r == self.used(knob),
    {
        let spec: KnobSpec = knob.spec();
        spec.resolve(spec.get(self))
    }

    /// A duration as stored, zero included.
    pub fn knob_raw(&self, knob: Knob) -> (r: u32)
        ensures
            r == self.raw(knob),
    {
        knob.spec().get(self)
    }

    /// Store a duration, already clamped by [`KnobSpec::clamp`] or checked by
    /// [`KnobSpec::accepts`].
    pub fn set_knob(&mut self, knob: Knob, v: u32)
        ensures
            *final(self) == old(self).with_raw(knob, v),
    {
        knob.spec().set(self, v);
    }

    /// How long a wake check advertises for. A stored 0 means never
    /// configured, not "do not advertise".
    pub fn adv_window(&self) -> (r: u32)
        ensures
            r == self.used(Knob::AdvWindow),
    {
        self.knob(Knob::AdvWindow)
    }

    /// How long [`Mode::Idle`] runs before the board stores itself, 0 for a
    /// board that never does.
    pub fn idle_timeout(&self) -> (r: u32)
        ensures
            r == self.used(Knob::IdleTimeout),
    {
        self.knob(Knob::IdleTimeout)
    }

    /// How long BLE stays up between off periods while tracking. A stored 0
    /// means never configured and resolves to the default.
    pub fn ble_on(&self) -> (r: u32)
        ensures
            r == self.used(Knob::BleOn),
    {
        self.knob(Knob::BleOn)
    }

    /// The cadence a board that has been *told* to store itself sleeps on: an
    /// explicit command is an unambiguous instruction, so a missing cadence
    /// is borrowed rather than read as a refusal.
    pub fn sleep_cadence(&self) -> (r: u32)
        ensures
            r == self.cadence(),
    {
        if self.sleep_interval_s == 0 {
            ble::STORE_DEFAULT_S
        } else {
            self.sleep_interval_s
        }
    }

    /// How long the board advertises before [`Stored::at_expiry`] decides
    /// something, which is a different budget in each mode.
    ///
    /// A mode whose budget never bites - listening, or idle with the timeout
    /// off - is given the advertising window to fill the field.
    pub fn budget_s(&self) -> (r: u32)
        ensures
            r == self.budget(),
    {
        match self.mode {
            Mode::Stored => self.adv_window(),
            Mode::Listening => self.adv_window(),
            Mode::Tracking => self.ble_on(),
            Mode::Idle => {
                let idle: u32 = self.idle_timeout();
                if idle == 0 {
                    self.adv_window()
                } else {
                    idle
                }
            },
        }
    }

    /// What happens when that budget runs out.
    ///
    /// Which duty cycle applies is a property of the mode rather than a race
    /// between two settings. A wake check always goes back down; idle is the
    /// passive path, and keeps advertising with the timeout off or no cadence
    /// to sleep on; a tracker never deep-sleeps on a cadence, and can drop
    /// the modem; a listening board duty-cycles nothing.
    pub fn at_expiry(&self) -> (r: Next)
        ensures
            r == self.expiring(),
    {
        match self.mode {
            Mode::Stored => Next::Sleep { interval_s: self.sleep_cadence() },
            Mode::Idle => {
                if self.idle_timeout() == 0 || self.sleep_interval_s == 0 {
                    Next::forever()
                } else {
                    Next::Sleep { interval_s: self.sleep_interval_s }
                }
            },
            Mode::Tracking => {
                if self.ble_off_s == 0 {
                    Next::forever()
                } else {
                    Next::BleDown { off_s: self.ble_off_s }
                }
            },
            Mode::Listening => Next::forever(),
        }
    }

    /// Set or clear one of the override flags.
    pub fn set_flag(&mut self, flag: u32, on: bool)
        requires
            flag == PFLAG_RADIO_STANDBY || flag == PFLAG_GPS_SLEEP,
        ensures
            *final(self) == (Stored { flags: with_flag(old(self).flags, flag, on), ..*old(self) }),
    {
        proof {
            law_the_overrides_are_independent(self.flags, on);
        }
        let has: bool = self.flags / flag % 2 == 1;
        if has != on {
            if on {
                self.flags = self.flags + flag;
            } else {
                self.flags = self.flags - flag;
            }
        }
    }

    /// The settings characteristic value, which is the only way an app learns
    /// the board's current state on connect. Every duration goes out
    /// resolved, so an app never sees a "never configured" zero.
    pub fn settings(&self, notify_interval_ms: u32) -> (r: Settings)
        ensures
            r == self.reported(notify_interval_ms),
    {
        Settings {
            radio_standby: self.radio_standby(),
            gps_sleep: self.gps_sleep(),
            sleep_interval_s: self.knob(Knob::SleepInterval),
            notify_interval_ms,
            adv_window_s: self.knob(Knob::AdvWindow),
            ble_off_s: self.knob(Knob::BleOff),
            mode: self.mode,
            idle_timeout_s: self.knob(Knob::IdleTimeout),
            ble_on_s: self.knob(Knob::BleOn),
        }
    }

    /// Fold a config file's `[power]` section into these settings, and say
    /// whether that changed anything - which is what decides whether the
    /// caller pays for a flash write.
    ///
    /// Only the keys the file actually carried are applied.
    pub fn adopt_power(&mut self, p: &PowerConfig) -> (r: bool)
        ensures
            *final(self) == old(self).adopted(*p),
            r <==> *final(self) != *old(self),
    {
        let before: Stored = *self;
        if let Some(v) = p.get(Knob::SleepInterval) {
            self.sleep_interval_s = v;
        }
        if let Some(v) = p.get(Knob::AdvWindow) {
            self.adv_window_s = v;
        }
        if let Some(v) = p.get(Knob::BleOff) {
            self.ble_off_s = v;
        }
        if let Some(v) = p.get(Knob::IdleTimeout) {
            self.idle_timeout_s = v;
        }
        if let Some(v) = p.get(Knob::BleOn) {
            self.ble_on_s = v;
        }
        self.sleep_interval_s != before.sleep_interval_s || self.adv_window_s != before.adv_window_s || self.ble_off_s
            != before.ble_off_s || self.idle_timeout_s != before.idle_timeout_s || self.ble_on_s != before.ble_on_s
    }
}

/// What the board should do right now.
#[derive(Clone, Copy, Debug, PartialEq, Eq, Hash, Structural)]
pub enum Next {
    /// Keep advertising. `bounded` says the budget ends in something, so the
    /// wait for a central is cut at [`Window::remaining_ms`]; unbounded is a
    /// board that advertises forever, and then the wait has no deadline.
    Advertise { bounded: bool },
    /// Deep sleep for this many seconds, which is the board going to
    /// [`Mode::Stored`].
    Sleep { interval_s: u32 },
    /// Take the BLE modem down for this many seconds and come back.
    ///
    /// [`Mode::Tracking`] only. Costs no reset and stops nothing else.
    BleDown { off_s: u32 },
}

impl Next {
    /// Advertise with no end: what a spent budget resolves to in a mode that
    /// has no duty cycle.
    pub fn forever() -> (r: Next)
        ensures
            r == (Next::Advertise { bounded: false }),
    {
        Next::Advertise { bounded: false }
    }

    /// Whether this is advertising, bounded or not.
    pub fn advertises(self) -> (r: bool)
        ensures
            r == (self is Advertise),
    {
        matches!(self, Next::Advertise { .. })
    }
}

// -- The flash record ------------------------------------------------------------

/// Marks the record as this firmware's ("midA").
pub const RECORD_MAGIC: u32 = 0x6D69_6441;

/// Layout version of the flash record.
///
/// Version 2 dropped a separate stow interval; a version 1 record is discarded
/// rather than misread. Every version since has been a pure append - the
/// advertising window (3), the BLE off period (4), the mode and its idle
/// timeout (5), the name (6), the BLE on period (7) - so an older record still
/// reads. Which knob a version carries is the `since` column of the table.
pub const RECORD_VERSION: u32 = 7;

/// magic, version, sleep interval, flags, advertising window, BLE off period,
/// mode, idle timeout, name, BLE on period, crc32. Every field is a `u32` or a
/// multiple of one, so the length is already a multiple of the flash write
/// word.
pub const RECORD_LEN: usize = BLE_ON_AT + 8;

/// Where the crc sits in a record of `version`: the length that version's
/// layout had before it, or `None` for a version this build cannot read.
pub open spec fn crc_at(version: u32) -> Option<int> {
    if version == 2 {
        Some(16)
    } else if version == 3 {
        Some(20)
    } else if version == 4 {
        Some(24)
    } else if version == 5 {
        Some(32)
    } else if version == 6 {
        Some(BLE_ON_AT as int)
    } else if version == RECORD_VERSION {
        Some(RECORD_LEN - 4)
    } else {
        None
    }
}

/// The fields of a record of `version`, up to where that version's layout
/// ends.
pub open spec fn record_body(s: Stored, version: u32) -> Seq<u8> {
    (bytes::le32(RECORD_MAGIC) + bytes::le32(version) + bytes::le32(s.sleep_interval_s) + bytes::le32(s.flags)
        + bytes::le32(s.adv_window_s) + bytes::le32(s.ble_off_s) + bytes::le32(s.mode.kept().wire() as u32)
        + bytes::le32(s.idle_timeout_s) + s.name@ + bytes::le32(s.ble_on_s)).take(crc_at(version)->0)
}

/// A record of `version`: its fields and the crc over them.
pub open spec fn record_bytes(s: Stored, version: u32) -> Seq<u8> {
    let body = record_body(s, version);
    body + bytes::le32(link::crc32_of(body))
}

/// What a record of `version` carries of a knob.
pub open spec fn knob_read(b: Seq<u8>, version: u32, knob: Knob) -> u32 {
    if knob.row().since <= version {
        bytes::le32_at(b, knob.row().record_at as int)
    } else {
        0
    }
}

/// What a flash record says: `None` for anything that is not one.
pub open spec fn record_read(b: Seq<u8>) -> Option<Stored> {
    let version = bytes::le32_at(b, 4);
    if b.len() < RECORD_LEN || bytes::le32_at(b, 0) != RECORD_MAGIC || crc_at(version) is None || bytes::le32_at(
        b,
        crc_at(version)->0,
    ) != link::crc32_of(b.take(crc_at(version)->0)) {
        None
    } else {
        Some(
            Stored {
                sleep_interval_s: knob_read(b, version, Knob::SleepInterval),
                flags: bytes::le32_at(b, 12),
                adv_window_s: knob_read(b, version, Knob::AdvWindow),
                ble_off_s: knob_read(b, version, Knob::BleOff),
                // A mode this build does not know reads as the safe one.
                mode: if version >= 5 {
                    Mode::of_wire_or_stored(b[24])
                } else {
                    Mode::Stored
                },
                idle_timeout_s: knob_read(b, version, Knob::IdleTimeout),
                ble_on_s: knob_read(b, version, Knob::BleOn),
                name: name_field(
                    if version >= 6 {
                        b.subrange(32, 32 + NAME_FIELD_LEN as int)
                    } else {
                        ble::padded(Seq::empty())
                    },
                ),
            },
        )
    }
}

/// What of `s` a record of `version` carries; the rest reads as never
/// configured, and idle never reaches flash.
pub open spec fn carried(s: Stored, version: u32) -> Stored {
    Stored {
        sleep_interval_s: s.sleep_interval_s,
        flags: s.flags,
        adv_window_s: if version >= 3 {
            s.adv_window_s
        } else {
            0
        },
        ble_off_s: if version >= 4 {
            s.ble_off_s
        } else {
            0
        },
        mode: if version >= 5 {
            s.mode.kept()
        } else {
            Mode::Stored
        },
        idle_timeout_s: if version >= 5 {
            s.idle_timeout_s
        } else {
            0
        },
        ble_on_s: if version >= 7 {
            s.ble_on_s
        } else {
            0
        },
        name: if version >= 6 {
            s.name
        } else {
            name_field(ble::padded(Seq::empty()))
        },
    }
}

/// Where the crc sits in a record of `version`.
fn record_crc_at(version: u32) -> (r: Option<usize>)
    ensures
        r is Some <==> crc_at(version) is Some,
        r matches Some(i) ==> crc_at(version) == Some(i as int) && 16 <= i <= RECORD_LEN - 4,
{
    match version {
        2 => Some(16),
        3 => Some(20),
        4 => Some(24),
        5 => Some(32),
        6 => Some(BLE_ON_AT),
        7 => Some(RECORD_LEN - 4),
        _ => None,
    }
}

impl Stored {
    /// Encode the flash record. The mode is normalized on the way out, and
    /// only here.
    pub fn encode_record(&self) -> (r: [u8; RECORD_LEN])
        ensures
            r@ == record_bytes(*self, RECORD_VERSION),
    {
        let mut rec: [u8; RECORD_LEN] = [0; RECORD_LEN];
        put(&mut rec, 0, u32_bytes(RECORD_MAGIC).as_slice());
        put(&mut rec, 4, u32_bytes(RECORD_VERSION).as_slice());
        put(&mut rec, 8, u32_bytes(self.sleep_interval_s).as_slice());
        put(&mut rec, 12, u32_bytes(self.flags).as_slice());
        put(&mut rec, 16, u32_bytes(self.adv_window_s).as_slice());
        put(&mut rec, 20, u32_bytes(self.ble_off_s).as_slice());
        put(&mut rec, 24, u32_bytes(self.mode.persisted().as_wire() as u32).as_slice());
        put(&mut rec, 28, u32_bytes(self.idle_timeout_s).as_slice());
        put(&mut rec, 32, self.name.as_slice());
        put(&mut rec, BLE_ON_AT, u32_bytes(self.ble_on_s).as_slice());
        let ghost body = record_body(*self, RECORD_VERSION);
        let crc: u32 = crc32(&rec.as_slice()[0..RECORD_LEN - 4]);
        assert(rec@.subrange(0, RECORD_LEN - 4) =~= body);
        put(&mut rec, RECORD_LEN - 4, u32_bytes(crc).as_slice());
        assert(rec@ =~= record_bytes(*self, RECORD_VERSION));
        rec
    }

    /// Read a flash record back. `None` for anything that is not one: a short
    /// read, erased flash, another program's bytes, a version this build does
    /// not understand, or a record the crc rejects. The board then comes up
    /// unconfigured rather than acting on garbage.
    pub fn decode_record(rec: &[u8]) -> (r: Option<Self>)
        ensures
            r == record_read(rec@),
    {
        if rec.len() < RECORD_LEN {
            return None;
        }
        if u32_at(rec, 0) != RECORD_MAGIC {
            return None;
        }
        let version: u32 = u32_at(rec, 4);
        let at: usize = match record_crc_at(version) {
            Some(at) => at,
            None => {
                return None;
            },
        };
        assert(rec@.subrange(0, at as int) =~= rec@.take(at as int));
        if u32_at(rec, at) != crc32(&rec[0..at]) {
            return None;
        }
        let mut s: Stored = Self::new();
        s.sleep_interval_s = u32_at(rec, 8);
        s.flags = u32_at(rec, 12);
        if version >= 3 {
            s.adv_window_s = u32_at(rec, 16);
        }
        if version >= 4 {
            s.ble_off_s = u32_at(rec, 20);
        }
        if version >= 5 {
            s.mode = match Mode::from_wire(rec[24]) {
                Some(m) => m,
                None => Mode::Stored,
            };
            s.idle_timeout_s = u32_at(rec, 28);
        }
        if version >= 6 {
            let mut name: [u8; NAME_FIELD_LEN] = [0; NAME_FIELD_LEN];
            put(&mut name, 0, &rec[32..32 + NAME_FIELD_LEN]);
            proof {
                assert(name@ =~= rec@.subrange(32, 32 + NAME_FIELD_LEN as int));
                lemma_name_field(name);
            }
            s.name = name;
        }
        if version >= 7 {
            s.ble_on_s = u32_at(rec, BLE_ON_AT);
        }
        Some(s)
    }
}

/// A record reads back what was written into it - all of it in the layout
/// this firmware writes, and in an older one what that layout had, with
/// everything newer at "never configured" - whatever the flash holds past it.
/// A board updated in the field keeps the cadence it was left on. Idle never
/// reaches flash.
pub proof fn law_a_record_round_trips(s: Stored, version: u32, tail: Seq<u8>)
    requires
        2 <= version <= RECORD_VERSION,
        record_bytes(s, version).len() + tail.len() >= RECORD_LEN,
    ensures
        record_read(record_bytes(s, version) + tail) == Some(carried(s, version)),
        carried(s, RECORD_VERSION) == (Stored { mode: s.mode.kept(), ..s }),
        !(carried(s, version).mode is Idle),
{
    let at = crc_at(version)->0;
    let body = record_body(s, version);
    let b = record_bytes(s, version) + tail;
    assert(body.len() == at);
    assert(b.take(at) =~= body);
    assert forall|i: int| 0 <= i < at implies b[i] == body[i] by {}
    bytes::lemma_le32_slice(b, at, link::crc32_of(body));
    bytes::lemma_le32_slice(b, 0, RECORD_MAGIC);
    bytes::lemma_le32_slice(b, 4, version);
    bytes::lemma_le32_slice(b, 8, s.sleep_interval_s);
    bytes::lemma_le32_slice(b, 12, s.flags);
    if version >= 3 {
        bytes::lemma_le32_slice(b, 16, s.adv_window_s);
    }
    if version >= 4 {
        bytes::lemma_le32_slice(b, 20, s.ble_off_s);
    }
    if version >= 5 {
        bytes::lemma_le32_slice(b, 28, s.idle_timeout_s);
        assert(b[24] == s.mode.kept().wire()) by {
            reveal(bytes::byte_of);
        }
    }
    if version >= 6 {
        assert(b.subrange(32, 32 + NAME_FIELD_LEN as int) =~= s.name@);
        lemma_name_field(s.name);
    }
    if version >= 7 {
        bytes::lemma_le32_slice(b, BLE_ON_AT as int, s.ble_on_s);
    }
}

/// A record with any one byte changed is refused, unless the byte is the one
/// that says which older layout to read it by.
pub proof fn law_a_changed_record_is_refused(s: Stored, tail: Seq<u8>, k: int, v: u8)
    requires
        0 <= k < RECORD_LEN,
        record_bytes(s, RECORD_VERSION)[k] != v,
        k == 4 ==> crc_at(v as u32) is None,
    ensures
        record_read(record_bytes(s, RECORD_VERSION).update(k, v) + tail) is None,
{
    let body = record_body(s, RECORD_VERSION);
    let good = record_bytes(s, RECORD_VERSION) + tail;
    let bad = record_bytes(s, RECORD_VERSION).update(k, v) + tail;
    let at = RECORD_LEN - 4;
    assert(body.len() == at);
    assert(bad =~= good.update(k, v));
    assert(good.take(at) =~= body);
    bytes::lemma_le32_slice(good, at, link::crc32_of(body));
    bytes::lemma_le32_slice(good, 4, RECORD_VERSION);
    if 4 <= k < 8 {
        assert(crc_at(bytes::le32_at(bad, 4)) is None) by {
            reveal(bytes::le32_at);
            assert(good[4] == RECORD_VERSION && good[5] == 0 && good[6] == 0 && good[7] == 0);
        }
    } else {
        assert(bytes::le32_at(bad, 4) == RECORD_VERSION) by {
            reveal(bytes::le32_at);
        }
        if k < at {
            link::law_crc32_notices_a_changed_byte(body, k, v);
            assert(bad.take(at) =~= body.update(k, v));
            assert(bytes::le32_at(bad, at) == bytes::le32_at(good, at)) by {
                reveal(bytes::le32_at);
            }
        } else {
            bytes::lemma_le32_changed(good, at, k, v);
            assert(bad.take(at) =~= body);
        }
    }
}

// -- Config characteristic writes ------------------------------------------------

/// The position protocol's notify interval, in ms: the one config id the board
/// answers for that protocol.
pub const CFG_UPDATE_INTERVAL_MS: u8 = 0x01;

/// What the firmware still has to do once [`apply`] has folded a config write
/// into the settings.
#[derive(Clone, Copy, Debug, PartialEq, Eq, Structural)]
pub enum Action {
    /// Put the radio into standby (`true`) or bring it back.
    RadioStandby(bool),
    /// Put the GPS into (`true`) or out of backup mode.
    GpsSleep(bool),
    /// A duration is now this many seconds. Already stored and clamped; the
    /// loops read it when they next decide.
    Knob(Knob, u32),
    /// Deep sleep now, for this many seconds, then resume as configured.
    ///
    /// A command rather than a settings change: nothing was stored. The
    /// firmware must get the ack out before it acts.
    SleepNow(u32),
    /// Set the position notify interval, in ms, already clamped. Not
    /// persisted: it is per-session state.
    NotifyInterval(u32),
    /// Put the board into this mode. Already folded into the settings.
    /// [`Mode::Stored`] is a command like [`Action::SleepNow`]: the ack must
    /// leave before the board acts.
    SetMode(Mode),
    /// The board has been renamed - or, with an empty label, un-named and
    /// back to advertising under its address. Already stored.
    Name,
    /// Call `target` over LoRa: a burst of wake frames on its sentry
    /// preamble, ending at its answer. `tracking` asks it to come up tracking
    /// rather than idle. Nothing stored.
    WakeNode { target: u8, tracking: bool },
    /// Nothing to do - the write was rejected, and the ack says why.
    Nothing,
}

/// The result of one write to the config characteristic.
#[derive(Clone, Copy, Debug, PartialEq, Eq, Structural)]
pub struct Outcome {
    /// What the firmware must carry out.
    pub action: Action,
    /// Ack to notify back on the ack characteristic.
    pub ack: Ack,
    /// Whether the change has to reach flash to mean anything: set for the
    /// settings that decide whether a board comes back at all after its
    /// battery goes flat - the durations, the mode, the name.
    pub save: bool,
}

/// A write that was applied.
pub open spec fn accepted(action: Action, save: bool, id: u8, echo: Echo) -> Outcome {
    Outcome { action, ack: Ack { id, status: AckStatus::Applied, echo }, save }
}

/// A write that was refused.
pub open spec fn refused(id: u8, status: AckStatus) -> Outcome {
    Outcome { action: Action::Nothing, ack: Ack { id, status, echo: Echo::Empty }, save: false }
}

fn accept(action: Action, save: bool, id: u8, echo: Echo) -> (r: Outcome)
    ensures
        r == accepted(action, save, id, echo),
{
    Outcome { action, ack: Ack { id, status: AckStatus::Applied, echo }, save }
}

fn refuse(id: u8, status: AckStatus) -> (r: Outcome)
    ensures
        r == refused(id, status),
{
    Outcome { action: Action::Nothing, ack: Ack { id, status, echo: Echo::Empty }, save: false }
}

/// The value of a write `[id, len, value]`: empty where the length runs past
/// the write.
pub open spec fn write_value(data: Seq<u8>) -> Seq<u8> {
    if 2 + data[1] <= data.len() {
        data.subrange(2, 2 + data[1])
    } else {
        Seq::empty()
    }
}

/// Whether a flag id's value sets the flag: an absent value clears it.
pub open spec fn sets(value: Seq<u8>) -> bool {
    value.len() > 0 && value[0] != 0
}

/// The second byte of a wake write, zero where it has none.
pub open spec fn wake_flags(value: Seq<u8>) -> u8 {
    if value.len() > 1 {
        value[1]
    } else {
        0
    }
}

/// Whether wake flags ask the node to come up tracking.
pub open spec fn wake_tracks(flags: u8) -> bool {
    flags as int / (lora::WAKE_FLAG_TRACKING as int) % 2 == 1
}

/// A write of a duration.
pub open spec fn knob_written(s: Stored, knob: Knob, id: u8, value: Seq<u8>) -> (Stored, Outcome) {
    let secs = knob.kept(bytes::le32_at(value, 0));
    if value.len() == 4 {
        (s.with_raw(knob, secs), accepted(Action::Knob(knob, secs), true, id, Echo::Word(secs)))
    } else {
        (s, refused(id, AckStatus::BadValue))
    }
}

/// A write the position protocol answers: the interval it makes of the write,
/// or its refusal.
pub open spec fn passed_on(s: Stored, data: Seq<u8>, fallback: Result<u32, Refusal>) -> (Stored, Outcome) {
    (
        s,
        match fallback {
            Ok(ms) => accepted(Action::NotifyInterval(ms), false, CFG_UPDATE_INTERVAL_MS, Echo::Word(ms)),
            Err(refusal) => refused(
                if data.len() > 0 {
                    data[0]
                } else {
                    0
                },
                refusal.acked(),
            ),
        },
    )
}

/// What a config write makes of the settings, and what comes of it.
pub open spec fn applied(s: Stored, data: Seq<u8>, fallback: Result<u32, Refusal>) -> (Stored, Outcome) {
    let id = data[0];
    let value = write_value(data);
    if data.len() < 2 {
        passed_on(s, data, fallback)
    } else if Knob::of_id(id) is Some {
        knob_written(s, Knob::of_id(id)->0, id, value)
    } else if id == ble::CFG_RADIO_STANDBY {
        (
            Stored { flags: with_flag(s.flags, PFLAG_RADIO_STANDBY, sets(value)), ..s },
            accepted(Action::RadioStandby(sets(value)), false, id, Echo::One(if sets(value) { 1 } else { 0 })),
        )
    } else if id == ble::CFG_GPS_SLEEP {
        (
            Stored { flags: with_flag(s.flags, PFLAG_GPS_SLEEP, sets(value)), ..s },
            accepted(Action::GpsSleep(sets(value)), false, id, Echo::One(if sets(value) { 1 } else { 0 })),
        )
    } else if id == ble::CFG_MODE {
        // Refused rather than rounded: every value is a different amount of
        // the board switched off.
        if value.len() > 0 && Mode::of_wire(value[0]) is Some {
            let mode = Mode::of_wire(value[0])->0;
            (Stored { mode, ..s }, accepted(Action::SetMode(mode), true, id, Echo::One(mode.wire())))
        } else {
            (s, refused(id, AckStatus::BadValue))
        }
    } else if id == ble::CFG_NAME {
        // An empty value clears the name; anything else has to be a label the
        // board can advertise. A refused write leaves the old name alone.
        if value.len() == 0 || ble::is_label(value) {
            (s.named(value), accepted(Action::Name, true, id, Echo::One(value.len() as u8)))
        } else {
            (s, refused(id, AckStatus::BadValue))
        }
    } else if id == ble::CFG_WAKE {
        if value.len() > 0 {
            (
                s,
                accepted(
                    Action::WakeNode { target: value[0], tracking: wake_tracks(wake_flags(value)) },
                    false,
                    id,
                    Echo::Two(value[0], wake_flags(value)),
                ),
            )
        } else {
            (s, refused(id, AckStatus::BadValue))
        }
    } else if id == ble::CFG_SLEEP_NOW {
        // A nap is not a cadence: the settings are left alone.
        if value.len() == 4 {
            let secs = ble::sleep_now_of(bytes::le32_at(value, 0), s.sleep_interval_s);
            (s, accepted(Action::SleepNow(secs), false, id, Echo::Word(secs)))
        } else {
            (s, refused(id, AckStatus::BadValue))
        }
    } else {
        passed_on(s, data, fallback)
    }
}

/// Apply one config characteristic write to the stored settings.
///
/// Board-specific ids are handled here; anything else falls through to the
/// position protocol, so the app that predates this board keeps working
/// against it: `fallback` is what that protocol makes of the same bytes, the
/// notify interval it clamps to or why it refuses. Writes are
/// applied before the hardware has moved - the flag is set, the request is
/// queued - because the settings characteristic has to report what the app
/// asked for.
pub fn apply(stored: &mut Stored, data: &[u8], fallback: Result<u32, Refusal>) -> (r: Outcome)
    ensures
        (*final(stored), r) == applied(*old(stored), data@, fallback),
{
    if data.len() >= 2 {
        let id: u8 = data[0];
        let len: usize = data[1] as usize;
        let value: &[u8] = if 2 + len <= data.len() {
            &data[2..2 + len]
        } else {
            &data[0..0]
        };
        assert(value@ =~= write_value(data@));
        if let Some(knob) = Knob::from_id(id) {
            if value.len() != 4 {
                return refuse(id, AckStatus::BadValue);
            }
            let secs: u32 = knob.spec().clamp(u32_at(value, 0));
            stored.set_knob(knob, secs);
            return accept(Action::Knob(knob, secs), true, id, Echo::Word(secs));
        }
        let set: bool = value.len() > 0 && value[0] != 0;
        if id == ble::CFG_RADIO_STANDBY {
            stored.set_flag(PFLAG_RADIO_STANDBY, set);
            return accept(Action::RadioStandby(set), false, id, Echo::One(if set { 1 } else { 0 }));
        }
        if id == ble::CFG_GPS_SLEEP {
            stored.set_flag(PFLAG_GPS_SLEEP, set);
            return accept(Action::GpsSleep(set), false, id, Echo::One(if set { 1 } else { 0 }));
        }
        if id == ble::CFG_MODE {
            if value.len() > 0 {
                if let Some(mode) = Mode::from_wire(value[0]) {
                    stored.mode = mode;
                    return accept(Action::SetMode(mode), true, id, Echo::One(mode.as_wire()));
                }
            }
            return refuse(id, AckStatus::BadValue);
        }
        if id == ble::CFG_NAME {
            if !stored.set_label(value) {
                return refuse(id, AckStatus::BadValue);
            }
            return accept(Action::Name, true, id, Echo::One(value.len() as u8));
        }
        if id == ble::CFG_WAKE {
            if value.len() == 0 {
                return refuse(id, AckStatus::BadValue);
            }
            let target: u8 = value[0];
            let flags: u8 = if value.len() > 1 { value[1] } else { 0 };
            let tracking: bool = flags / lora::WAKE_FLAG_TRACKING % 2 == 1;
            return accept(Action::WakeNode { target, tracking }, false, id, Echo::Two(target, flags));
        }
        if id == ble::CFG_SLEEP_NOW {
            if value.len() != 4 {
                return refuse(id, AckStatus::BadValue);
            }
            let secs: u32 = resolve_sleep_now(u32_at(value, 0), stored.sleep_interval_s);
            return accept(Action::SleepNow(secs), false, id, Echo::Word(secs));
        }
    }
    match fallback {
        Ok(ms) => accept(Action::NotifyInterval(ms), false, CFG_UPDATE_INTERVAL_MS, Echo::Word(ms)),
        Err(refusal) => refuse(
            if data.len() > 0 {
                data[0]
            } else {
                0
            },
            refusal.status(),
        ),
    }
}

/// A write is acked as applied exactly where the board has something to do
/// for it. A refused one changes nothing, and so does a command: only a
/// duration, an override, a mode or a name moves the settings, each its own
/// and no other. What is saved is what decides whether a board comes back.
pub proof fn law_a_write_moves_what_it_names(s: Stored, data: Seq<u8>, fallback: Result<u32, Refusal>)
    ensures
        ({
            let (t, out) = applied(s, data, fallback);
            &&& out.action is Nothing <==> !(out.ack.status is Applied)
            &&& out.action is Nothing || out.action is SleepNow || out.action is NotifyInterval || out.action is WakeNode
                ==> t == s && !out.save
            &&& out.action matches Action::Knob(k, v) ==> t == s.with_raw(k, v) && out.save && t.used(k) == v
            &&& out.action is RadioStandby || out.action is GpsSleep ==> t == (Stored { flags: t.flags, ..s }) && !out.save
            &&& out.action matches Action::RadioStandby(on) ==> t.standing_by() == on && t.backed_up() == s.backed_up()
            &&& out.action matches Action::GpsSleep(on) ==> t.backed_up() == on && t.standing_by() == s.standing_by()
            &&& out.action matches Action::SetMode(m) ==> t == (Stored { mode: m, ..s }) && out.save
            &&& out.action is Name ==> t == (Stored { name: t.name, ..s }) && out.save
        }),
{
    law_the_overrides_are_independent(s.flags, sets(write_value(data)));
    if let Some(k) = Knob::of_id(data[0]) {
        knobs::law_a_written_value_is_the_one_used(k, bytes::le32_at(write_value(data), 0));
    }
}

/// The ack says what the board did: it answers the id that was written, an
/// applied one carries the value as it was stored or resolved, and one that
/// moved nothing is not an applied setting.
pub proof fn law_the_ack_says_what_was_stored(s: Stored, data: Seq<u8>, fallback: Result<u32, Refusal>)
    ensures
        ({
            let (t, out) = applied(s, data, fallback);
            &&& data.len() > 0 && !(out.action is NotifyInterval) ==> out.ack.id == data[0]
            &&& out.action matches Action::Knob(k, v) ==> Knob::of_id(data[0]) == Some(k) && out.ack.echo == Echo::Word(
                t.raw(k),
            )
            &&& out.action is RadioStandby ==> out.ack.echo == Echo::One(if t.standing_by() { 1 } else { 0 })
            &&& out.action is GpsSleep ==> out.ack.echo == Echo::One(if t.backed_up() { 1 } else { 0 })
            &&& out.action is SetMode ==> out.ack.echo == Echo::One(t.mode.wire())
            &&& out.action matches Action::SleepNow(secs) ==> out.ack.echo == Echo::Word(secs)
            &&& out.action matches Action::NotifyInterval(ms) ==> out.ack.id == CFG_UPDATE_INTERVAL_MS && out.ack.echo
                == Echo::Word(ms)
            &&& t != s ==> out.ack.status is Applied
        }),
{
    law_the_overrides_are_independent(s.flags, sets(write_value(data)));
}

/// A name written is the name read, and it survives the record.
pub proof fn law_a_name_written_is_the_name_read(s: Stored, label: Seq<u8>)
    requires
        ble::is_label(label),
    ensures
        ble::field_label(s.named(label).name@) == label,
        ble::field_label(carried(s.named(label), RECORD_VERSION).name@) == label,
        ble::field_label(s.named(Seq::empty()).name@) == Seq::<u8>::empty(),
{
    lemma_padded_field(label);
    lemma_padded_field(Seq::empty());
    ble::law_padded_label_round_trip(label);
}

/// There is a name field for every padded label, so what it holds is the
/// label.
proof fn lemma_padded_field(label: Seq<u8>)
    requires
        label.len() <= ble::NAME_LABEL_MAX,
    ensures
        name_field(ble::padded(label))@ == ble::padded(label),
{
    assert(name_field(ble::padded(label))@ =~= ble::padded(label));
}

// -- The wake / advertise / sleep cycle ------------------------------------------

/// How long the board keeps advertising after a central disconnects, before
/// the sleep-mode budget runs out.
pub const LINGER_S: u64 = 5;

/// Which mode a boot comes up in.
pub open spec fn booting(persisted: Mode, woke_from_sleep: bool) -> Mode {
    if persisted.raised() {
        persisted
    } else if woke_from_sleep {
        Mode::Stored
    } else {
        Mode::Idle
    }
}

/// Which mode this boot comes up in, from the persisted mode and the wake
/// cause.
///
/// Tracking and listening survive the reset, whichever kind it was. A timer
/// wake with anything else stored is a wake check. Any other cold boot gets a
/// rescue window.
pub fn boot_mode(persisted: Mode, woke_from_sleep: bool) -> (r: Mode)
    ensures
        r == booting(persisted, woke_from_sleep),
{
    match persisted {
        Mode::Tracking => Mode::Tracking,
        Mode::Listening => Mode::Listening,
        _ => {
            if woke_from_sleep {
                Mode::Stored
            } else {
                Mode::Idle
            }
        },
    }
}

/// `ms` past `now_ms`, held at the end of the clock.
pub open spec fn later(now_ms: u64, ms: int) -> u64 {
    if now_ms + ms > u64::MAX {
        u64::MAX
    } else {
        (now_ms + ms) as u64
    }
}

/// The deadline of a window of `secs` seconds opened now.
pub open spec fn opened(now_ms: u64, secs: u32) -> u64 {
    later(now_ms, secs * 1000)
}

/// The deadline of a linger that begins now.
pub open spec fn lingering(now_ms: u64) -> u64 {
    later(now_ms, LINGER_S * 1000)
}

/// How much of a budget is left, nothing once it is spent.
pub open spec fn left(ends_ms: u64, now_ms: u64) -> int {
    if ends_ms > now_ms {
        ends_ms - now_ms
    } else {
        0
    }
}

/// What a deadline means at `now_ms`: keep advertising, bounded where the end
/// of the budget decides something, or do that.
pub open spec fn deciding(ends_ms: u64, now_ms: u64, stored: Stored) -> Next {
    if ends_ms > now_ms {
        Next::Advertise { bounded: !(stored.expiring() is Advertise) }
    } else {
        stored.expiring()
    }
}

/// The deadline after a disconnect: idle restarts the whole timeout, every
/// other mode lingers.
pub open spec fn rearmed(now_ms: u64, stored: Stored) -> u64 {
    if stored.mode is Idle {
        later(now_ms, stored.budget() * 1000)
    } else {
        later(now_ms, LINGER_S * 1000)
    }
}

/// The deadline after a failed connect attempt: held open for the retry, and
/// never shortened.
pub open spec fn held_open(ends_ms: u64, now_ms: u64) -> u64 {
    if ends_ms > later(now_ms, LINGER_S * 1000) {
        ends_ms
    } else {
        later(now_ms, LINGER_S * 1000)
    }
}

/// The advertising budget for one wake, held as a deadline rather than as a
/// per-attempt timeout.
///
/// Every path that restarts advertising asks this again, and none of them may
/// extend the window. A deadline cannot be restarted by a retry; only a
/// disconnect ([`Window::linger`]) sets a new one. The view is the deadline.
#[derive(Clone, Copy, Debug, PartialEq, Eq, Hash)]
pub struct Window {
    ends_ms: u64,
}

impl View for Window {
    type V = u64;

    closed spec fn view(&self) -> u64 {
        self.ends_ms
    }
}

impl Window {
    /// Start the budget for a wake that begins now.
    ///
    /// The window length is sampled once for the wake rather than read per
    /// attempt, so a window shortened over BLE takes effect on the next wake.
    pub fn new(now_ms: u64, adv_window_s: u32) -> (r: Self)
        ensures
            r@ == opened(now_ms, adv_window_s),
    {
        Self { ends_ms: now_ms.saturating_add(adv_window_s as u64 * 1000) }
    }

    /// When the budget runs out, on the caller's monotonic millisecond clock.
    pub fn ends_ms(&self) -> (r: u64)
        ensures
            r == self@,
    {
        self.ends_ms
    }

    /// How much of the budget is left, 0 once it is spent.
    pub fn remaining_ms(&self, now_ms: u64) -> (r: u64)
        ensures
            r == left(self@, now_ms),
    {
        self.ends_ms.saturating_sub(now_ms)
    }

    /// Advertise, or do whatever this mode does with a spent budget.
    ///
    /// The settings are passed in per call rather than captured, so a cadence
    /// or a mode changed over BLE takes effect at the next decision. A spent
    /// budget that resolves to "keep advertising" never arms a zero-length
    /// wait.
    pub fn next(&self, now_ms: u64, stored: &Stored) -> (r: Next)
        ensures
            r == deciding(self@, now_ms, *stored),
    {
        let at_expiry: Next = stored.at_expiry();
        if self.remaining_ms(now_ms) > 0 {
            Next::Advertise { bounded: !at_expiry.advertises() }
        } else {
            at_expiry
        }
    }

    /// Give the phone that just disconnected a chance to come straight back.
    pub fn linger(&mut self, now_ms: u64)
        ensures
            final(self)@ == lingering(now_ms),
    {
        self.ends_ms = now_ms.saturating_add(LINGER_S * 1000);
    }

    /// A central tried to connect and the handshake did not complete.
    ///
    /// Extends rather than sets, which is the difference from
    /// [`linger`](Self::linger): an attempt early in a long window must not
    /// shorten it.
    pub fn after_connect_attempt(&mut self, now_ms: u64)
        ensures
            final(self)@ == held_open(old(self)@, now_ms),
    {
        let hold: u64 = now_ms.saturating_add(LINGER_S * 1000);
        if self.ends_ms < hold {
            self.ends_ms = hold;
        }
    }

    /// Re-arm the budget after a central disconnects.
    ///
    /// [`Mode::Idle`] restarts the whole timeout rather than spending what is
    /// left of it. Every other mode gets the linger, which is spent
    /// advertising rather than merely awake.
    pub fn after_disconnect(&mut self, now_ms: u64, stored: &Stored)
        ensures
            final(self)@ == rearmed(now_ms, *stored),
    {
        if matches!(stored.mode, Mode::Idle) {
            *self = Window::new(now_ms, stored.budget_s());
        } else {
            self.linger(now_ms);
        }
    }
}

// -- The serve loop's policy -----------------------------------------------------

/// A command for the serve loop, from a config write on either transport.
///
/// The loop owns the advertising and the clock, so anything that ends a wait
/// early has to reach it here.
#[derive(Clone, Copy, Debug, PartialEq, Eq, Hash, Structural)]
pub enum ServeCommand {
    /// Deep sleep now, for this long, once whatever is owed to a connected
    /// central has left. Already resolved and clamped.
    SleepNow(u32),
    /// The mode moved: a wait that belongs to the old mode's budget should
    /// end, and the next pass re-budgets on the new one.
    ModeChanged,
}

/// How waiting for a central ended.
#[derive(Clone, Copy, Debug, PartialEq, Eq, Hash, Structural)]
pub enum Accepted {
    /// A central connected and the attribute server attached.
    Connected,
    /// A central started a connection and it did not complete, or the
    /// attribute server would not attach to one that did.
    Failed,
    /// The budget ran out with nobody interested.
    Expired,
    /// A command arrived while waiting.
    Command(ServeCommand),
}

/// What the firmware does after [`Serve::on_accept`] or
/// [`Serve::on_session_end`].
#[derive(Clone, Copy, Debug, PartialEq, Eq, Structural)]
pub enum Then {
    /// Run the connected session.
    Serve,
    /// Pause briefly, then advertise again.
    Retry,
    /// Deep sleep for this many seconds. Does not return.
    Sleep(u32),
    /// Drop the BLE stack for this many seconds and come back.
    BleDown(u32),
    /// Go straight back to the top of the loop.
    Continue,
}

/// What [`Serve::on_accept`] decided: whether the connect attempt promoted a
/// wake check to idle, and what to do next.
#[derive(Clone, Copy, Debug, PartialEq, Eq, Structural)]
pub struct Step {
    /// The board was a wake check and someone tried to connect, so it is now
    /// idle with the idle budget. The firmware records the mode and asks the
    /// hardware loop to raise what idle raises.
    pub promote: bool,
    pub then: Then,
}

/// A serve loop, as its contracts speak of it: the mode its budget belongs to
/// and when that runs out.
pub struct Serving {
    pub mode: Mode,
    pub ends_ms: u64,
}

/// The settings of a wake check somebody tried to connect to.
pub open spec fn promoted(stored: Stored) -> Stored {
    Stored { mode: Mode::Idle, ..stored }
}

impl Serving {
    /// Serving on a fresh budget of the stored mode.
    pub open spec fn budgeted(now_ms: u64, stored: Stored) -> Serving {
        Serving { mode: stored.mode, ends_ms: later(now_ms, stored.budget() * 1000) }
    }

    /// The loop at the top of a pass: a mode that moved gets a fresh budget
    /// on its own terms.
    pub open spec fn passing(self, now_ms: u64, stored: Stored) -> Serving {
        if stored.mode == self.mode {
            self
        } else {
            Serving::budgeted(now_ms, stored)
        }
    }

    /// Whether an accept outcome promotes a wake check: the attempt alone
    /// does.
    pub open spec fn promotes(self, accepted: Accepted) -> bool {
        self.mode is Stored && (accepted is Connected || accepted is Failed)
    }

    /// The loop once a promotion has swapped its budget.
    pub open spec fn doorbelled(self, now_ms: u64, accepted: Accepted, stored: Stored) -> Serving {
        if self.promotes(accepted) {
            Serving::budgeted(now_ms, promoted(stored))
        } else {
            self
        }
    }

    /// The loop after an accept outcome.
    pub open spec fn accepting(self, now_ms: u64, accepted: Accepted, stored: Stored) -> Serving {
        let w = self.doorbelled(now_ms, accepted, stored);
        if accepted is Failed {
            Serving { ends_ms: held_open(w.ends_ms, now_ms), ..w }
        } else {
            w
        }
    }

    /// The loop after a session: on the deadline it had where a sleep was
    /// asked for, and otherwise on the one a disconnect arms.
    pub open spec fn released(self, now_ms: u64, sleep_now: Option<u32>, stored: Stored) -> Serving {
        match sleep_now {
            Some(_) => self,
            None => Serving { ends_ms: rearmed(now_ms, stored), ..self },
        }
    }

    /// What an accept outcome means.
    pub open spec fn step(self, accepted: Accepted, stored: Stored) -> Step {
        Step {
            promote: self.promotes(accepted),
            then: match accepted {
                Accepted::Connected => Then::Serve,
                Accepted::Failed => Then::Retry,
                Accepted::Expired => match stored.expiring() {
                    Next::Sleep { interval_s } => Then::Sleep(interval_s),
                    Next::BleDown { off_s } => Then::BleDown(off_s),
                    Next::Advertise { bounded } => Then::Continue,
                },
                Accepted::Command(c) => commanded(c),
            },
        }
    }
}

/// What a session that has ended leads to.
pub open spec fn after_session(sleep_now: Option<u32>) -> Then {
    match sleep_now {
        Some(secs) => Then::Sleep(secs),
        None => Then::Continue,
    }
}

/// What a command means to a wait it ends.
pub open spec fn commanded(command: ServeCommand) -> Then {
    match command {
        ServeCommand::SleepNow(secs) => Then::Sleep(secs),
        ServeCommand::ModeChanged => Then::Continue,
    }
}

/// The serve loop: advertise, accept one central, serve it, repeat, on a
/// budget the mode decides.
///
/// This is the policy half of the loop the firmware runs. The firmware
/// supplies the clock, the advertising and the connection; this decides what
/// each outcome means.
#[derive(Clone, Copy, Debug, PartialEq, Eq, Hash)]
pub struct Serve {
    /// The mode the window was budgeted for. The live mode can move under the
    /// loop; the next pass notices and re-budgets.
    mode: Mode,
    window: Window,
}

impl View for Serve {
    type V = Serving;

    closed spec fn view(&self) -> Serving {
        Serving { mode: self.mode, ends_ms: self.window@ }
    }
}

impl Serve {
    /// Begin serving at `now_ms`, on the budget of the stored mode.
    pub fn new(now_ms: u64, stored: &Stored) -> (r: Self)
        ensures
            r@ == Serving::budgeted(now_ms, *stored),
    {
        Self { mode: stored.mode, window: Window::new(now_ms, stored.budget_s()) }
    }

    /// The mode the current budget belongs to.
    pub fn mode(&self) -> (r: Mode)
        ensures
            r == self@.mode,
    {
        self.mode
    }

    /// The current budget.
    pub fn window(&self) -> (r: Window)
        ensures
            r@ == self@.ends_ms,
    {
        self.window
    }

    /// How much of the budget is left.
    pub fn remaining_ms(&self, now_ms: u64) -> (r: u64)
        ensures
            r == left(self@.ends_ms, now_ms),
    {
        self.window.remaining_ms(now_ms)
    }

    /// The top of a pass: notice a mode that moved and budget on it, then say
    /// what to do. Returns whether the budget was restarted.
    pub fn pass(&mut self, now_ms: u64, stored: &Stored) -> (r: (bool, Next))
        ensures
            final(self)@ == old(self)@.passing(now_ms, *stored),
            r.0 == (stored.mode != old(self)@.mode),
            r.1 == deciding(final(self)@.ends_ms, now_ms, *stored),
    {
        let rebudgeted: bool = stored.mode != self.mode;
        if rebudgeted {
            self.mode = stored.mode;
            self.window = Window::new(now_ms, stored.budget_s());
        }
        (rebudgeted, self.window.next(now_ms, stored))
    }

    /// What an accept outcome means.
    ///
    /// A connect during a wake check is a doorbell, not a leash: the attempt
    /// alone promotes the board to idle with the idle timeout armed, and the
    /// app can take its time.
    ///
    /// `stored` is the settings as they were before any promotion; the idle
    /// budget is computed from them with the mode moved.
    pub fn on_accept(&mut self, now_ms: u64, accepted: Accepted, stored: &Stored) -> (r: Step)
        ensures
            final(self)@ == old(self)@.accepting(now_ms, accepted, *stored),
            r == old(self)@.step(accepted, *stored),
    {
        let attempt: bool = matches!(accepted, Accepted::Connected | Accepted::Failed);
        let promote: bool = matches!(self.mode, Mode::Stored) && attempt;
        if promote {
            self.mode = Mode::Idle;
            let idle: Stored = Stored { mode: Mode::Idle, ..*stored };
            self.window = Window::new(now_ms, idle.budget_s());
        }
        let then: Then = match accepted {
            Accepted::Connected => Then::Serve,
            Accepted::Failed => {
                self.window.after_connect_attempt(now_ms);
                Then::Retry
            },
            Accepted::Expired => match stored.at_expiry() {
                Next::Sleep { interval_s } => Then::Sleep(interval_s),
                Next::BleDown { off_s } => Then::BleDown(off_s),
                Next::Advertise { .. } => Then::Continue,
            },
            Accepted::Command(c) => during_ble_down(c),
        };
        Step { promote, then }
    }

    /// The session ended. Sleep if a command asked for it during the session,
    /// else re-arm the budget the way the mode does after a disconnect and
    /// advertise again.
    pub fn on_session_end(&mut self, now_ms: u64, sleep_now: Option<u32>, stored: &Stored) -> (r: Then)
        ensures
            r == after_session(sleep_now),
            final(self)@ == old(self)@.released(now_ms, sleep_now, *stored),
    {
        if let Some(secs) = sleep_now {
            return Then::Sleep(secs);
        }
        self.window.after_disconnect(now_ms, stored);
        Then::Continue
    }
}

/// What a command arriving during the modem's off period means: a nap takes
/// the board down at once, a moved mode ends the off period early so the next
/// pass can budget on the new mode.
pub fn during_ble_down(command: ServeCommand) -> (r: Then)
    ensures
        r == commanded(command),
{
    match command {
        ServeCommand::SleepNow(secs) => Then::Sleep(secs),
        ServeCommand::ModeChanged => Then::Continue,
    }
}

/// The board is never left unreachable: whatever the settings, every budget
/// is some time, a spent one ends in advertising or in a wait that itself
/// ends, and a loop on a fresh budget advertises first.
pub proof fn law_the_board_is_never_unreachable(stored: Stored, now_ms: u64)
    ensures
        stored.budget() > 0,
        stored.cadence() > 0,
        match stored.expiring() {
            Next::Advertise { bounded } => !bounded,
            Next::Sleep { interval_s } => interval_s > 0,
            Next::BleDown { off_s } => off_s > 0,
        },
        now_ms < u64::MAX ==> deciding(Serving::budgeted(now_ms, stored).ends_ms, now_ms, stored) is Advertise,
        !(booting(stored.mode, false) is Stored),
{
}

/// A retry cannot extend the window: asked again, a pass moves the deadline
/// only for a mode that moved; an outcome that is no attempt leaves it; and a
/// failed attempt holds it open for the linger at most, and never shortens
/// it. A deadline once past stays past, so a mode with a duty cycle gets to
/// it.
pub proof fn law_a_retry_cannot_extend_the_window(
    w: Serving,
    stored: Stored,
    accepted: Accepted,
    now_ms: u64,
    later_ms: u64,
)
    ensures
        stored.mode == w.mode ==> w.passing(now_ms, stored) == w,
        accepted is Expired || accepted is Command ==> w.accepting(now_ms, accepted, stored) == w,
        !(w.mode is Stored) ==> w.ends_ms <= w.accepting(now_ms, accepted, stored).ends_ms <= held_open(
            w.ends_ms,
            now_ms,
        ),
        w.ends_ms <= now_ms <= later_ms ==> deciding(w.ends_ms, later_ms, stored) == stored.expiring(),
{
}

/// A connect attempt during a wake check, completed or not, promotes it to
/// idle on the idle budget, which it keeps while the settings say idle.
pub proof fn law_an_attempt_promotes_a_wake_check(w: Serving, stored: Stored, now_ms: u64, accepted: Accepted)
    requires
        w.mode is Stored,
        accepted is Connected || accepted is Failed,
    ensures
        w.step(accepted, stored).promote,
        ({
            let next = w.accepting(now_ms, accepted, stored);
            &&& next.mode is Idle
            &&& next.ends_ms >= later(now_ms, promoted(stored).budget() * 1000)
            &&& next.passing(now_ms, promoted(stored)) == next
            &&& now_ms < u64::MAX ==> deciding(next.ends_ms, now_ms, promoted(stored)) is Advertise
        }),
{
}

/// Which duty cycle applies is a property of the mode: deep sleep only out of
/// a wake check or out of idle, the modem down only out of tracking, and
/// nothing at all out of listening; a mode that survives a reset survives any.
pub proof fn law_each_mode_has_its_own_duty_cycle(stored: Stored, woke: bool)
    ensures
        stored.expiring() is Sleep ==> stored.mode is Stored || stored.mode is Idle,
        stored.expiring() is BleDown ==> stored.mode is Tracking,
        stored.mode is Stored ==> stored.expiring() == (Next::Sleep { interval_s: stored.cadence() }),
        stored.mode is Listening ==> stored.expiring() is Advertise,
        stored.sleep_interval_s == 0 && stored.mode is Idle ==> stored.expiring() is Advertise,
        stored.mode.raised() ==> booting(stored.mode.kept(), woke) == stored.mode,
        !stored.mode.raised() ==> booting(stored.mode.kept(), woke) == (if woke { Mode::Stored } else { Mode::Idle }),
{
}

// -- From a config write to the two loops ----------------------------------------

/// What an [`Action`] sets in motion beyond the settings it already changed: a
/// request to the hardware loop, a command for the serve loop, a per-session
/// value.
#[derive(Clone, Copy, Debug, PartialEq, Eq)]
pub struct Dispatch {
    pub request: Option<Request>,
    pub command: Option<ServeCommand>,
    /// The position notify interval, which is session state rather than a
    /// stored setting.
    pub notify_interval_ms: Option<u32>,
    /// A node to call over LoRa: `(target, tracking)`.
    pub wake: Option<(u8, bool)>,
}

/// Nothing set in motion.
pub open spec fn at_rest() -> Dispatch {
    Dispatch { request: None, command: None, notify_interval_ms: None, wake: None }
}

impl Default for Dispatch {
    fn default() -> (r: Self)
        ensures
            r == at_rest(),
    {
        Dispatch { request: None, command: None, notify_interval_ms: None, wake: None }
    }
}

/// What an action sets in motion.
pub open spec fn dispatched(action: Action, stored: Stored) -> Dispatch {
    match action {
        Action::GpsSleep(on) => Dispatch { request: Some(Request::GpsSleep(on)), ..at_rest() },
        Action::RadioStandby(on) => Dispatch { request: Some(Request::RadioStandby(on)), ..at_rest() },
        Action::NotifyInterval(ms) => Dispatch { notify_interval_ms: Some(ms), ..at_rest() },
        Action::SleepNow(secs) => Dispatch { command: Some(ServeCommand::SleepNow(secs)), ..at_rest() },
        Action::SetMode(mode) => if mode is Stored {
            Dispatch { command: Some(ServeCommand::SleepNow(stored.cadence())), ..at_rest() }
        } else {
            Dispatch { request: Some(Request::Mode(mode)), command: Some(ServeCommand::ModeChanged), ..at_rest() }
        },
        Action::WakeNode { target, tracking } => Dispatch { wake: Some((target, tracking)), ..at_rest() },
        _ => at_rest(),
    }
}

/// What `action` sets in motion, given the settings as they are after the
/// write that produced it.
///
/// A store is a command that ends with the chip gone, so it goes to the serve
/// loop by the same route a nap does. Settings the loops read for themselves
/// when they next decide set nothing in motion.
pub fn dispatch(action: Action, stored: &Stored) -> (r: Dispatch)
    ensures
        r == dispatched(action, *stored),
{
    let mut d: Dispatch = Dispatch::default();
    match action {
        Action::GpsSleep(on) => {
            d.request = Some(Request::GpsSleep(on));
        },
        Action::RadioStandby(on) => {
            d.request = Some(Request::RadioStandby(on));
        },
        Action::NotifyInterval(ms) => {
            d.notify_interval_ms = Some(ms);
        },
        Action::SleepNow(secs) => {
            d.command = Some(ServeCommand::SleepNow(secs));
        },
        Action::SetMode(mode) => {
            if matches!(mode, Mode::Stored) {
                d.command = Some(ServeCommand::SleepNow(stored.sleep_cadence()));
            } else {
                d.request = Some(Request::Mode(mode));
                d.command = Some(ServeCommand::ModeChanged);
            }
        },
        Action::WakeNode { target, tracking } => {
            d.wake = Some((target, tracking));
        },
        _ => {},
    }
    d
}

// -- What the settings come to ---------------------------------------------------

/// The two overrides are the second and third bits of the flags word, and
/// setting one sets or clears that bit alone.
pub proof fn law_the_overrides_are_bits(s: Stored, on: bool)
    ensures
        s.standing_by() <==> s.flags & 0x02 != 0,
        s.backed_up() <==> s.flags & 0x04 != 0,
        with_flag(s.flags, PFLAG_RADIO_STANDBY, on) == (if on {
            s.flags | 0x02
        } else {
            s.flags & !0x02u32
        }),
        with_flag(s.flags, PFLAG_GPS_SLEEP, on) == (if on {
            s.flags | 0x04
        } else {
            s.flags & !0x04u32
        }),
{
    let f = s.flags;
    law_the_overrides_are_independent(f, on);
    assert((f / 2 % 2 == 1 <==> f & 0x02 != 0) && (f / 4 % 2 == 1 <==> f & 0x04 != 0)) by (bit_vector);
    assert((f & 0x02 == 0 ==> f | 0x02 == f + 2 && f & !0x02u32 == f) && (f & 0x02 != 0 ==> f | 0x02 == f && f & !0x02u32
        == f - 2) && (f & 0x04 == 0 ==> f | 0x04 == f + 4 && f & !0x04u32 == f) && (f & 0x04 != 0 ==> f | 0x04 == f && f
        & !0x04u32 == f - 4)) by (bit_vector);
}

/// A board told to store itself sleeps on the cadence it was given, and on
/// five minutes where it was given none.
pub proof fn law_a_missing_cadence_is_five_minutes(s: Stored)
    ensures
        s.sleep_interval_s != 0 ==> s.cadence() == s.sleep_interval_s,
        s.sleep_interval_s == 0 ==> s.cadence() == 300,
{
}

/// How long each mode advertises, and what comes after it.
pub proof fn law_each_mode_has_its_own_budget(s: Stored)
    ensures
        ({
            let window = if s.adv_window_s == 0 {
                15
            } else {
                s.adv_window_s
            };
            let on = if s.ble_on_s == 0 {
                15
            } else {
                s.ble_on_s
            };
            &&& s.mode is Stored || s.mode is Listening ==> s.budget() == window
            &&& s.mode is Tracking ==> s.budget() == on
            &&& s.mode is Idle ==> s.budget() == (if s.idle_timeout_s == 0 {
                window
            } else {
                s.idle_timeout_s
            })
            &&& s.mode is Idle ==> (s.expiring() is Sleep <==> s.idle_timeout_s != 0 && s.sleep_interval_s != 0)
            &&& s.mode is Tracking ==> (s.expiring() is BleDown <==> s.ble_off_s != 0)
            &&& s.mode is Stored ==> s.expiring() is Sleep
            &&& s.expiring() matches Next::BleDown { off_s } ==> off_s == s.ble_off_s
            &&& s.expiring() matches Next::Sleep { interval_s } ==> interval_s == (if s.sleep_interval_s == 0 {
                300
            } else {
                s.sleep_interval_s
            })
            &&& s.expiring() matches Next::Advertise { bounded } ==> !bounded
        }),
{
}

/// The settings blob reports every duration as the board uses it, and the
/// rest as it is.
pub proof fn law_the_settings_report_what_is_used(s: Stored, notify_interval_ms: u32, k: Knob)
    ensures
        ({
            let w = s.reported(notify_interval_ms);
            &&& knobs::wire_value(w, k) == k.meant(s.raw(k))
            &&& w.notify_interval_ms == notify_interval_ms
            &&& w.mode == s.mode
            &&& w.radio_standby <==> s.flags & 0x02 != 0
            &&& w.gps_sleep <==> s.flags & 0x04 != 0
        }),
{
    law_the_overrides_are_bits(s, true);
}

/// A file moves the durations it carries to what it says, and leaves the
/// others, the flags, the mode and the name; adopting it again changes
/// nothing.
pub proof fn law_a_file_moves_what_it_carries(s: Stored, p: PowerConfig, k: Knob)
    ensures
        p.asked(k) matches Some(v) ==> s.adopted(p).raw(k) == v,
        p.asked(k) is None ==> s.adopted(p).raw(k) == s.raw(k),
        s.adopted(p).flags == s.flags && s.adopted(p).mode == s.mode && s.adopted(p).name == s.name,
        s.adopted(p).adopted(p) == s.adopted(p),
{
}

/// A board nobody has configured: every duration at nothing, no override, no
/// name.
pub proof fn law_an_unconfigured_board_is_blank(k: Knob, i: int)
    requires
        0 <= i < 16,
    ensures
        unconfigured().raw(k) == 0,
        unconfigured().flags == 0,
        unconfigured().mode is Stored,
        unconfigured().name@[i] == 0,
        unconfigured().name@.len() == 16,
{
    lemma_padded_field(Seq::empty());
}

/// Where each part of the record this firmware writes stands in its 56 bytes.
pub proof fn law_a_record_is_laid_out(s: Stored, i: int)
    requires
        0 <= i < 16,
    ensures
        ({
            let b = record_bytes(s, 7);
            &&& RECORD_VERSION == 7
            &&& b.len() == 56
            &&& bytes::le32_at(b, 0) == 0x6D69_6441
            &&& bytes::le32_at(b, 4) == 7
            &&& bytes::le32_at(b, 8) == s.sleep_interval_s
            &&& bytes::le32_at(b, 12) == s.flags
            &&& bytes::le32_at(b, 16) == s.adv_window_s
            &&& bytes::le32_at(b, 20) == s.ble_off_s
            &&& bytes::le32_at(b, 24) == s.mode.kept().wire()
            &&& bytes::le32_at(b, 28) == s.idle_timeout_s
            &&& b[32 + i] == s.name@[i]
            &&& bytes::le32_at(b, 48) == s.ble_on_s
            &&& bytes::le32_at(b, 52) == link::crc32_of(b.take(52))
        }),
{
    let b = record_bytes(s, 7);
    let body = record_body(s, 7);
    assert(body.len() == 52);
    assert(b.take(52) =~= body);
    bytes::lemma_le32_slice(b, 52, link::crc32_of(body));
    bytes::lemma_le32_slice(b, 0, RECORD_MAGIC);
    bytes::lemma_le32_slice(b, 4, 7);
    bytes::lemma_le32_slice(b, 8, s.sleep_interval_s);
    bytes::lemma_le32_slice(b, 12, s.flags);
    bytes::lemma_le32_slice(b, 16, s.adv_window_s);
    bytes::lemma_le32_slice(b, 20, s.ble_off_s);
    bytes::lemma_le32_slice(b, 24, s.mode.kept().wire() as u32);
    bytes::lemma_le32_slice(b, 28, s.idle_timeout_s);
    bytes::lemma_le32_slice(b, 48, s.ble_on_s);
    assert(b[32 + i] == s.name@[i]);
}

/// What is no record: anything shorter, with another mark, of a version before
/// the second or past the seventh, or whose crc - where that version has it -
/// is not the one of what stands before it.
pub proof fn law_what_is_no_record(b: Seq<u8>)
    ensures
        b.len() < 56 ==> record_read(b) is None,
        bytes::le32_at(b, 0) != 0x6D69_6441 ==> record_read(b) is None,
        bytes::le32_at(b, 4) < 2 || bytes::le32_at(b, 4) > 7 ==> record_read(b) is None,
        crc_at(2) == Some(16int) && crc_at(3) == Some(20int) && crc_at(4) == Some(24int) && crc_at(5) == Some(32int)
            && crc_at(6) == Some(48int) && crc_at(7) == Some(52int),
        ({
            let v = bytes::le32_at(b, 4);
            let at = crc_at(v)->0;
            &&& 2 <= v <= 7 && b.len() >= 56 && bytes::le32_at(b, 0) == 0x6D69_6441 ==> (record_read(b) is Some <==> bytes::le32_at(
                b,
                at,
            ) == link::crc32_of(b.take(at)))
        }),
{
}

/// A record reads what stands in it: the cadence and the flags always, and
/// each later field from the version that brought it.
pub proof fn law_a_record_reads_where_it_stands(b: Seq<u8>, i: int)
    requires
        record_read(b) is Some,
        0 <= i < 16,
    ensures
        ({
            let v = bytes::le32_at(b, 4);
            let s = record_read(b)->0;
            &&& s.sleep_interval_s == bytes::le32_at(b, 8)
            &&& s.flags == bytes::le32_at(b, 12)
            &&& s.adv_window_s == (if v >= 3 {
                bytes::le32_at(b, 16)
            } else {
                0
            })
            &&& s.ble_off_s == (if v >= 4 {
                bytes::le32_at(b, 20)
            } else {
                0
            })
            &&& v >= 5 ==> (Mode::of_wire(b[24]) matches Some(m) ==> s.mode == m)
            &&& v < 5 || Mode::of_wire(b[24]) is None ==> s.mode is Stored
            &&& s.idle_timeout_s == (if v >= 5 {
                bytes::le32_at(b, 28)
            } else {
                0
            })
            &&& s.name@[i] == (if v >= 6 {
                b[32 + i]
            } else {
                0
            })
            &&& s.ble_on_s == (if v >= 7 {
                bytes::le32_at(b, 48)
            } else {
                0
            })
        }),
{
    lemma_padded_field(Seq::empty());
    assert(b.subrange(32, 48)[i] == b[32 + i]);
    assert(name_field(b.subrange(32, 48))@ =~= b.subrange(32, 48));
}

/// What each config id does with a value of its own length, and what it does
/// with any other.
pub proof fn law_what_each_id_asks_for(s: Stored, data: Seq<u8>, fallback: Result<u32, Refusal>)
    requires
        data.len() >= 2,
        2 + data[1] <= data.len(),
    ensures
        ({
            let id = data[0];
            let n = data[1];
            let (t, out) = applied(s, data, fallback);
            let word = bytes::le32_at(data.subrange(2, 2 + n), 0);
            let on = n > 0 && data[2] != 0;
            &&& id == 0x11 ==> out.action == Action::RadioStandby(on)
            &&& id == 0x12 ==> out.action == Action::GpsSleep(on)
            &&& id == 0x13 ==> out.action == (if n == 4 {
                Action::Knob(Knob::SleepInterval, Knob::SleepInterval.kept(word))
            } else {
                Action::Nothing
            })
            &&& id == 0x14 ==> out.action == (if n == 4 {
                Action::Knob(Knob::AdvWindow, Knob::AdvWindow.kept(word))
            } else {
                Action::Nothing
            })
            &&& id == 0x15 ==> out.action == (if n == 4 {
                Action::SleepNow(ble::sleep_now_of(word, s.sleep_interval_s))
            } else {
                Action::Nothing
            })
            &&& id == 0x16 ==> out.action == (if n == 4 {
                Action::Knob(Knob::BleOff, Knob::BleOff.kept(word))
            } else {
                Action::Nothing
            })
            &&& id == 0x17 ==> out.action == (if n > 0 && Mode::of_wire(data[2]) is Some {
                Action::SetMode(Mode::of_wire(data[2])->0)
            } else {
                Action::Nothing
            })
            &&& id == 0x18 ==> out.action == (if n == 4 {
                Action::Knob(Knob::IdleTimeout, Knob::IdleTimeout.kept(word))
            } else {
                Action::Nothing
            })
            &&& id == 0x19 ==> out.action == (if n == 0 || ble::is_label(data.subrange(2, 2 + n)) {
                Action::Name
            } else {
                Action::Nothing
            })
            &&& id == 0x1A ==> out.action == (if n == 4 {
                Action::Knob(Knob::BleOn, Knob::BleOn.kept(word))
            } else {
                Action::Nothing
            })
            &&& id == 0x1B ==> out.action == (if n > 0 {
                Action::WakeNode { target: data[2], tracking: n > 1 && data[3] & 0x01 != 0 }
            } else {
                Action::Nothing
            })
            &&& id < 0x11 || id > 0x1B ==> t == s && (fallback matches Ok(ms) ==> out.action == Action::NotifyInterval(ms))
                && (fallback is Err ==> out.action is Nothing)
            &&& out.action is Nothing && 0x11 <= id <= 0x1B ==> out.ack.status is BadValue && t == s
        }),
{
    let v = data.subrange(2, 2 + data[1]);
    assert(write_value(data) =~= v);
    if data[1] > 0 {
        assert(v[0] == data[2]);
    }
    if data[1] > 1 {
        let f = data[3];
        assert(v[1] == f);
        assert(f / 1 % 2 == 1 <==> f & 0x01 != 0) by (bit_vector);
    }
    assert(0u8 & 0x01 == 0) by (bit_vector);
}

/// A write cut short has no value, so what an id does with none is what it
/// does; and one too short to have an id is not the board's at all.
pub proof fn law_a_write_cut_short_has_no_value(s: Stored, data: Seq<u8>, fallback: Result<u32, Refusal>)
    requires
        data.len() >= 2,
        data.len() < 2 + data[1],
    ensures
        applied(s, data, fallback) == applied(s, seq![data[0], 0u8], fallback),
        forall|short: Seq<u8>|
            short.len() < 2 ==> (#[trigger] applied(s, short, fallback)).0 == s && !applied(s, short, fallback).1.save,
{
    let empty = seq![data[0], 0u8];
    assert(write_value(empty) =~= Seq::<u8>::empty());
    assert(write_value(data) =~= Seq::<u8>::empty());
}

/// A name is stored as it was written.
pub proof fn law_a_name_write_stores_the_label(s: Stored, data: Seq<u8>, fallback: Result<u32, Refusal>)
    requires
        data.len() >= 2,
        data[0] == 0x19,
        2 + data[1] == data.len(),
        data[1] == 0 || ble::is_label(data.skip(2)),
    ensures
        ble::field_label(applied(s, data, fallback).0.name@) == data.skip(2),
        applied(s, data, fallback).1.ack.echo == Echo::One(data[1]),
{
    let label = data.skip(2);
    assert(write_value(data) =~= label);
    if data[1] == 0 {
        lemma_padded_field(Seq::empty());
        assert(label =~= Seq::empty());
        ble::law_padded_label_round_trip(label);
    } else {
        law_a_name_written_is_the_name_read(s, label);
    }
}

/// A budget runs for its seconds, a linger for five, and a failed attempt
/// holds a window open for as long: the later of the two deadlines.
pub proof fn law_a_deadline_is_so_many_seconds_off(now_ms: u64, secs: u32, ends_ms: u64, s: Stored)
    requires
        now_ms + 0x400_0000_0000 <= u64::MAX,
    ensures
        later(now_ms, secs * 1000) - now_ms == secs * 1000,
        Serving::budgeted(now_ms, s).ends_ms - now_ms == s.budget() * 1000,
        Serving::budgeted(now_ms, s).mode == s.mode,
        s.mode is Idle ==> rearmed(now_ms, s) - now_ms == s.budget() * 1000,
        !(s.mode is Idle) ==> rearmed(now_ms, s) - now_ms == 5000,
        held_open(ends_ms, now_ms) >= ends_ms,
        held_open(ends_ms, now_ms) - now_ms >= 5000,
        held_open(ends_ms, now_ms) == ends_ms || held_open(ends_ms, now_ms) - now_ms == 5000,
{
}

/// The clock stops at its end rather than starting over.
pub proof fn law_a_deadline_stops_at_the_end_of_the_clock(now_ms: u64, ms: int)
    requires
        0 <= ms,
    ensures
        now_ms <= later(now_ms, ms),
        now_ms + ms > u64::MAX ==> later(now_ms, ms) == u64::MAX,
        now_ms + ms <= u64::MAX ==> later(now_ms, ms) == now_ms + ms,
{
}

/// The board advertises until the deadline and does what its mode does from
/// then on; the wait for a central is bounded where that ends the advertising.
pub proof fn law_a_deadline_decides(ends_ms: u64, now_ms: u64, s: Stored)
    ensures
        now_ms < ends_ms ==> deciding(ends_ms, now_ms, s) == (Next::Advertise {
            bounded: s.expiring() is Sleep || s.expiring() is BleDown,
        }),
        now_ms >= ends_ms ==> deciding(ends_ms, now_ms, s) == s.expiring(),
        now_ms < ends_ms ==> now_ms + left(ends_ms, now_ms) == ends_ms,
        left(ends_ms, now_ms) == 0 <==> now_ms >= ends_ms,
{
}

/// What the end of a wait leads to: a session for a central, another try for
/// one that failed, the mode's duty cycle for a budget spent, and what it says
/// for a command. The loop keeps the mode it budgeted for, but for a wake
/// check somebody tried to reach.
pub proof fn law_what_the_end_of_a_wait_leads_to(w: Serving, s: Stored, accepted: Accepted, secs: u32, now_ms: u64)
    ensures
        w.step(Accepted::Connected, s) == (Step { promote: w.mode is Stored, then: Then::Serve }),
        w.step(Accepted::Failed, s) == (Step { promote: w.mode is Stored, then: Then::Retry }),
        w.step(Accepted::Command(ServeCommand::SleepNow(secs)), s) == (Step { promote: false, then: Then::Sleep(secs) }),
        w.step(Accepted::Command(ServeCommand::ModeChanged), s) == (Step { promote: false, then: Then::Continue }),
        w.step(Accepted::Expired, s) == (Step {
            promote: false,
            then: match s.expiring() {
                Next::Sleep { interval_s } => Then::Sleep(interval_s),
                Next::BleDown { off_s } => Then::BleDown(off_s),
                Next::Advertise { bounded } => Then::Continue,
            },
        }),
        w.step(accepted, s).promote <==> w.mode is Stored && (accepted is Connected || accepted is Failed),
        w.accepting(now_ms, accepted, s).mode == (if w.step(accepted, s).promote {
            Mode::Idle
        } else {
            w.mode
        }),
        w.mode != Mode::Stored && accepted is Connected ==> w.accepting(now_ms, accepted, s) == w,
        commanded(ServeCommand::SleepNow(secs)) == Then::Sleep(secs),
        commanded(ServeCommand::ModeChanged) is Continue,
{
}

/// A session that was told to sleep ends asleep, on the deadline it had; any
/// other ends in advertising again, on a deadline of the mode's.
pub proof fn law_what_the_end_of_a_session_leads_to(w: Serving, s: Stored, now_ms: u64, secs: u32)
    ensures
        after_session(Some(secs)) == Then::Sleep(secs),
        after_session(None) is Continue,
        w.released(now_ms, Some(secs), s) == w,
        w.released(now_ms, None, s).mode == w.mode,
        w.released(now_ms, None, s).ends_ms == rearmed(now_ms, s),
{
}

/// A mode that moved is noticed and budgeted for from now on, and one that did
/// not leaves the deadline where it was.
pub proof fn law_a_moved_mode_is_budgeted_for(w: Serving, s: Stored, now_ms: u64)
    ensures
        w.passing(now_ms, s).mode == s.mode,
        w.mode == s.mode ==> w.passing(now_ms, s).ends_ms == w.ends_ms,
        w.mode != s.mode ==> w.passing(now_ms, s).ends_ms == later(now_ms, s.budget() * 1000),
{
}

/// What an action sets in motion, and in whom: an override goes to the
/// hardware, a nap and a store to the serve loop, a mode to both, an interval
/// to the session and a call to the air. The rest is read when it is needed.
pub proof fn law_what_an_action_sets_in_motion(s: Stored, a: Action)
    ensures
        ({
            let d = dispatched(a, s);
            &&& d.request == (match a {
                Action::GpsSleep(on) => Some(Request::GpsSleep(on)),
                Action::RadioStandby(on) => Some(Request::RadioStandby(on)),
                Action::SetMode(m) => if m is Stored {
                    None
                } else {
                    Some(Request::Mode(m))
                },
                _ => None,
            })
            &&& d.command == (match a {
                Action::SleepNow(secs) => Some(ServeCommand::SleepNow(secs)),
                Action::SetMode(m) => if m is Stored {
                    Some(
                        ServeCommand::SleepNow(
                            if s.sleep_interval_s == 0 {
                                300
                            } else {
                                s.sleep_interval_s
                            },
                        ),
                    )
                } else {
                    Some(ServeCommand::ModeChanged)
                },
                _ => None,
            })
            &&& d.notify_interval_ms is Some <==> a is NotifyInterval
            &&& a matches Action::NotifyInterval(ms) ==> d.notify_interval_ms == Some(ms)
            &&& d.wake is Some <==> a is WakeNode
            &&& a matches Action::WakeNode { target, tracking } ==> d.wake == Some((target, tracking))
        }),
{
}

/// A board comes up tracking or listening where that is what it was doing, and
/// otherwise idle, or on a wake check where the timer woke it.
pub proof fn law_what_a_board_comes_up_as(persisted: Mode, woke: bool)
    ensures
        persisted is Tracking ==> booting(persisted, woke) is Tracking,
        persisted is Listening ==> booting(persisted, woke) is Listening,
        persisted is Stored || persisted is Idle ==> (booting(persisted, woke) is Stored <==> woke) && (booting(
            persisted,
            woke,
        ) is Idle <==> !woke),
{
}

/// A label is taken where it is none or one, and stored as it is; any other
/// leaves the name as it was.
pub proof fn law_a_label_is_taken_where_it_is_one(s: Stored, label: Seq<u8>)
    ensures
        ({
            let (t, taken) = s.relabelled(label);
            &&& taken <==> label.len() == 0 || ble::is_label(label)
            &&& !taken ==> t == s
            &&& taken ==> ble::field_label(t.name@) == label && t == (Stored { name: t.name, ..s })
        }),
{
    if ble::is_label(label) {
        law_a_name_written_is_the_name_read(s, label);
    } else if label.len() == 0 {
        assert(label =~= Seq::empty());
        lemma_padded_field(label);
        ble::law_padded_label_round_trip(label);
    }
}

/// A window runs for its seconds from now, and a linger for five, as far as the
/// clock goes.
pub proof fn law_a_window_runs_its_seconds(now_ms: u64, secs: u32)
    requires
        now_ms + 0x400_0000_0000 <= u64::MAX,
    ensures
        opened(now_ms, secs) - now_ms == 1000 * secs,
        lingering(now_ms) - now_ms == 5000,
{
}

} // verus!
