//! Radio configuration: the settings, what they cost on the air, the
//! read-back blob, and the `RADIO.CFG` file format.
//!
//! The file is a small subset of TOML: `key = value` pairs with integer,
//! boolean and quoted-string values, `#` comments, and `[section]` headers
//! (accepted and ignored - keys are unique across sections). [`keys`] is the
//! table of what each key takes and [`parse`] reads a file against it;
//! [`example`] is what holds of the reference file printed from it.

use vstd::prelude::*;
use vstd::arithmetic::power2::*;
use crate::bytes;
use crate::lora;
use crate::sentry::HEADER_SYMBOLS;
use crate::session::Knob;
use crate::time;
use crate::bytes::{byte_i8, i8_byte, u16_at, u16_bytes, u32_at, u32_bytes};

pub mod example;
pub mod keys;
pub mod parser;
pub mod prose;

pub use keys::{key, key_at, section_at, write_example, Key, Kind, Section, KEYS, SECTIONS};
pub use parser::{parse, parse_bytes, ConfigError};

verus! {

/// Which halves of the air interface a node uses.
#[derive(Clone, Copy, Debug, PartialEq, Eq, Hash, Structural)]
pub enum Role {
    /// Originates its own broadcasts and receives everyone else's, but never
    /// retransmits.
    Leaf,
    /// A leaf that additionally retransmits frames still carrying hops.
    Repeater,
    /// Beacons its own position and nothing else. The receiver is never
    /// enabled.
    TxOnly,
    /// Listens and reports what it hears, never transmitting.
    RxOnly,
}

impl Role {
    /// Whether a node of this role sends.
    pub open spec fn sends(self) -> bool {
        !(self is RxOnly)
    }

    /// Whether a node of this role listens.
    pub open spec fn hears(self) -> bool {
        !(self is TxOnly)
    }

    /// Whether a node of this role forwards what it hears.
    pub open spec fn forwards(self) -> bool {
        self is Repeater
    }

    /// Whether this node ever puts a frame on the air.
    pub fn transmits(self) -> (r: bool)
        ensures
            r == self.sends(),
    {
        !matches!(self, Role::RxOnly)
    }

    /// Whether this node enables its receiver at all.
    pub fn receives(self) -> (r: bool)
        ensures
            r == self.hears(),
    {
        !matches!(self, Role::TxOnly)
    }

    /// Whether this node retransmits other nodes' frames.
    pub fn repeats(self) -> (r: bool)
        ensures
            r == self.forwards(),
    {
        matches!(self, Role::Repeater)
    }

    /// Compact value used in the [`RadioConfig`] read-back blob.
    pub open spec fn wire(self) -> u8 {
        match self {
            Role::Leaf => 0,
            Role::Repeater => 1,
            Role::TxOnly => 2,
            Role::RxOnly => 3,
        }
    }

    /// Inverse of [`wire`](Self::wire).
    pub open spec fn of_wire(v: u8) -> Option<Self> {
        if v == 0 {
            Some(Role::Leaf)
        } else if v == 1 {
            Some(Role::Repeater)
        } else if v == 2 {
            Some(Role::TxOnly)
        } else if v == 3 {
            Some(Role::RxOnly)
        } else {
            None
        }
    }

    /// The config-file spelling.
    pub open spec fn word(self) -> &'static str {
        match self {
            Role::Leaf => "leaf",
            Role::Repeater => "repeater",
            Role::TxOnly => "tx_only",
            Role::RxOnly => "rx_only",
        }
    }

    /// Compact value used in the [`RadioConfig`] read-back blob.
    pub fn to_wire(self) -> (r: u8)
        ensures
            r == self.wire(),
    {
        match self {
            Role::Leaf => 0,
            Role::Repeater => 1,
            Role::TxOnly => 2,
            Role::RxOnly => 3,
        }
    }

    /// Inverse of [`to_wire`](Self::to_wire); `None` for an unknown value.
    pub fn from_wire(v: u8) -> (r: Option<Self>)
        ensures
            r == Self::of_wire(v),
    {
        match v {
            0 => Some(Role::Leaf),
            1 => Some(Role::Repeater),
            2 => Some(Role::TxOnly),
            3 => Some(Role::RxOnly),
            _ => None,
        }
    }

    /// The `role` config-file spelling.
    pub fn as_str(self) -> (r: &'static str)
        ensures
            r == self.word(),
    {
        match self {
            Role::Leaf => "leaf",
            Role::Repeater => "repeater",
            Role::TxOnly => "tx_only",
            Role::RxOnly => "rx_only",
        }
    }
}

/// Supply voltage the radio drives the TCXO at (`SetTcxoMode` trim field).
///
/// A property of the board, not a preference.
#[derive(Clone, Copy, Debug, PartialEq, Eq, Hash, Structural)]
pub enum TcxoVolts {
    V1_6,
    V1_7,
    V1_8,
    V2_2,
    V2_4,
    V2_7,
    V3_0,
    V3_3,
}

impl TcxoVolts {
    /// `SetTcxoMode` trim enum value.
    pub open spec fn trim_value(self) -> u8 {
        match self {
            TcxoVolts::V1_6 => 0x0,
            TcxoVolts::V1_7 => 0x1,
            TcxoVolts::V1_8 => 0x2,
            TcxoVolts::V2_2 => 0x3,
            TcxoVolts::V2_4 => 0x4,
            TcxoVolts::V2_7 => 0x5,
            TcxoVolts::V3_0 => 0x6,
            TcxoVolts::V3_3 => 0x7,
        }
    }

    /// Inverse of [`trim_value`](Self::trim_value).
    pub open spec fn of_trim(v: u8) -> Option<Self> {
        if v == 0x0 {
            Some(TcxoVolts::V1_6)
        } else if v == 0x1 {
            Some(TcxoVolts::V1_7)
        } else if v == 0x2 {
            Some(TcxoVolts::V1_8)
        } else if v == 0x3 {
            Some(TcxoVolts::V2_2)
        } else if v == 0x4 {
            Some(TcxoVolts::V2_4)
        } else if v == 0x5 {
            Some(TcxoVolts::V2_7)
        } else if v == 0x6 {
            Some(TcxoVolts::V3_0)
        } else if v == 0x7 {
            Some(TcxoVolts::V3_3)
        } else {
            None
        }
    }

    /// The config-file spelling.
    pub open spec fn word(self) -> &'static str {
        match self {
            TcxoVolts::V1_6 => "1.6",
            TcxoVolts::V1_7 => "1.7",
            TcxoVolts::V1_8 => "1.8",
            TcxoVolts::V2_2 => "2.2",
            TcxoVolts::V2_4 => "2.4",
            TcxoVolts::V2_7 => "2.7",
            TcxoVolts::V3_0 => "3.0",
            TcxoVolts::V3_3 => "3.3",
        }
    }

    /// `SetTcxoMode` trim enum value.
    pub fn trim(self) -> (r: u8)
        ensures
            r == self.trim_value(),
    {
        match self {
            TcxoVolts::V1_6 => 0x0,
            TcxoVolts::V1_7 => 0x1,
            TcxoVolts::V1_8 => 0x2,
            TcxoVolts::V2_2 => 0x3,
            TcxoVolts::V2_4 => 0x4,
            TcxoVolts::V2_7 => 0x5,
            TcxoVolts::V3_0 => 0x6,
            TcxoVolts::V3_3 => 0x7,
        }
    }

    /// Inverse of [`trim`](Self::trim); `None` for an unknown value.
    pub fn from_trim(v: u8) -> (r: Option<Self>)
        ensures
            r == Self::of_trim(v),
    {
        match v {
            0x0 => Some(TcxoVolts::V1_6),
            0x1 => Some(TcxoVolts::V1_7),
            0x2 => Some(TcxoVolts::V1_8),
            0x3 => Some(TcxoVolts::V2_2),
            0x4 => Some(TcxoVolts::V2_4),
            0x5 => Some(TcxoVolts::V2_7),
            0x6 => Some(TcxoVolts::V3_0),
            0x7 => Some(TcxoVolts::V3_3),
            _ => None,
        }
    }

    /// The `tcxo_volts` config-file spelling.
    pub fn as_str(self) -> (r: &'static str)
        ensures
            r == self.word(),
    {
        match self {
            TcxoVolts::V1_6 => "1.6",
            TcxoVolts::V1_7 => "1.7",
            TcxoVolts::V1_8 => "1.8",
            TcxoVolts::V2_2 => "2.2",
            TcxoVolts::V2_4 => "2.4",
            TcxoVolts::V2_7 => "2.7",
            TcxoVolts::V3_0 => "3.0",
            TcxoVolts::V3_3 => "3.3",
        }
    }
}

/// GPS receiver power mode (u-blox M10 `CFG-PM-OPERATEMODE`).
#[derive(Clone, Copy, Debug, PartialEq, Eq, Hash, Structural)]
pub enum PowerMode {
    /// Continuous tracking, lowest fix latency.
    Full,
    /// Power-save on/off: acquire a fix, then power down until the next
    /// update period.
    PsmOnOff,
    /// Power-save cyclic tracking: stays in a reduced-power tracking loop.
    PsmCyclic,
}

impl PowerMode {
    /// `CFG-PM-OPERATEMODE` enum value.
    pub open spec fn operate(self) -> u8 {
        match self {
            PowerMode::Full => 0,
            PowerMode::PsmOnOff => 1,
            PowerMode::PsmCyclic => 2,
        }
    }

    /// Inverse of [`operate`](Self::operate).
    pub open spec fn of_operate(v: u8) -> Option<Self> {
        if v == 0 {
            Some(PowerMode::Full)
        } else if v == 1 {
            Some(PowerMode::PsmOnOff)
        } else if v == 2 {
            Some(PowerMode::PsmCyclic)
        } else {
            None
        }
    }

    /// The config-file spelling.
    pub open spec fn word(self) -> &'static str {
        match self {
            PowerMode::Full => "full",
            PowerMode::PsmOnOff => "psmoo",
            PowerMode::PsmCyclic => "psmct",
        }
    }

    /// `CFG-PM-OPERATEMODE` enum value.
    pub fn operate_mode(self) -> (r: u8)
        ensures
            r == self.operate(),
    {
        match self {
            PowerMode::Full => 0,
            PowerMode::PsmOnOff => 1,
            PowerMode::PsmCyclic => 2,
        }
    }

    /// Inverse of [`operate_mode`](Self::operate_mode); `None` for an unknown
    /// value.
    pub fn from_operate_mode(v: u8) -> (r: Option<Self>)
        ensures
            r == Self::of_operate(v),
    {
        match v {
            0 => Some(PowerMode::Full),
            1 => Some(PowerMode::PsmOnOff),
            2 => Some(PowerMode::PsmCyclic),
            _ => None,
        }
    }

    /// The `power_mode` config-file spelling.
    pub fn as_str(self) -> (r: &'static str)
        ensures
            r == self.word(),
    {
        match self {
            PowerMode::Full => "full",
            PowerMode::PsmOnOff => "psmoo",
            PowerMode::PsmCyclic => "psmct",
        }
    }
}

/// GPS navigation dynamic model (u-blox M10 `CFG-NAVSPG-DYNMODEL`). Only the
/// subset useful for this tracker is exposed.
#[derive(Clone, Copy, Debug, PartialEq, Eq, Hash, Structural)]
pub enum DynModel {
    Portable,
    Stationary,
    Pedestrian,
    Automotive,
    Sea,
    /// Airborne with < 1 g acceleration.
    Airborne1g,
    /// Airborne with < 2 g acceleration.
    Airborne2g,
    /// Airborne with < 4 g acceleration.
    Airborne4g,
}

impl DynModel {
    /// `CFG-NAVSPG-DYNMODEL` enum value. 1 is unused by the u-blox map.
    pub open spec fn model(self) -> u8 {
        match self {
            DynModel::Portable => 0,
            DynModel::Stationary => 2,
            DynModel::Pedestrian => 3,
            DynModel::Automotive => 4,
            DynModel::Sea => 5,
            DynModel::Airborne1g => 6,
            DynModel::Airborne2g => 7,
            DynModel::Airborne4g => 8,
        }
    }

    /// Inverse of [`model`](Self::model).
    pub open spec fn of_model(v: u8) -> Option<Self> {
        if v == 0 {
            Some(DynModel::Portable)
        } else if v == 2 {
            Some(DynModel::Stationary)
        } else if v == 3 {
            Some(DynModel::Pedestrian)
        } else if v == 4 {
            Some(DynModel::Automotive)
        } else if v == 5 {
            Some(DynModel::Sea)
        } else if v == 6 {
            Some(DynModel::Airborne1g)
        } else if v == 7 {
            Some(DynModel::Airborne2g)
        } else if v == 8 {
            Some(DynModel::Airborne4g)
        } else {
            None
        }
    }

    /// The config-file spelling.
    pub open spec fn word(self) -> &'static str {
        match self {
            DynModel::Portable => "portable",
            DynModel::Stationary => "stationary",
            DynModel::Pedestrian => "pedestrian",
            DynModel::Automotive => "automotive",
            DynModel::Sea => "sea",
            DynModel::Airborne1g => "airborne1g",
            DynModel::Airborne2g => "airborne2g",
            DynModel::Airborne4g => "airborne4g",
        }
    }

    /// `CFG-NAVSPG-DYNMODEL` enum value. 1 is unused by the u-blox map.
    pub fn dynmodel(self) -> (r: u8)
        ensures
            r == self.model(),
    {
        match self {
            DynModel::Portable => 0,
            DynModel::Stationary => 2,
            DynModel::Pedestrian => 3,
            DynModel::Automotive => 4,
            DynModel::Sea => 5,
            DynModel::Airborne1g => 6,
            DynModel::Airborne2g => 7,
            DynModel::Airborne4g => 8,
        }
    }

    /// Inverse of [`dynmodel`](Self::dynmodel); `None` for an unknown value.
    pub fn from_dynmodel(v: u8) -> (r: Option<Self>)
        ensures
            r == Self::of_model(v),
    {
        match v {
            0 => Some(DynModel::Portable),
            2 => Some(DynModel::Stationary),
            3 => Some(DynModel::Pedestrian),
            4 => Some(DynModel::Automotive),
            5 => Some(DynModel::Sea),
            6 => Some(DynModel::Airborne1g),
            7 => Some(DynModel::Airborne2g),
            8 => Some(DynModel::Airborne4g),
            _ => None,
        }
    }

    /// The `dynamic_model` config-file spelling.
    pub fn as_str(self) -> (r: &'static str)
        ensures
            r == self.word(),
    {
        match self {
            DynModel::Portable => "portable",
            DynModel::Stationary => "stationary",
            DynModel::Pedestrian => "pedestrian",
            DynModel::Automotive => "automotive",
            DynModel::Sea => "sea",
            DynModel::Airborne1g => "airborne1g",
            DynModel::Airborne2g => "airborne2g",
            DynModel::Airborne4g => "airborne4g",
        }
    }
}

/// Every enum value survives its byte, and a byte names at most the value it
/// is the byte of.
pub proof fn law_enum_bytes_round_trip(r: Role, t: TcxoVolts, p: PowerMode, d: DynModel, v: u8)
    ensures
        Role::of_wire(r.wire()) == Some(r),
        TcxoVolts::of_trim(t.trim_value()) == Some(t),
        PowerMode::of_operate(p.operate()) == Some(p),
        DynModel::of_model(d.model()) == Some(d),
        Role::of_wire(v) == Some(r) ==> r.wire() == v,
        TcxoVolts::of_trim(v) == Some(t) ==> t.trim_value() == v,
        PowerMode::of_operate(v) == Some(p) ==> p.operate() == v,
        DynModel::of_model(v) == Some(d) ==> d.model() == v,
{
}

/// A node that repeats listens: whatever it forwards it has to have heard.
pub proof fn law_repeating_implies_receiving(r: Role)
    ensures
        r is Repeater ==> !(r is TxOnly) && !(r is RxOnly),
{
}

/// GPS receiver configuration (u-blox M10, applied via UBX-CFG-VALSET).
///
/// The constellation and power defaults match the M10 factory set.
#[derive(Clone, Copy, Debug, PartialEq, Eq, Hash, Structural)]
pub struct GpsConfig {
    pub gps_enabled: bool,
    pub glonass_enabled: bool,
    pub galileo_enabled: bool,
    pub beidou_enabled: bool,
    pub qzss_enabled: bool,
    pub sbas_enabled: bool,
    /// Receiver power mode.
    pub power_mode: PowerMode,
    /// Measurement period in milliseconds (25-10000).
    pub meas_rate_ms: u16,
    /// Navigation dynamic model.
    pub dyn_model: DynModel,
}

/// The receiver's factory set.
pub open spec fn gps_defaults() -> GpsConfig {
    GpsConfig {
        gps_enabled: true,
        glonass_enabled: false,
        galileo_enabled: true,
        beidou_enabled: true,
        qzss_enabled: true,
        sbas_enabled: true,
        power_mode: PowerMode::Full,
        meas_rate_ms: 1000,
        dyn_model: DynModel::Portable,
    }
}

impl Default for GpsConfig {
    fn default() -> (r: Self)
        ensures
            r == gps_defaults(),
    {
        Self {
            gps_enabled: true,
            // GLONASS is off in the M10 default concurrent set (GPS +
            // Galileo + BeiDou + QZSS + SBAS).
            glonass_enabled: false,
            galileo_enabled: true,
            beidou_enabled: true,
            qzss_enabled: true,
            sbas_enabled: true,
            power_mode: PowerMode::Full,
            meas_rate_ms: 1000,
            dyn_model: DynModel::Portable,
        }
    }
}

/// The `[power]` section: the duty cycle a file asks for, knob by knob.
///
/// Every other key in the file means "this, or the default if absent". These
/// are the only keys the board also keeps its own copy of, so an absent key
/// has to mean "leave the board's live value alone", and an explicit `0` is
/// still a request.
#[derive(Clone, Copy, Debug, PartialEq, Eq, Hash)]
pub struct PowerConfig {
    pub sleep_interval_s: Option<u32>,
    pub adv_window_s: Option<u32>,
    pub ble_off_s: Option<u32>,
    pub idle_timeout_s: Option<u32>,
    pub ble_on_s: Option<u32>,
}

/// A section that mentions no knob.
pub open spec fn power_unasked() -> PowerConfig {
    PowerConfig { sleep_interval_s: None, adv_window_s: None, ble_off_s: None, idle_timeout_s: None, ble_on_s: None }
}

impl Default for PowerConfig {
    fn default() -> (r: Self)
        ensures
            r == power_unasked(),
    {
        PowerConfig { sleep_interval_s: None, adv_window_s: None, ble_off_s: None, idle_timeout_s: None, ble_on_s: None }
    }
}

impl PowerConfig {
    /// What the file asked for `knob`.
    pub open spec fn asked(self, knob: Knob) -> Option<u32> {
        match knob {
            Knob::SleepInterval => self.sleep_interval_s,
            Knob::AdvWindow => self.adv_window_s,
            Knob::BleOff => self.ble_off_s,
            Knob::IdleTimeout => self.idle_timeout_s,
            Knob::BleOn => self.ble_on_s,
        }
    }

    /// The section with `knob` asked for.
    pub open spec fn asking(self, knob: Knob, secs: u32) -> PowerConfig {
        match knob {
            Knob::SleepInterval => PowerConfig { sleep_interval_s: Some(secs), ..self },
            Knob::AdvWindow => PowerConfig { adv_window_s: Some(secs), ..self },
            Knob::BleOff => PowerConfig { ble_off_s: Some(secs), ..self },
            Knob::IdleTimeout => PowerConfig { idle_timeout_s: Some(secs), ..self },
            Knob::BleOn => PowerConfig { ble_on_s: Some(secs), ..self },
        }
    }

    /// What the file asked for `knob`, if it mentioned it.
    pub fn get(&self, knob: Knob) -> (r: Option<u32>)
        ensures
            r == self.asked(knob),
    {
        match knob {
            Knob::SleepInterval => self.sleep_interval_s,
            Knob::AdvWindow => self.adv_window_s,
            Knob::BleOff => self.ble_off_s,
            Knob::IdleTimeout => self.idle_timeout_s,
            Knob::BleOn => self.ble_on_s,
        }
    }

    /// Ask for `knob`.
    pub fn set(&mut self, knob: Knob, secs: u32)
        ensures
            *final(self) == old(self).asking(knob, secs),
            forall|k: Knob| final(self).asked(k) == (if k == knob { Some(secs) } else { old(self).asked(k) }),
    {
        match knob {
            Knob::SleepInterval => {
                self.sleep_interval_s = Some(secs);
            },
            Knob::AdvWindow => {
                self.adv_window_s = Some(secs);
            },
            Knob::BleOff => {
                self.ble_off_s = Some(secs);
            },
            Knob::IdleTimeout => {
                self.idle_timeout_s = Some(secs);
            },
            Knob::BleOn => {
                self.ble_on_s = Some(secs);
            },
        }
    }

    /// The same, for building one in place.
    pub fn with(self, knob: Knob, secs: u32) -> (r: Self)
        ensures
            r == self.asking(knob, secs),
    {
        let mut r: PowerConfig = self;
        r.set(knob, secs);
        r
    }

    /// Whether the file mentioned no knob at all.
    pub fn is_empty(&self) -> (r: bool)
        ensures
            r <==> (forall|k: Knob| self.asked(k) is None),
    {
        let r: bool = self.sleep_interval_s.is_none() && self.adv_window_s.is_none() && self.ble_off_s.is_none()
            && self.idle_timeout_s.is_none() && self.ble_on_s.is_none();
        proof {
            if !r {
                assert(self.asked(Knob::SleepInterval) is Some || self.asked(Knob::AdvWindow) is Some
                    || self.asked(Knob::BleOff) is Some || self.asked(Knob::IdleTimeout) is Some
                    || self.asked(Knob::BleOn) is Some);
            }
        }
        r
    }
}

/// Parsed and validated radio configuration.
#[derive(Clone, Copy, Debug, PartialEq, Eq, Hash)]
pub struct RadioConfig {
    /// RF frequency in Hz.
    pub frequency_hz: u32,
    /// LoRa spreading factor (5-12).
    pub spreading_factor: u8,
    /// LoRa bandwidth in kHz (62 means 62.5).
    pub bandwidth_khz: u16,
    /// LoRa coding rate denominator: 5-8 for 4/5..4/8.
    pub coding_rate: u8,
    /// TX power in dBm (-9..22 on the SX1262 high-power PA).
    pub power_dbm: i8,
    /// Receiver boosted gain.
    pub rx_boost: bool,
    /// Channels in the plan: this many, [`hop_step_khz`](Self::hop_step_khz)
    /// apart, centered on [`frequency_hz`](Self::frequency_hz), visited one
    /// per [`hop_dwell_ms`](Self::hop_dwell_ms). 0 turns the slot clock off
    /// with the plan; 1 keeps the clock on a single carrier, which is the
    /// default; more adds channel diversity on top.
    pub hop_channels: u8,
    /// Spacing between hop channels, kHz.
    pub hop_step_khz: u16,
    /// How long the network stays on each channel, ms.
    pub hop_dwell_ms: u16,
    /// This node's address (1-255). It must be unique among the nodes that
    /// transmit.
    pub address: u8,
    /// Which halves of the air interface this node uses, and whether it
    /// retransmits other nodes' frames.
    pub role: Role,
    /// Retransmissions allowed for a broadcast this node originates.
    pub max_hops: u8,
    /// How long a `(src, id)` pair is remembered for deduplication, in
    /// seconds. Ids wrap every 256 transmissions, so this has to stay well
    /// under the time that takes at the beacon interval in use.
    pub dedup_ttl_s: u16,
    /// Position broadcast interval in seconds, while the node has a fix. 0
    /// silences the node's own transmissions altogether.
    pub beacon_interval_s: u16,
    /// How often a node with no fix says so, in seconds.
    pub ping_interval_s: u16,
    /// Which position fields the beacon puts on the air, as a mask of the
    /// `FIELD_*` bits in [`crate::lora`].
    pub beacon_fields: u8,
    /// Verbose console logging.
    pub verbose: bool,
    /// Use the internal DC-DC (SMPS) rather than the LDO.
    pub dcdc_enabled: bool,
    /// Let the radio drive its own antenna switch from DIO2.
    pub dio2_rf_switch: bool,
    /// Supply the radio drives DIO3 at.
    pub tcxo_volts: TcxoVolts,
    /// How long the radio waits for the TCXO to stabilize, in milliseconds.
    pub tcxo_startup_ms: u16,
    /// Whether a stored board leaves its radio listening for a wake frame
    /// while the chip sleeps. See [`crate::sentry`].
    pub wake_enabled: bool,
    /// The sentry's receive window, ms.
    pub wake_rx_ms: u16,
    /// The sentry's sleep between windows, ms.
    pub wake_sleep_ms: u16,
    /// The carrier the sentry listens on and a wake frame is sent on, Hz; 0
    /// for [`frequency_hz`](Self::frequency_hz).
    pub wake_frequency_hz: u32,
    /// GPS receiver configuration.
    pub gps: GpsConfig,
    /// Duty cycle, i.e. how much of the time the board is reachable.
    pub power: PowerConfig,
}

/// The configuration of a board with no file.
pub open spec fn radio_defaults() -> RadioConfig {
    RadioConfig {
        frequency_hz: 915_000_000,
        spreading_factor: 12,
        bandwidth_khz: 500,
        coding_rate: 5,
        power_dbm: 22,
        rx_boost: true,
        hop_channels: 1,
        hop_step_khz: 500,
        hop_dwell_ms: 1_000,
        address: 1,
        role: Role::Leaf,
        max_hops: 1,
        dedup_ttl_s: 3,
        beacon_interval_s: 1,
        ping_interval_s: 5,
        beacon_fields: lora::FIELDS_DEFAULT,
        verbose: true,
        dcdc_enabled: true,
        dio2_rf_switch: true,
        tcxo_volts: TcxoVolts::V3_3,
        tcxo_startup_ms: 10,
        wake_enabled: true,
        wake_rx_ms: 300,
        wake_sleep_ms: 3_000,
        wake_frequency_hz: 0,
        gps: gps_defaults(),
        power: power_unasked(),
    }
}

impl Default for RadioConfig {
    /// SF12 at 500 kHz on one channel: wide enough to hold a single carrier
    /// in the 902-928 MHz band, so the plan is kept for its slot clock.
    /// Leaf, one repeat allowed, a position every second and nothing else in
    /// it. The board facts are the Wio-S3's hardware.
    fn default() -> (r: Self)
        ensures
            r == radio_defaults(),
    {
        Self {
            frequency_hz: 915_000_000,
            spreading_factor: 12,
            bandwidth_khz: 500,
            coding_rate: 5,
            power_dbm: 22,
            rx_boost: true,
            hop_channels: 1,
            hop_step_khz: 500,
            hop_dwell_ms: 1_000,
            address: 1,
            role: Role::Leaf,
            max_hops: 1,
            dedup_ttl_s: 3,
            beacon_interval_s: 1,
            ping_interval_s: 5,
            beacon_fields: lora::FIELDS_DEFAULT,
            verbose: true,
            dcdc_enabled: true,
            dio2_rf_switch: true,
            tcxo_volts: TcxoVolts::V3_3,
            tcxo_startup_ms: 10,
            wake_enabled: true,
            wake_rx_ms: 300,
            wake_sleep_ms: 3_000,
            wake_frequency_hz: 0,
            gps: GpsConfig::default(),
            power: PowerConfig::default(),
        }
    }
}

/// Preamble length every frame on the network is sent with, in symbols.
pub const PREAMBLE_SYMBOLS: u32 = 8;

/// Ceiling on [`RadioConfig::hop_dwell_ms`].
pub const HOP_DWELL_MAX_MS: u16 = 10_000;

/// Floor on [`RadioConfig::hop_dwell_ms`]: below this the guards leave no
/// room for even the fastest beacon.
pub const HOP_DWELL_MIN_MS: u16 = 100;

/// Floor on [`RadioConfig::hop_step_khz`].
pub const HOP_STEP_MIN_KHZ: u16 = 25;

/// Ceiling on [`RadioConfig::hop_step_khz`].
pub const HOP_STEP_MAX_KHZ: u16 = 5_000;

/// Ceiling on [`RadioConfig::max_hops`]: each hop costs another full
/// transmission of the same frame on a shared channel.
pub const MAX_HOPS_LIMIT: u8 = 8;

/// The lowest carrier the SX126x covers, Hz.
pub const RF_MIN_HZ: u64 = 150_000_000;

/// The highest carrier the SX126x covers, Hz.
pub const RF_MAX_HZ: u64 = 960_000_000;

/// `2^n`.
fn two_to(n: u8) -> (r: u32)
    requires
        n <= 31,
    ensures
        r == pow2(n as nat),
{
    proof {
        lemma2_to64();
        if n < 31 {
            lemma_pow2_strictly_increases(n as nat, 31);
        }
        vstd::bits::lemma_u32_shl_is_mul(1, n as u32);
    }
    1u32 << (n as u32)
}

impl RadioConfig {
    /// A modulation the arithmetic below is defined on: some bandwidth, and a
    /// spreading factor whose symbol count fits.
    pub open spec fn modulated(self) -> bool {
        self.bandwidth_khz > 0 && self.spreading_factor <= 25
    }

    /// The spreading factor brought inside the chip's range.
    pub open spec fn sf(self) -> nat {
        time::clamped(self.spreading_factor as int, 5, 12) as nat
    }

    /// Bandwidth in Hz; 62 is the config's shorthand for 62.5 kHz.
    pub open spec fn bandwidth_hz(self) -> int {
        if self.bandwidth_khz == 62 {
            62_500
        } else {
            self.bandwidth_khz * 1_000
        }
    }

    /// One symbol, microseconds.
    pub open spec fn symbol_us(self) -> int {
        pow2(self.sf()) * (1_000_000int / self.bandwidth_hz())
    }

    /// Whether low-data-rate optimization is on: the symbol is 16.38 ms or
    /// longer.
    pub open spec fn low_rate(self) -> bool {
        pow2(self.spreading_factor as nat) as int * 100 / (self.bandwidth_khz as int) >= 1638
    }

    /// On-air time relative to SF7/BW125.
    pub open spec fn scale(self) -> int {
        let over = if self.sf() > 7 { self.sf() - 7 } else { 0 };
        let s = pow2(over as nat) as int * 125 / (self.bandwidth_khz as int);
        if s < 1 {
            1
        } else {
            s
        }
    }

    /// Symbols a payload takes behind the preamble.
    pub open spec fn payload_symbols(self, payload_len: int) -> int {
        let num = 8 * payload_len - 4 * self.sf() + 44;
        let den = 4 * (self.sf() - (if self.low_rate() { 2int } else { 0 }));
        if num <= 0 {
            8
        } else {
            8 + (num + den - 1) / den * time::clamped(self.coding_rate as int, 5, 8)
        }
    }

    /// The Semtech time-on-air formula: a preamble of `preamble_syms` and a
    /// quarter past four symbols, then the payload with an explicit header
    /// and the CRC on.
    pub open spec fn airtime_us(self, payload_len: int, preamble_syms: int) -> int {
        (4 * preamble_syms + 17) * self.symbol_us() / 4 + self.payload_symbols(payload_len) * self.symbol_us()
    }

    /// Whether the formula's terms fit the words it is computed in.
    pub open spec fn airtime_fits(self, payload_len: int, preamble_syms: int) -> bool {
        &&& self.modulated()
        &&& 8 * payload_len + 44 <= i32::MAX
        &&& (4 * preamble_syms + 17) * self.symbol_us() <= u32::MAX
        &&& self.airtime_us(payload_len, preamble_syms) <= u32::MAX
    }

    /// Low-data-rate optimization is required when the LoRa symbol time
    /// exceeds 16.38 ms (SF11/SF12 at BW125, SF12 at BW62.5).
    pub fn ldro(&self) -> (r: bool)
        requires
            self.modulated(),
        ensures
            r == self.low_rate(),
    {
        proof {
            lemma2_to64();
            if self.spreading_factor < 25 {
                lemma_pow2_strictly_increases(self.spreading_factor as nat, 25);
            }
        }
        let num: u32 = two_to(self.spreading_factor);
        num * 100 / (self.bandwidth_khz as u32) >= 1638
    }

    fn sf_clamped(&self) -> (r: u8)
        ensures
            r == self.sf(),
            5 <= r <= 12,
    {
        if self.spreading_factor < 5 {
            5
        } else if self.spreading_factor > 12 {
            12
        } else {
            self.spreading_factor
        }
    }

    proof fn lemma_scale_bounds(self)
        requires
            self.bandwidth_khz > 0,
        ensures
            1 <= self.scale() <= 4000,
            ({
                let over = if self.sf() > 7 { self.sf() - 7 } else { 0 };
                1 <= pow2(over as nat) <= 32
            }),
    {
        lemma2_to64();
        let over = if self.sf() > 7 { self.sf() - 7 } else { 0 };
        if over < 5 {
            lemma_pow2_strictly_increases(over as nat, 5);
        }
        lemma_pow2_pos(over as nat);
        let n: int = pow2(over as nat) as int * 125;
        let d: int = self.bandwidth_khz as int;
        assert(0 <= n / d <= n) by (nonlinear_arith)
            requires
                n >= 0,
                d >= 1,
        ;
    }

    /// Approximate scale of the on-air time relative to SF7/BW125, used to
    /// derive TX timeouts and safe listen periods.
    pub fn airtime_scale(&self) -> (r: u32)
        requires
            self.bandwidth_khz > 0,
        ensures
            r == self.scale(),
            1 <= r <= 4000,
    {
        proof {
            self.lemma_scale_bounds();
        }
        let base: u32 = two_to(self.sf_clamped().saturating_sub(7));
        let s: u32 = base * 125 / (self.bandwidth_khz as u32);
        if s < 1 {
            1
        } else {
            s
        }
    }

    /// How long to wait for a transmit to finish, ms.
    pub open spec fn poll_ms(self) -> int {
        150 * self.scale() + 100
    }

    /// The longest a transmit keeps the loop, ms.
    pub open spec fn worst_ms(self) -> int {
        self.poll_ms() + self.hop_dwell_ms
    }

    /// How long the chip gives a transmit, ms.
    pub open spec fn chip_ms(self) -> int {
        150 * self.scale() + 600
    }

    /// The longest a repeater waits before it forwards, ms.
    pub open spec fn jitter_ms(self) -> int {
        100 * self.scale()
    }

    /// From the start of a preamble to the end of the header, microseconds.
    pub open spec fn header_us(self) -> int {
        (4 * PREAMBLE_SYMBOLS + 17) * self.symbol_us() / 4 + HEADER_SYMBOLS * self.symbol_us()
    }

    /// The carrier of wake frames, Hz.
    pub open spec fn wake_hz(self) -> u32 {
        if self.wake_frequency_hz == 0 {
            self.frequency_hz
        } else {
            self.wake_frequency_hz
        }
    }

    /// Software poll deadline for TxDone (ms).
    pub fn tx_poll_timeout_ms(&self) -> (r: u32)
        requires
            self.bandwidth_khz > 0,
        ensures
            r == self.poll_ms(),
            r <= 600_100,
    {
        150 * self.airtime_scale() + 100
    }

    /// Chip-level TX timeout (ms); longer than the poll deadline so the
    /// polling loop always exits first.
    pub fn tx_chip_timeout_ms(&self) -> (r: u32)
        requires
            self.bandwidth_khz > 0,
        ensures
            r == self.chip_ms(),
    {
        self.tx_poll_timeout_ms() + 500
    }

    /// The longest a transmit can hold the hardware loop, ms: the TxDone
    /// deadline, plus a whole hop slot for a send that finds its clock has
    /// moved and waits for the next window.
    pub fn tx_worst_case_ms(&self) -> (r: u32)
        requires
            self.bandwidth_khz > 0,
        ensures
            r == self.worst_ms(),
    {
        self.tx_poll_timeout_ms() + self.hop_dwell_ms as u32
    }

    /// Upper bound of the random delay a repeater waits before forwarding a
    /// frame (ms). Scales with the modulation: the wait has to span enough
    /// air time for one of two repeaters to win outright.
    pub fn repeat_jitter_ms(&self) -> (r: u32)
        requires
            self.bandwidth_khz > 0,
        ensures
            r == self.jitter_ms(),
    {
        100 * self.airtime_scale()
    }

    /// A symbol is never longer than 4096 milliseconds.
    pub(crate) proof fn lemma_symbol_bounds(self)
        requires
            self.bandwidth_khz > 0,
        ensures
            0 <= self.symbol_us() <= 4_096_000,
            0 <= 1_000_000int / self.bandwidth_hz() <= 1_000,
            32 <= pow2(self.sf()) <= 4096,
    {
        lemma2_to64();
        let n: int = pow2(self.sf()) as int;
        if self.sf() < 12 {
            lemma_pow2_strictly_increases(self.sf(), 12);
        }
        if self.sf() > 5 {
            lemma_pow2_strictly_increases(5, self.sf());
        }
        let hz: int = self.bandwidth_hz();
        let q: int = 1_000_000int / hz;
        assert(0 <= q <= 1_000) by (nonlinear_arith)
            requires
                hz >= 1_000,
                q == 1_000_000int / hz,
        ;
        assert(0 <= n * q <= 4_096_000) by (nonlinear_arith)
            requires
                0 <= n <= 4096,
                0 <= q <= 1_000,
        ;
    }

    /// One LoRa symbol at the current spreading factor and bandwidth, in
    /// microseconds. The four legal bandwidths all divide 1 MHz evenly, so
    /// this is exact in integer math.
    pub fn symbol_time_us(&self) -> (r: u32)
        requires
            self.bandwidth_khz > 0,
        ensures
            r == self.symbol_us(),
            r <= 4_096_000,
    {
        proof {
            self.lemma_symbol_bounds();
        }
        let sf: u8 = self.sf_clamped();
        let bw_hz: u32 = if self.bandwidth_khz == 62 {
            62_500
        } else {
            self.bandwidth_khz as u32 * 1_000
        };
        let chips: u32 = two_to(sf);
        let per: u32 = 1_000_000 / bw_hz;
        assert(chips * per == self.symbol_us());
        chips * per
    }

    /// Exact LoRa time-on-air for a PHY payload of `payload_len` bytes, in
    /// microseconds, with the preamble every frame on the network carries.
    pub fn time_on_air_us(&self, payload_len: usize) -> (r: u32)
        requires
            self.airtime_fits(payload_len as int, PREAMBLE_SYMBOLS as int),
        ensures
            r == self.airtime_us(payload_len as int, PREAMBLE_SYMBOLS as int),
    {
        self.time_on_air_preamble_us(payload_len, PREAMBLE_SYMBOLS)
    }

    /// [`time_on_air_us`](Self::time_on_air_us) with the preamble length
    /// given rather than assumed.
    ///
    /// A transmission meant to be caught by a receiver that is only
    /// listening part of the time has a preamble that spans that receiver's
    /// whole cycle, which is most of what such a frame costs.
    pub fn time_on_air_preamble_us(&self, payload_len: usize, preamble_syms: u32) -> (r: u32)
        requires
            self.airtime_fits(payload_len as int, preamble_syms as int),
        ensures
            r == self.airtime_us(payload_len as int, preamble_syms as int),
    {
        let sf: u8 = self.sf_clamped();
        let t_sym_us: u32 = self.symbol_time_us();
        let ghost t: int = self.symbol_us();
        let ghost syms: int = self.payload_symbols(payload_len as int);

        // The preamble is (n + 4.25) symbols. 4.25 = 17/4, so the symbol
        // count is scaled by 4 and divided once to keep the quarter exact.
        let quarters: u64 = 4 * (preamble_syms as u64) + 17;
        assert(0 <= quarters * t <= u32::MAX) by (nonlinear_arith)
            requires
                quarters >= 0,
                t >= 0,
                quarters * t <= u32::MAX,
        ;
        let t_preamble_us: u64 = quarters * (t_sym_us as u64) / 4;

        // Payload symbol count: the header is explicit and the CRC is on
        // (the 16 in 44), and no symbols are added beyond the fixed 8 for a
        // payload shorter than any real frame.
        let cr: i64 = if self.coding_rate < 5 {
            5
        } else if self.coding_rate > 8 {
            8
        } else {
            self.coding_rate as i64
        };
        let de: i64 = if self.ldro() {
            2
        } else {
            0
        };
        let num: i64 = 8 * (payload_len as i64) - 4 * (sf as i64) + 44;
        let den: i64 = 4 * (sf as i64 - de);
        let payload_syms: i64 = if num <= 0 {
            8
        } else {
            let groups: i64 = (num + den - 1) / den;
            proof {
                let top: int = num + den - 1;
                let d: int = den as int;
                assert(0 <= top / d <= top) by (nonlinear_arith)
                    requires
                        top >= 0,
                        d >= 12,
                ;
                let g: int = groups as int;
                let c: int = cr as int;
                assert(0 <= g * c <= 8 * g) by (nonlinear_arith)
                    requires
                        g >= 0,
                        5 <= c <= 8,
                ;
            }
            8 + groups * cr
        };
        assert(payload_syms == syms);
        proof {
            assert(0 <= syms * t <= u32::MAX) by {
                assert(0 <= syms * t) by (nonlinear_arith)
                    requires
                        syms >= 0,
                        t >= 0,
                ;
            }
        }
        let t_payload_us: u64 = (payload_syms as u64) * (t_sym_us as u64);
        (t_preamble_us + t_payload_us) as u32
    }

    /// A short payload's symbols take a bounded time.
    pub(crate) proof fn lemma_payload_bounds(self, payload_len: int)
        requires
            self.modulated(),
            0 <= payload_len <= 64,
        ensures
            0 <= self.payload_symbols(payload_len) <= 392,
            0 <= self.payload_symbols(payload_len) * self.symbol_us() <= 392 * 4_096_000,
    {
        self.lemma_symbol_bounds();
        let t: int = self.symbol_us();
        let num = 8 * payload_len - 4 * self.sf() + 44;
        let den: int = 4 * (self.sf() - (if self.low_rate() { 2int } else { 0 }));
        let syms = self.payload_symbols(payload_len);
        if num > 0 {
            let top: int = num + den - 1;
            let g: int = top / den;
            assert(0 <= g <= 48) by (nonlinear_arith)
                requires
                    0 <= top < 536 + den,
                    den >= 12,
                    g == top / den,
            ;
            let c: int = time::clamped(self.coding_rate as int, 5, 8);
            assert(0 <= g * c <= 384) by (nonlinear_arith)
                requires
                    0 <= g <= 48,
                    5 <= c <= 8,
            ;
        }
        assert(0 <= syms * t <= 392 * 4_096_000) by (nonlinear_arith)
            requires
                0 <= syms <= 392,
                0 <= t <= 4_096_000,
        ;
    }

    /// Frames up to twice the longest this crate sends, behind the ordinary
    /// preamble, always fit.
    pub proof fn lemma_frames_fit(self, payload_len: int)
        requires
            self.modulated(),
            0 <= payload_len <= 64,
        ensures
            self.airtime_fits(payload_len, PREAMBLE_SYMBOLS as int),
            0 <= self.airtime_us(payload_len, PREAMBLE_SYMBOLS as int),
    {
        self.lemma_symbol_bounds();
        self.lemma_payload_bounds(payload_len);
        assert(4 * PREAMBLE_SYMBOLS + 17 == 49);
    }

    /// Bytes every frame this node sends carries ahead of its payload: the
    /// header and the slot clock's sync word.
    pub fn frame_overhead(&self) -> (r: usize)
        ensures
            r == lora::HEADER_SYNC_LEN,
    {
        lora::HEADER_SYNC_LEN
    }

    /// Time-on-air of one beacon transmission at the current settings, in
    /// microseconds: the frame header and sync word plus whichever position
    /// fields [`beacon_fields`](Self::beacon_fields) selects.
    pub fn beacon_airtime_us(&self) -> (r: u32)
        requires
            self.modulated(),
        ensures
            r == self.beacon_us(),
    {
        let payload: usize = self.frame_overhead() + lora::position_msg_len(self.beacon_fields);
        proof {
            self.lemma_frames_fit(payload as int);
        }
        self.time_on_air_us(payload)
    }

    /// Time-on-air of one no-fix ping at the current settings, in
    /// microseconds.
    pub fn ping_airtime_us(&self) -> (r: u32)
        requires
            self.modulated(),
        ensures
            r == self.ping_us(),
    {
        proof {
            self.lemma_frames_fit(lora::HEADER_SYNC_LEN + lora::PING_MSG_LEN);
        }
        self.time_on_air_us(self.frame_overhead() + lora::PING_MSG_LEN)
    }

    /// Air time of a beacon, microseconds.
    pub open spec fn beacon_us(self) -> int {
        self.airtime_us(lora::HEADER_SYNC_LEN + lora::message_len(self.beacon_fields), PREAMBLE_SYMBOLS as int)
    }

    /// Air time of a ping, microseconds.
    pub open spec fn ping_us(self) -> int {
        self.airtime_us(lora::HEADER_SYNC_LEN + lora::PING_MSG_LEN, PREAMBLE_SYMBOLS as int)
    }

    /// Air time of the lean beacon, microseconds.
    pub open spec fn unit_us(self) -> int {
        self.airtime_us(lora::HEADER_SYNC_LEN + lora::message_len(lora::FIELDS_DEFAULT), PREAMBLE_SYMBOLS as int)
    }

    /// Time-on-air of the lean beacon - header, sync word and position only -
    /// in microseconds: the unit a hop slot is cut into turns by. Taken from
    /// the modulation alone, so every node on a network cuts the slot the
    /// same way whatever each of them chooses to send.
    pub fn hop_unit_airtime_us(&self) -> (r: u32)
        requires
            self.modulated(),
        ensures
            r == self.unit_us(),
    {
        let payload: usize = self.frame_overhead() + lora::position_msg_len(lora::FIELDS_DEFAULT);
        proof {
            self.lemma_frames_fit(payload as int);
        }
        self.time_on_air_us(payload)
    }

    /// Time a receiver needs from the start of a preamble to the end of the
    /// explicit header, in microseconds: the preamble plus the eight symbols
    /// the header occupies. A preamble detection that has not become a valid
    /// header by then was noise.
    pub fn header_time_us(&self) -> (r: u32)
        requires
            self.bandwidth_khz > 0,
        ensures
            r == self.header_us(),
    {
        let t: u32 = self.symbol_time_us();
        assert((4 * PREAMBLE_SYMBOLS + 17) * self.symbol_us() == 49 * t);
        assert(HEADER_SYMBOLS * self.symbol_us() == 8 * t);
        (4 * PREAMBLE_SYMBOLS + 17) * t / 4 + HEADER_SYMBOLS * t
    }

    /// The carrier a sentry listens on and a wake frame goes out on.
    pub fn wake_carrier_hz(&self) -> (r: u32)
        ensures
            r == self.wake_hz(),
    {
        if self.wake_frequency_hz == 0 {
            self.frequency_hz
        } else {
            self.wake_frequency_hz
        }
    }
}

// -- Read-back blob -------------------------------------------------------------
//
// A fixed, versioned binary snapshot of a [`RadioConfig`], so a board can
// report the settings it is actually running.

/// Wire length of the [`RadioConfig`] read-back blob.
pub const RADIO_CONFIG_LEN: usize = 42;

/// Length of the blob before the hop plan was appended, the least
/// [`RadioConfig::decode`] accepts.
pub const RADIO_CONFIG_LEN_V1: usize = 28;

/// Length with the hop plan but before the ping interval.
pub const RADIO_CONFIG_LEN_HOP: usize = 32;

/// Length with the ping interval but before the wake sentry's periods.
pub const RADIO_CONFIG_LEN_PING: usize = 34;

/// Layout version in byte 0, so an app meeting a newer firmware can reject
/// the blob rather than misread it.
pub const RADIO_CONFIG_VERSION: u8 = 1;

/// A flag's bit in a byte, or nothing.
#[verifier::opaque]
pub open spec fn bit(on: bool, weight: int) -> int {
    if on {
        weight
    } else {
        0
    }
}

/// Whether the bit of weight `weight` is set.
#[verifier::opaque]
pub open spec fn has_bit(b: u8, weight: int) -> bool {
    b as int / weight % 2 == 1
}

/// The misc flags: RX boost, then a reserved bit, verbose, DC-DC, the
/// antenna switch, wake.
#[verifier::opaque]
pub open spec fn blob_flags(c: RadioConfig) -> u8 {
    (bit(c.rx_boost, 1) + bit(c.verbose, 4) + bit(c.dcdc_enabled, 8) + bit(c.dio2_rf_switch, 16) + bit(
        c.wake_enabled,
        32,
    )) as u8
}

/// The constellation flags.
#[verifier::opaque]
pub open spec fn blob_gps_flags(g: GpsConfig) -> u8 {
    (bit(g.gps_enabled, 1) + bit(g.glonass_enabled, 2) + bit(g.galileo_enabled, 4) + bit(g.beidou_enabled, 8) + bit(
        g.qzss_enabled,
        16,
    ) + bit(g.sbas_enabled, 32)) as u8
}

/// The read-back blob, byte by byte.
pub open spec fn blob_bytes(c: RadioConfig) -> Seq<u8> {
    seq![
        RADIO_CONFIG_VERSION, blob_flags(c), blob_gps_flags(c.gps), c.role.wire(),
        bytes::byte_of(c.frequency_hz, 0), bytes::byte_of(c.frequency_hz, 1),
        bytes::byte_of(c.frequency_hz, 2), bytes::byte_of(c.frequency_hz, 3),
        c.spreading_factor,
        bytes::lo(c.bandwidth_khz), bytes::hi(c.bandwidth_khz),
        c.coding_rate, bytes::of_i8(c.power_dbm), c.address, c.max_hops,
        bytes::lo(c.dedup_ttl_s), bytes::hi(c.dedup_ttl_s),
        bytes::lo(c.beacon_interval_s), bytes::hi(c.beacon_interval_s),
        c.beacon_fields, c.tcxo_volts.trim_value(),
        bytes::lo(c.tcxo_startup_ms), bytes::hi(c.tcxo_startup_ms),
        c.gps.power_mode.operate(),
        bytes::lo(c.gps.meas_rate_ms), bytes::hi(c.gps.meas_rate_ms),
        c.gps.dyn_model.model(), c.hop_channels,
        bytes::lo(c.hop_step_khz), bytes::hi(c.hop_step_khz),
        bytes::lo(c.hop_dwell_ms), bytes::hi(c.hop_dwell_ms),
        bytes::lo(c.ping_interval_s), bytes::hi(c.ping_interval_s),
        bytes::lo(c.wake_rx_ms), bytes::hi(c.wake_rx_ms),
        bytes::lo(c.wake_sleep_ms), bytes::hi(c.wake_sleep_ms),
        bytes::byte_of(c.wake_frequency_hz, 0), bytes::byte_of(c.wake_frequency_hz, 1),
        bytes::byte_of(c.wake_frequency_hz, 2), bytes::byte_of(c.wake_frequency_hz, 3),
    ]
}

/// Whether a byte string is a blob this build reads: long enough, the known
/// version, and every enum byte one it knows.
pub open spec fn blob_reads(b: Seq<u8>) -> bool {
    &&& b.len() >= RADIO_CONFIG_LEN_V1
    &&& b[0] == RADIO_CONFIG_VERSION
    &&& Role::of_wire(b[3]) is Some
    &&& TcxoVolts::of_trim(b[20]) is Some
    &&& PowerMode::of_operate(b[23]) is Some
    &&& DynModel::of_model(b[26]) is Some
}

/// The receiver's half of what a blob says.
pub open spec fn blob_gps(b: Seq<u8>) -> GpsConfig {
    GpsConfig {
        gps_enabled: has_bit(b[2], 1),
        glonass_enabled: has_bit(b[2], 2),
        galileo_enabled: has_bit(b[2], 4),
        beidou_enabled: has_bit(b[2], 8),
        qzss_enabled: has_bit(b[2], 16),
        sbas_enabled: has_bit(b[2], 32),
        power_mode: PowerMode::of_operate(b[23])->0,
        meas_rate_ms: bytes::le16_at(b, 24),
        dyn_model: DynModel::of_model(b[26])->0,
    }
}

/// What a blob says. One that stops before the hop plan reads as one channel
/// on the default plan; one that stops before the ping interval pings on the
/// beacon's; one that stops before the sentry has none.
pub open spec fn blob_config(b: Seq<u8>) -> RadioConfig {
    let hopping = b.len() >= RADIO_CONFIG_LEN_HOP;
    let has_ping = b.len() >= RADIO_CONFIG_LEN_PING;
    let has_wake = b.len() >= RADIO_CONFIG_LEN;
    RadioConfig {
        frequency_hz: bytes::le32_at(b, 4),
        spreading_factor: b[8],
        bandwidth_khz: bytes::le16_at(b, 9),
        coding_rate: b[11],
        power_dbm: bytes::to_i8(b[12]),
        rx_boost: has_bit(b[1], 1),
        hop_channels: if hopping && b[27] > 0 { b[27] } else { 1 },
        hop_step_khz: if hopping { bytes::le16_at(b, 28) } else { radio_defaults().hop_step_khz },
        hop_dwell_ms: if hopping { bytes::le16_at(b, 30) } else { radio_defaults().hop_dwell_ms },
        address: b[13],
        role: Role::of_wire(b[3])->0,
        max_hops: b[14],
        dedup_ttl_s: bytes::le16_at(b, 15),
        beacon_interval_s: bytes::le16_at(b, 17),
        ping_interval_s: if has_ping { bytes::le16_at(b, 32) } else { bytes::le16_at(b, 17) },
        beacon_fields: b[19],
        verbose: has_bit(b[1], 4),
        dcdc_enabled: has_bit(b[1], 8),
        dio2_rf_switch: has_bit(b[1], 16),
        tcxo_volts: TcxoVolts::of_trim(b[20])->0,
        tcxo_startup_ms: bytes::le16_at(b, 21),
        wake_enabled: has_wake && has_bit(b[1], 32),
        wake_rx_ms: if has_wake { bytes::le16_at(b, 34) } else { radio_defaults().wake_rx_ms },
        wake_sleep_ms: if has_wake { bytes::le16_at(b, 36) } else { radio_defaults().wake_sleep_ms },
        wake_frequency_hz: if has_wake { bytes::le32_at(b, 38) } else { 0 },
        gps: blob_gps(b),
        power: power_unasked(),
    }
}

/// A flag's bit in a byte, or nothing.
fn flag(on: bool, weight: u8) -> (r: u8)
    ensures
        r == (if on { weight } else { 0 }),
{
    if on {
        weight
    } else {
        0
    }
}

/// Whether the bit of weight `weight` is set.
fn flagged(b: u8, weight: u8) -> (r: bool)
    requires
        weight > 0,
    ensures
        r == has_bit(b, weight as int),
{
    proof {
        reveal(has_bit);
    }
    b / weight % 2 == 1
}

/// Six flags packed by weight read back one by one.
proof fn lemma_six_flags(a: bool, b: bool, c: bool, d: bool, e: bool, f: bool)
    ensures
        ({
            let v = bit(a, 1) + bit(b, 2) + bit(c, 4) + bit(d, 8) + bit(e, 16) + bit(f, 32);
            &&& 0 <= v < 64
            &&& has_bit(v as u8, 1) == a
            &&& has_bit(v as u8, 2) == b
            &&& has_bit(v as u8, 4) == c
            &&& has_bit(v as u8, 8) == d
            &&& has_bit(v as u8, 16) == e
            &&& has_bit(v as u8, 32) == f
        }),
{
    reveal(bit);
    reveal(has_bit);
    let ba = bit(a, 1);
    let bb = bit(b, 1);
    let bc = bit(c, 1);
    let bd = bit(d, 1);
    let be = bit(e, 1);
    let bf = bit(f, 1);
    let v = ba + 2 * bb + 4 * bc + 8 * bd + 16 * be + 32 * bf;
    assert(v / 2 == bb + 2 * bc + 4 * bd + 8 * be + 16 * bf);
    assert(v / 4 == bc + 2 * bd + 4 * be + 8 * bf);
    assert(v / 8 == bd + 2 * be + 4 * bf);
    assert(v / 16 == be + 2 * bf);
    assert(v / 32 == bf);
}

proof fn lemma_blob_flags_read(c: RadioConfig)
    ensures
        has_bit(blob_flags(c), 1) == c.rx_boost,
        has_bit(blob_flags(c), 4) == c.verbose,
        has_bit(blob_flags(c), 8) == c.dcdc_enabled,
        has_bit(blob_flags(c), 16) == c.dio2_rf_switch,
        has_bit(blob_flags(c), 32) == c.wake_enabled,
        has_bit(blob_gps_flags(c.gps), 1) == c.gps.gps_enabled,
        has_bit(blob_gps_flags(c.gps), 2) == c.gps.glonass_enabled,
        has_bit(blob_gps_flags(c.gps), 4) == c.gps.galileo_enabled,
        has_bit(blob_gps_flags(c.gps), 8) == c.gps.beidou_enabled,
        has_bit(blob_gps_flags(c.gps), 16) == c.gps.qzss_enabled,
        has_bit(blob_gps_flags(c.gps), 32) == c.gps.sbas_enabled,
{
    reveal(blob_flags);
    reveal(blob_gps_flags);
    assert(bit(false, 2) == 0) by {
        reveal(bit);
    }
    lemma_six_flags(c.rx_boost, false, c.verbose, c.dcdc_enabled, c.dio2_rf_switch, c.wake_enabled);
    lemma_six_flags(
        c.gps.gps_enabled,
        c.gps.glonass_enabled,
        c.gps.galileo_enabled,
        c.gps.beidou_enabled,
        c.gps.qzss_enabled,
        c.gps.sbas_enabled,
    );
}

impl RadioConfig {
    fn flags_byte(&self) -> (r: u8)
        ensures
            r == blob_flags(*self),
    {
        proof {
            reveal(bit);
            reveal(blob_flags);
        }
        flag(self.rx_boost, 1) + flag(self.verbose, 4) + flag(self.dcdc_enabled, 8) + flag(
            self.dio2_rf_switch,
            16,
        ) + flag(self.wake_enabled, 32)
    }

    fn gps_flags_byte(&self) -> (r: u8)
        ensures
            r == blob_gps_flags(self.gps),
    {
        proof {
            reveal(bit);
            reveal(blob_gps_flags);
        }
        flag(self.gps.gps_enabled, 1) + flag(self.gps.glonass_enabled, 2) + flag(self.gps.galileo_enabled, 4) + flag(
            self.gps.beidou_enabled,
            8,
        ) + flag(self.gps.qzss_enabled, 16) + flag(self.gps.sbas_enabled, 32)
    }

    /// Encode the config as the fixed [`RADIO_CONFIG_LEN`]-byte read-back
    /// blob (little-endian). The duty cycle is not carried: what the board
    /// is running is reported live in [`crate::ble::Settings`].
    pub fn encode(&self) -> (r: [u8; RADIO_CONFIG_LEN])
        ensures
            r@ == blob_bytes(*self),
    {
        let flags: u8 = self.flags_byte();
        let g: u8 = self.gps_flags_byte();
        let freq: [u8; 4] = u32_bytes(self.frequency_hz);
        let bw: [u8; 2] = u16_bytes(self.bandwidth_khz);
        let ttl: [u8; 2] = u16_bytes(self.dedup_ttl_s);
        let interval: [u8; 2] = u16_bytes(self.beacon_interval_s);
        let startup: [u8; 2] = u16_bytes(self.tcxo_startup_ms);
        let rate: [u8; 2] = u16_bytes(self.gps.meas_rate_ms);
        let step: [u8; 2] = u16_bytes(self.hop_step_khz);
        let dwell: [u8; 2] = u16_bytes(self.hop_dwell_ms);
        let ping: [u8; 2] = u16_bytes(self.ping_interval_s);
        let rx: [u8; 2] = u16_bytes(self.wake_rx_ms);
        let sleep: [u8; 2] = u16_bytes(self.wake_sleep_ms);
        let wake: [u8; 4] = u32_bytes(self.wake_frequency_hz);
        let r: [u8; RADIO_CONFIG_LEN] = [
            RADIO_CONFIG_VERSION, flags, g, self.role.to_wire(),
            freq[0], freq[1], freq[2], freq[3],
            self.spreading_factor, bw[0], bw[1],
            self.coding_rate, i8_byte(self.power_dbm), self.address, self.max_hops,
            ttl[0], ttl[1], interval[0], interval[1],
            self.beacon_fields, self.tcxo_volts.trim(), startup[0], startup[1],
            self.gps.power_mode.operate_mode(), rate[0], rate[1],
            self.gps.dyn_model.dynmodel(), self.hop_channels,
            step[0], step[1], dwell[0], dwell[1], ping[0], ping[1],
            rx[0], rx[1], sleep[0], sleep[1],
            wake[0], wake[1], wake[2], wake[3],
        ];
        assert(r@ =~= blob_bytes(*self));
        r
    }

    /// Decode a read-back blob. `None` for a short buffer, an unknown layout
    /// version, or an enum byte this build does not recognize. Trailing
    /// bytes are tolerated so a future layout can only grow.
    pub fn decode(b: &[u8]) -> (r: Option<Self>)
        ensures
            r == (if blob_reads(b@) { Some(blob_config(b@)) } else { None::<RadioConfig> }),
    {
        if b.len() < RADIO_CONFIG_LEN_V1 || b[0] != RADIO_CONFIG_VERSION {
            return None;
        }
        let hopping: bool = b.len() >= RADIO_CONFIG_LEN_HOP;
        let has_ping: bool = b.len() >= RADIO_CONFIG_LEN_PING;
        let has_wake: bool = b.len() >= RADIO_CONFIG_LEN;
        let Some(role) = Role::from_wire(b[3]) else { return None; };
        let Some(tcxo_volts) = TcxoVolts::from_trim(b[20]) else { return None; };
        let Some(power_mode) = PowerMode::from_operate_mode(b[23]) else { return None; };
        let Some(dyn_model) = DynModel::from_dynmodel(b[26]) else { return None; };
        let flags: u8 = b[1];
        let defaults: RadioConfig = RadioConfig::default();
        // A zero has meant "one channel" since the schedule was made always
        // on: the clock on a single carrier.
        let hop_channels: u8 = if hopping && b[27] > 0 { b[27] } else { 1 };
        let hop_step_khz: u16 = if hopping { u16_at(b, 28) } else { defaults.hop_step_khz };
        let hop_dwell_ms: u16 = if hopping { u16_at(b, 30) } else { defaults.hop_dwell_ms };
        let beacon_interval_s: u16 = u16_at(b, 17);
        let ping_interval_s: u16 = if has_ping { u16_at(b, 32) } else { beacon_interval_s };
        let wake_enabled: bool = has_wake && flagged(flags, 32);
        let wake_rx_ms: u16 = if has_wake { u16_at(b, 34) } else { defaults.wake_rx_ms };
        let wake_sleep_ms: u16 = if has_wake { u16_at(b, 36) } else { defaults.wake_sleep_ms };
        let wake_frequency_hz: u32 = if has_wake { u32_at(b, 38) } else { 0 };
        Some(Self {
            frequency_hz: u32_at(b, 4),
            spreading_factor: b[8],
            bandwidth_khz: u16_at(b, 9),
            coding_rate: b[11],
            power_dbm: byte_i8(b[12]),
            rx_boost: flagged(flags, 1),
            hop_channels,
            hop_step_khz,
            hop_dwell_ms,
            address: b[13],
            role,
            max_hops: b[14],
            dedup_ttl_s: u16_at(b, 15),
            beacon_interval_s,
            ping_interval_s,
            beacon_fields: b[19],
            verbose: flagged(flags, 4),
            dcdc_enabled: flagged(flags, 8),
            dio2_rf_switch: flagged(flags, 16),
            tcxo_volts,
            tcxo_startup_ms: u16_at(b, 21),
            wake_enabled,
            wake_rx_ms,
            wake_sleep_ms,
            wake_frequency_hz,
            gps: blob_gps_of(b, power_mode, dyn_model),
            power: PowerConfig::default(),
        })
    }
}

/// The receiver's half of a blob, its two enum bytes already read.
fn blob_gps_of(b: &[u8], power_mode: PowerMode, dyn_model: DynModel) -> (r: GpsConfig)
    requires
        b@.len() >= RADIO_CONFIG_LEN_V1,
        PowerMode::of_operate(b@[23]) == Some(power_mode),
        DynModel::of_model(b@[26]) == Some(dyn_model),
    ensures
        r == blob_gps(b@),
{
    let g: u8 = b[2];
    GpsConfig {
        gps_enabled: flagged(g, 1),
        glonass_enabled: flagged(g, 2),
        galileo_enabled: flagged(g, 4),
        beidou_enabled: flagged(g, 8),
        qzss_enabled: flagged(g, 16),
        sbas_enabled: flagged(g, 32),
        power_mode,
        meas_rate_ms: u16_at(b, 24),
        dyn_model,
    }
}

/// The words of a blob read back from any string that starts with as much of
/// it as they take.
proof fn lemma_blob_words(c: RadioConfig, b: Seq<u8>)
    requires
        b.len() >= RADIO_CONFIG_LEN_V1,
        forall|i: int| 0 <= i < b.len() && i < RADIO_CONFIG_LEN ==> b[i] == blob_bytes(c)[i],
    ensures
        bytes::le32_at(b, 4) == c.frequency_hz,
        bytes::le16_at(b, 9) == c.bandwidth_khz,
        bytes::le16_at(b, 15) == c.dedup_ttl_s,
        bytes::le16_at(b, 17) == c.beacon_interval_s,
        bytes::le16_at(b, 21) == c.tcxo_startup_ms,
        bytes::le16_at(b, 24) == c.gps.meas_rate_ms,
        b.len() >= RADIO_CONFIG_LEN_HOP ==> bytes::le16_at(b, 28) == c.hop_step_khz,
        b.len() >= RADIO_CONFIG_LEN_HOP ==> bytes::le16_at(b, 30) == c.hop_dwell_ms,
        b.len() >= RADIO_CONFIG_LEN_PING ==> bytes::le16_at(b, 32) == c.ping_interval_s,
        b.len() >= RADIO_CONFIG_LEN ==> bytes::le16_at(b, 34) == c.wake_rx_ms,
        b.len() >= RADIO_CONFIG_LEN ==> bytes::le16_at(b, 36) == c.wake_sleep_ms,
        b.len() >= RADIO_CONFIG_LEN ==> bytes::le32_at(b, 38) == c.wake_frequency_hz,
{
    bytes::lemma_le32_read(b, 4, c.frequency_hz);
    bytes::lemma_le16_read(b, 9, c.bandwidth_khz);
    bytes::lemma_le16_read(b, 15, c.dedup_ttl_s);
    bytes::lemma_le16_read(b, 17, c.beacon_interval_s);
    bytes::lemma_le16_read(b, 21, c.tcxo_startup_ms);
    bytes::lemma_le16_read(b, 24, c.gps.meas_rate_ms);
    if b.len() >= RADIO_CONFIG_LEN_HOP {
        bytes::lemma_le16_read(b, 28, c.hop_step_khz);
        bytes::lemma_le16_read(b, 30, c.hop_dwell_ms);
    }
    if b.len() >= RADIO_CONFIG_LEN_PING {
        bytes::lemma_le16_read(b, 32, c.ping_interval_s);
    }
    if b.len() >= RADIO_CONFIG_LEN {
        bytes::lemma_le16_read(b, 34, c.wake_rx_ms);
        bytes::lemma_le16_read(b, 36, c.wake_sleep_ms);
        bytes::lemma_le32_read(b, 38, c.wake_frequency_hz);
    }
}

/// A config survives its read-back blob, whatever follows the blob: all of it
/// but the duty cycle, which is not carried, and a plan of no channels, which
/// reads as one.
pub proof fn law_blob_round_trip(c: RadioConfig, tail: Seq<u8>)
    ensures
        blob_reads(blob_bytes(c) + tail),
        blob_config(blob_bytes(c) + tail) == (RadioConfig {
            hop_channels: if c.hop_channels == 0 { 1 } else { c.hop_channels },
            power: power_unasked(),
            ..c
        }),
{
    let b = blob_bytes(c) + tail;
    lemma_blob_flags_read(c);
    lemma_blob_words(c, b);
    bytes::lemma_signed(c.power_dbm, 0, 0);
}

/// A board on an older firmware sends less, and everything it does send still
/// arrives: the blob cut before the hop plan reads as the same config on one
/// channel of the default plan, pinging on its beacon interval, with no
/// sentry.
pub proof fn law_blob_before_the_hop_plan(c: RadioConfig)
    ensures
        blob_reads(blob_bytes(c).take(RADIO_CONFIG_LEN_V1 as int)),
        blob_config(blob_bytes(c).take(RADIO_CONFIG_LEN_V1 as int)) == (RadioConfig {
            hop_channels: 1,
            hop_step_khz: radio_defaults().hop_step_khz,
            hop_dwell_ms: radio_defaults().hop_dwell_ms,
            ping_interval_s: c.beacon_interval_s,
            wake_enabled: false,
            wake_rx_ms: radio_defaults().wake_rx_ms,
            wake_sleep_ms: radio_defaults().wake_sleep_ms,
            wake_frequency_hz: 0,
            power: power_unasked(),
            ..c
        }),
{
    let b = blob_bytes(c).take(RADIO_CONFIG_LEN_V1 as int);
    lemma_blob_flags_read(c);
    lemma_blob_words(c, b);
    bytes::lemma_signed(c.power_dbm, 0, 0);
}

/// The blob cut before the sentry reads as the same config without one.
pub proof fn law_blob_before_the_sentry(c: RadioConfig)
    ensures
        blob_reads(blob_bytes(c).take(RADIO_CONFIG_LEN_PING as int)),
        blob_config(blob_bytes(c).take(RADIO_CONFIG_LEN_PING as int)) == (RadioConfig {
            hop_channels: if c.hop_channels == 0 { 1 } else { c.hop_channels },
            wake_enabled: false,
            wake_rx_ms: radio_defaults().wake_rx_ms,
            wake_sleep_ms: radio_defaults().wake_sleep_ms,
            wake_frequency_hz: 0,
            power: power_unasked(),
            ..c
        }),
{
    let b = blob_bytes(c).take(RADIO_CONFIG_LEN_PING as int);
    lemma_blob_flags_read(c);
    lemma_blob_words(c, b);
    bytes::lemma_signed(c.power_dbm, 0, 0);
}

// -- What a modulation costs on the air ------------------------------------------

/// A chip of each bandwidth, in whole microseconds.
proof fn lemma_chips(c: RadioConfig)
    ensures
        c.bandwidth_khz == 62 ==> c.symbol_us() == 16 * pow2(c.sf()),
        c.bandwidth_khz == 125 ==> c.symbol_us() == 8 * pow2(c.sf()),
        c.bandwidth_khz == 250 ==> c.symbol_us() == 4 * pow2(c.sf()),
        c.bandwidth_khz == 500 ==> c.symbol_us() == 2 * pow2(c.sf()),
{
    assert(1_000_000int / 62_500 == 16 && 1_000_000int / 125_000 == 8 && 1_000_000int / 250_000 == 4 && 1_000_000int
        / 500_000 == 2);
    let n: int = pow2(c.sf()) as int;
    let q: int = 1_000_000int / c.bandwidth_hz();
    assert(n * q == q * n) by (nonlinear_arith);
    assert(q == 16 ==> q * n == 16 * n);
    assert(q == 8 ==> q * n == 8 * n);
    assert(q == 4 ==> q * n == 4 * n);
    assert(q == 2 ==> q * n == 2 * n);
}

/// A symbol is two to the spreading factor chips, and a chip one over the
/// bandwidth: over the four bandwidths and the chip's spreading factors the
/// time of one, times the bandwidth, is exactly its chips.
pub proof fn law_a_symbol_is_its_chips(c: RadioConfig)
    requires
        5 <= c.spreading_factor <= 12,
    ensures
        c.bandwidth_khz == 62 ==> c.symbol_us() * 62_500 == pow2(c.spreading_factor as nat) * 1_000_000,
        c.bandwidth_khz == 125 ==> c.symbol_us() * 125_000 == pow2(c.spreading_factor as nat) * 1_000_000,
        c.bandwidth_khz == 250 ==> c.symbol_us() * 250_000 == pow2(c.spreading_factor as nat) * 1_000_000,
        c.bandwidth_khz == 500 ==> c.symbol_us() * 500_000 == pow2(c.spreading_factor as nat) * 1_000_000,
{
    lemma_chips(c);
}

/// At SF7 on 125 kHz a symbol is 1024 microseconds; each spreading factor up
/// doubles it, and twice the bandwidth halves it. A factor outside the chip's
/// range is timed as the nearest inside.
pub proof fn law_a_symbol_doubles_with_the_factor(c: RadioConfig, d: RadioConfig)
    requires
        c.bandwidth_khz > 0,
    ensures
        c.spreading_factor == 7 && c.bandwidth_khz == 125 ==> c.symbol_us() == 1024,
        5 <= c.spreading_factor < 12 && d.spreading_factor == c.spreading_factor + 1 && d.bandwidth_khz == c.bandwidth_khz
            ==> d.symbol_us() == 2 * c.symbol_us(),
        d.spreading_factor == c.spreading_factor && (c.bandwidth_khz == 125 && d.bandwidth_khz == 250 || c.bandwidth_khz
            == 250 && d.bandwidth_khz == 500 || c.bandwidth_khz == 62 && d.bandwidth_khz == 125) ==> c.symbol_us() == 2
            * d.symbol_us(),
        c.spreading_factor < 5 && d.spreading_factor == 5 && d.bandwidth_khz == c.bandwidth_khz ==> c.symbol_us()
            == d.symbol_us(),
        c.spreading_factor > 12 && d.spreading_factor == 12 && d.bandwidth_khz == c.bandwidth_khz ==> c.symbol_us()
            == d.symbol_us(),
{
    lemma2_to64();
    lemma_chips(c);
    lemma_chips(d);
    let q: int = 1_000_000int / c.bandwidth_hz();
    let n: int = pow2(c.sf()) as int;
    if 5 <= c.spreading_factor < 12 {
        lemma_pow2_unfold((c.spreading_factor + 1) as nat);
        assert((2 * n) * q == 2 * (n * q)) by (nonlinear_arith);
    }
}

/// Low-data-rate optimization is on exactly where a symbol is longer than
/// 16.38 milliseconds.
pub proof fn law_long_symbols_are_optimized(c: RadioConfig)
    requires
        5 <= c.spreading_factor <= 12,
        c.bandwidth_khz == 62 || c.bandwidth_khz == 125 || c.bandwidth_khz == 250 || c.bandwidth_khz == 500,
    ensures
        c.low_rate() <==> c.symbol_us() > 16_380,
{
    lemma2_to64();
    lemma_chips(c);
    let f = c.spreading_factor;
    assert(f == 5 || f == 6 || f == 7 || f == 8 || f == 9 || f == 10 || f == 11 || f == 12);
}

/// A frame's air time is its preamble and a quarter past four symbols, to the
/// microsecond, and then its payload symbols; one more preamble symbol costs
/// one symbol.
pub proof fn law_air_time_is_symbols(c: RadioConfig, payload_len: int, preamble_syms: int)
    requires
        c.bandwidth_khz > 0,
        0 <= preamble_syms,
    ensures
        ({
            let t = c.symbol_us();
            let rest = c.airtime_us(payload_len, preamble_syms) - c.payload_symbols(payload_len) * t;
            &&& 4 * rest <= 4 * preamble_syms * t + 17 * t < 4 * rest + 4
            &&& c.airtime_us(payload_len, preamble_syms + 1) == c.airtime_us(payload_len, preamble_syms) + t
        }),
{
    let t = c.symbol_us();
    let n = preamble_syms;
    assert((4 * n + 17) * t == 4 * n * t + 17 * t) by (nonlinear_arith);
    assert((4 * (n + 1) + 17) * t == (4 * n + 17) * t + 4 * t) by (nonlinear_arith);
}

/// The symbols of a payload: eight, and then whole blocks of as many symbols
/// as the coding rate says, the fewest whose bits - four to a symbol and
/// factor, two factors less where the rate is low - hold what is left of the
/// payload, its header and its CRC.
pub proof fn law_a_payload_is_whole_blocks(c: RadioConfig, payload_len: int)
    requires
        5 <= c.spreading_factor <= 12,
        5 <= c.coding_rate <= 8,
        0 <= payload_len,
    ensures
        ({
            let blocks = (c.payload_symbols(payload_len) - 8) / c.coding_rate as int;
            let bits = 8 * payload_len + 44 - 4 * c.spreading_factor;
            let block = 4 * (c.spreading_factor - if c.low_rate() { 2int } else { 0 });
            &&& c.payload_symbols(payload_len) == 8 + blocks * c.coding_rate
            &&& blocks >= 0
            &&& blocks * block >= bits
            &&& blocks > 0 ==> (blocks - 1) * block < bits
        }),
{
    let num = 8 * payload_len - 4 * c.sf() + 44;
    let den: int = 4 * (c.sf() - (if c.low_rate() { 2int } else { 0 }));
    let cr: int = c.coding_rate as int;
    if num <= 0 {
        assert(0int / cr == 0) by (nonlinear_arith)
            requires
                cr >= 5,
        ;
        assert(0 * den == 0 && 0 * cr == 0);
    } else {
        let g: int = (num + den - 1) / den;
        assert(0 < g && g * den >= num && (g - 1) * den < num) by (nonlinear_arith)
            requires
                g == (num + den - 1) / den,
                num >= 1,
                den >= 12,
        ;
        assert(g * cr / cr == g) by (nonlinear_arith)
            requires
                cr >= 5,
                g > 0,
        ;
    }
}

/// The timeouts follow the modulation: the scale is how many times longer the
/// symbols are than at SF7 on 125 kHz, in whole times and at least one. A
/// transmit is polled for 150 ms of it and 100 more, the chip is given half a
/// second on top, and a repeater waits up to 100 ms of it.
pub proof fn law_timeouts_scale_with_the_symbol(c: RadioConfig)
    requires
        7 <= c.spreading_factor <= 12,
        c.bandwidth_khz > 0,
    ensures
        c.scale() >= 1,
        c.scale() > 1 ==> c.scale() * c.bandwidth_khz <= 125 * pow2((c.spreading_factor - 7) as nat),
        125 * pow2((c.spreading_factor - 7) as nat) < (c.scale() + 1) * c.bandwidth_khz,
        c.poll_ms() == 150 * c.scale() + 100,
        c.chip_ms() == c.poll_ms() + 500,
        3 * c.jitter_ms() == 2 * (c.poll_ms() - 100),
{
    lemma2_to64();
    let n: int = 125 * pow2((c.spreading_factor - 7) as nat) as int;
    let b: int = c.bandwidth_khz as int;
    let q = n / b;
    assert(0 <= q && q * b <= n && n < (q + 1) * b) by (nonlinear_arith)
        requires
            n >= 0,
            b >= 1,
            q == n / b,
    ;
    assert(n == pow2((c.spreading_factor - 7) as nat) as int * 125);
    if q < 1 {
        assert((q + 1) * b <= 2 * b) by (nonlinear_arith)
            requires
                q < 1,
                b >= 1,
        ;
    }
}

/// Where a symbol is a whole number of SF7's on 125 kHz, the scale is that
/// number.
pub proof fn law_the_scale_is_the_symbol(c: RadioConfig)
    requires
        7 <= c.spreading_factor <= 12,
        c.bandwidth_khz == 125 || c.bandwidth_khz == 250 && c.spreading_factor >= 8 || c.bandwidth_khz == 500
            && c.spreading_factor >= 9,
    ensures
        c.scale() * 1024 == c.symbol_us(),
{
    lemma2_to64();
    lemma_chips(c);
    let b: int = c.bandwidth_khz as int;
    let n: int = pow2((c.spreading_factor - 7) as nat) as int;
    let f = c.spreading_factor;
    assert(f == 7 || f == 8 || f == 9 || f == 10 || f == 11 || f == 12);
    assert(pow2(c.sf()) == 128 * n);
    assert(n == 1 || n == 2 || n == 4 || n == 8 || n == 16 || n == 32);
    if b == 125 {
        assert(n * 125 / 125 == n);
    } else if b == 250 {
        assert(n * 125 / 250 == n / 2 && n / 2 * 2 == n);
    } else {
        assert(n * 125 / 500 == n / 4 && n / 4 * 4 == n);
    }
}

/// A factor below SF7 has the timeouts of SF7, one above SF12 those of SF12.
pub proof fn law_timeouts_stop_at_the_chip(c: RadioConfig, d: RadioConfig)
    requires
        c.bandwidth_khz == d.bandwidth_khz,
    ensures
        c.spreading_factor < 7 && d.spreading_factor == 7 ==> c.scale() == d.scale(),
        c.spreading_factor > 12 && d.spreading_factor == 12 ==> c.scale() == d.scale(),
{
}

/// A header ends where an empty payload would whose symbols are the eight it
/// takes: a frame's air time less what its payload takes beyond them.
pub proof fn law_a_header_is_eight_symbols_past_the_preamble(c: RadioConfig, payload_len: int)
    requires
        c.bandwidth_khz > 0,
    ensures
        c.header_us() + (c.payload_symbols(payload_len) - 8) * c.symbol_us() == c.airtime_us(payload_len, 8),
{
    let t = c.symbol_us();
    let p = c.payload_symbols(payload_len);
    assert((p - 8) * t == p * t - 8 * t) by (nonlinear_arith);
}

/// Wake frames have a carrier of their own where the config names one, and the
/// network's otherwise.
pub proof fn law_wake_frames_have_a_carrier(c: RadioConfig)
    ensures
        c.wake_frequency_hz != 0 ==> c.wake_hz() == c.wake_frequency_hz,
        c.wake_frequency_hz == 0 ==> c.wake_hz() == c.frequency_hz,
{
}

/// Where each setting stands in the read-back blob.
pub proof fn law_the_blob_is_laid_out(c: RadioConfig)
    ensures
        ({
            let b = blob_bytes(c);
            &&& b.len() == 42 && b[0] == 1
            &&& b[8] == c.spreading_factor && b[11] == c.coding_rate && b[13] == c.address && b[14] == c.max_hops
            &&& b[19] == c.beacon_fields && b[27] == c.hop_channels
            &&& bytes::le32_at(b, 4) == c.frequency_hz && bytes::le32_at(b, 38) == c.wake_frequency_hz
            &&& bytes::le16_at(b, 9) == c.bandwidth_khz && bytes::le16_at(b, 15) == c.dedup_ttl_s
            &&& bytes::le16_at(b, 17) == c.beacon_interval_s && bytes::le16_at(b, 21) == c.tcxo_startup_ms
            &&& bytes::le16_at(b, 24) == c.gps.meas_rate_ms && bytes::le16_at(b, 28) == c.hop_step_khz
            &&& bytes::le16_at(b, 30) == c.hop_dwell_ms && bytes::le16_at(b, 32) == c.ping_interval_s
            &&& bytes::le16_at(b, 34) == c.wake_rx_ms && bytes::le16_at(b, 36) == c.wake_sleep_ms
            &&& (c.power_dbm >= 0 ==> b[12] == c.power_dbm) && (c.power_dbm < 0 ==> b[12] == c.power_dbm + 256)
            &&& b[3] == (match c.role {
                Role::Leaf => 0int,
                Role::Repeater => 1,
                Role::TxOnly => 2,
                Role::RxOnly => 3,
            })
            &&& b[20] == c.tcxo_volts.trim_value() && b[23] == c.gps.power_mode.operate() && b[26]
                == c.gps.dyn_model.model()
        }),
{
    let b = blob_bytes(c);
    lemma_blob_words(c, b);
    reveal(bytes::of_i8);
}

/// A flag as a bit of weight `w`.
spec fn weighed(on: bool, w: int) -> int {
    if on {
        w
    } else {
        0
    }
}

/// The flags of the read-back blob, bit by bit.
pub proof fn law_the_blob_flags_are_bits(c: RadioConfig)
    ensures
        blob_bytes(c)[1] == (if c.rx_boost { 1int } else { 0 }) + (if c.verbose { 4int } else { 0 }) + (
        if c.dcdc_enabled { 8int } else { 0 }) + (if c.dio2_rf_switch { 16int } else { 0 }) + (
        if c.wake_enabled { 32int } else { 0 }),
        blob_bytes(c)[2] == (if c.gps.gps_enabled { 1int } else { 0 }) + (if c.gps.glonass_enabled { 2int } else { 0 })
            + (if c.gps.galileo_enabled { 4int } else { 0 }) + (if c.gps.beidou_enabled { 8int } else { 0 }) + (
        if c.gps.qzss_enabled { 16int } else { 0 }) + (if c.gps.sbas_enabled { 32int } else { 0 }),
{
    let g = c.gps;
    lemma_weighed(c.rx_boost, false, c.verbose, c.dcdc_enabled, c.dio2_rf_switch, c.wake_enabled);
    lemma_weighed(g.gps_enabled, g.glonass_enabled, g.galileo_enabled, g.beidou_enabled, g.qzss_enabled, g.sbas_enabled);
    assert(blob_bytes(c)[1] == blob_flags(c) && blob_bytes(c)[2] == blob_gps_flags(g));
    assert(blob_flags(c) == weighed(c.rx_boost, 1) + weighed(c.verbose, 4) + weighed(c.dcdc_enabled, 8) + weighed(
        c.dio2_rf_switch,
        16,
    ) + weighed(c.wake_enabled, 32)) by {
        reveal(blob_flags);
    }
    assert(blob_gps_flags(g) == weighed(g.gps_enabled, 1) + weighed(g.glonass_enabled, 2) + weighed(g.galileo_enabled, 4)
        + weighed(g.beidou_enabled, 8) + weighed(g.qzss_enabled, 16) + weighed(g.sbas_enabled, 32)) by {
        reveal(blob_gps_flags);
    }
}

proof fn lemma_weighed(a: bool, b: bool, c: bool, d: bool, e: bool, f: bool)
    ensures
        ({
            let v = bit(a, 1) + bit(b, 2) + bit(c, 4) + bit(d, 8) + bit(e, 16) + bit(f, 32);
            &&& v == weighed(a, 1) + weighed(b, 2) + weighed(c, 4) + weighed(d, 8) + weighed(e, 16) + weighed(f, 32)
            &&& 0 <= v < 64
        }),
        bit(a, 1) == weighed(a, 1),
        bit(b, 2) == weighed(b, 2),
        bit(c, 4) == weighed(c, 4),
        bit(d, 8) == weighed(d, 8),
        bit(e, 16) == weighed(e, 16),
        bit(f, 32) == weighed(f, 32),
{
    reveal(bit);
}

/// What is no blob: one too short, of another version, or with a byte for a
/// role, a voltage, a power mode or a model that there is none of.
pub proof fn law_what_is_no_blob(b: Seq<u8>)
    ensures
        blob_reads(b) <==> b.len() >= 28 && b[0] == 1 && b[3] <= 3 && b[20] <= 7 && b[23] <= 2 && b[26] <= 8 && b[26] != 1,
{
}

// -- What the words and the defaults are -----------------------------------------

/// The byte and the word of each role, and what it does on the air.
pub proof fn law_what_a_role_is()
    ensures
        Role::Leaf.wire() == 0 && Role::Repeater.wire() == 1 && Role::TxOnly.wire() == 2 && Role::RxOnly.wire() == 3,
        Role::Leaf.word()@ == "leaf"@ && Role::Repeater.word()@ == "repeater"@ && Role::TxOnly.word()@ == "tx_only"@
            && Role::RxOnly.word()@ == "rx_only"@,
        Role::Leaf.sends() && Role::Leaf.hears() && !Role::Leaf.forwards(),
        Role::Repeater.sends() && Role::Repeater.hears() && Role::Repeater.forwards(),
        Role::TxOnly.sends() && !Role::TxOnly.hears() && !Role::TxOnly.forwards(),
        !Role::RxOnly.sends() && Role::RxOnly.hears() && !Role::RxOnly.forwards(),
{
}

/// The trim value and the word of each TCXO voltage: the values count up with
/// the volts.
pub proof fn law_what_a_tcxo_voltage_is()
    ensures
        TcxoVolts::V1_6.trim_value() == 0 && TcxoVolts::V1_7.trim_value() == 1 && TcxoVolts::V1_8.trim_value() == 2,
        TcxoVolts::V2_2.trim_value() == 3 && TcxoVolts::V2_4.trim_value() == 4 && TcxoVolts::V2_7.trim_value() == 5,
        TcxoVolts::V3_0.trim_value() == 6 && TcxoVolts::V3_3.trim_value() == 7,
        TcxoVolts::V1_6.word()@ == "1.6"@ && TcxoVolts::V1_7.word()@ == "1.7"@ && TcxoVolts::V1_8.word()@ == "1.8"@,
        TcxoVolts::V2_2.word()@ == "2.2"@ && TcxoVolts::V2_4.word()@ == "2.4"@ && TcxoVolts::V2_7.word()@ == "2.7"@,
        TcxoVolts::V3_0.word()@ == "3.0"@ && TcxoVolts::V3_3.word()@ == "3.3"@,
{
}

/// The receiver's value and the word of each power mode and dynamic model. The
/// receiver has no model 1.
pub proof fn law_what_a_receiver_mode_is()
    ensures
        PowerMode::Full.operate() == 0 && PowerMode::PsmOnOff.operate() == 1 && PowerMode::PsmCyclic.operate() == 2,
        PowerMode::Full.word()@ == "full"@ && PowerMode::PsmOnOff.word()@ == "psmoo"@ && PowerMode::PsmCyclic.word()@
            == "psmct"@,
        DynModel::Portable.model() == 0 && DynModel::Stationary.model() == 2 && DynModel::Pedestrian.model() == 3,
        DynModel::Automotive.model() == 4 && DynModel::Sea.model() == 5,
        DynModel::Airborne1g.model() == 6 && DynModel::Airborne2g.model() == 7 && DynModel::Airborne4g.model() == 8,
        DynModel::of_model(1) is None,
        DynModel::Portable.word()@ == "portable"@ && DynModel::Stationary.word()@ == "stationary"@
            && DynModel::Pedestrian.word()@ == "pedestrian"@ && DynModel::Automotive.word()@ == "automotive"@,
        DynModel::Sea.word()@ == "sea"@ && DynModel::Airborne1g.word()@ == "airborne1g"@ && DynModel::Airborne2g.word()@
            == "airborne2g"@ && DynModel::Airborne4g.word()@ == "airborne4g"@,
{
}

/// The words a value prints are the words the file spells it by, and its place
/// among the choices is its own.
pub proof fn law_a_word_is_the_files_word(r: Role, t: TcxoVolts, p: PowerMode, d: DynModel)
    ensures
        keys::ROLES@[keys::role_place(r) as int] == r && keys::ROLE_NAMES@[keys::role_place(r) as int]@ == r.word()@,
        keys::TCXO@[keys::tcxo_place(t) as int] == t && keys::TCXO_NAMES@[keys::tcxo_place(t) as int]@ == t.word()@,
        keys::POWER_MODES@[keys::power_mode_place(p) as int] == p && keys::POWER_MODE_NAMES@[keys::power_mode_place(
            p,
        ) as int]@ == p.word()@,
        keys::DYN_MODELS@[keys::dyn_model_place(d) as int] == d && keys::DYN_MODEL_NAMES@[keys::dyn_model_place(d) as int]@
            == d.word()@,
{
}

/// What a board with no file runs: one carrier in the middle of the band at the
/// longest range of the widest bandwidth, a leaf that beacons its position
/// every second.
pub proof fn law_what_a_board_with_no_file_runs()
    ensures
        ({
            let c = radio_defaults();
            &&& c.frequency_hz == 915_000_000 && c.spreading_factor == 12 && c.bandwidth_khz == 500 && c.coding_rate == 5
            &&& c.power_dbm == 22 && c.rx_boost && c.hop_channels == 1 && c.hop_step_khz == 500 && c.hop_dwell_ms == 1000
            &&& c.address == 1 && c.role is Leaf && c.max_hops == 1 && c.dedup_ttl_s == 3
            &&& c.beacon_interval_s == 1 && c.ping_interval_s == 5 && c.beacon_fields == 0x03 && c.verbose
            &&& c.dcdc_enabled && c.dio2_rf_switch && c.tcxo_volts is V3_3 && c.tcxo_startup_ms == 10
            &&& c.wake_enabled && c.wake_rx_ms == 300 && c.wake_sleep_ms == 3000 && c.wake_frequency_hz == 0
            &&& c.gps.gps_enabled && !c.gps.glonass_enabled && c.gps.galileo_enabled && c.gps.beidou_enabled
            &&& c.gps.qzss_enabled && c.gps.sbas_enabled
            &&& c.gps.power_mode is Full && c.gps.meas_rate_ms == 1000 && c.gps.dyn_model is Portable
            &&& forall|k: Knob| (#[trigger] c.power.asked(k)) is None
        }),
{
}

/// A knob asked for is the one asked for, and no other is.
pub proof fn law_a_knob_asked_for_is_its_own(p: PowerConfig, k: Knob, other: Knob, secs: u32)
    ensures
        p.asking(k, secs).asked(k) == Some(secs),
        other != k ==> p.asking(k, secs).asked(other) == p.asked(other),
        p.asked(Knob::SleepInterval) == p.sleep_interval_s && p.asked(Knob::AdvWindow) == p.adv_window_s && p.asked(
            Knob::BleOff,
        ) == p.ble_off_s && p.asked(Knob::IdleTimeout) == p.idle_timeout_s && p.asked(Knob::BleOn) == p.ble_on_s,
{
}

/// A chip is cut to the microsecond, whatever the bandwidth: a symbol is two to
/// the factor of them.
pub proof fn law_a_chip_is_whole_microseconds(c: RadioConfig)
    requires
        c.bandwidth_khz > 0,
        5 <= c.spreading_factor <= 12,
    ensures
        ({
            let hz = if c.bandwidth_khz == 62 {
                62_500
            } else {
                1000 * c.bandwidth_khz
            };
            exists|chip: int|
                #[trigger] (pow2(c.spreading_factor as nat) * chip) == c.symbol_us() && chip * hz <= 1_000_000 < chip * hz
                    + hz
        }),
{
    let hz = c.bandwidth_hz();
    let chip: int = 1_000_000int / hz;
    vstd::arithmetic::div_mod::lemma_fundamental_div_mod(1_000_000, hz);
    assert(chip * hz == hz * chip) by (nonlinear_arith);
    assert(pow2(c.spreading_factor as nat) * chip == c.symbol_us());
    vstd::arithmetic::div_mod::lemma_mod_bound(1_000_000, hz);
}

/// Low-data-rate optimization goes by the factor as it stands and the
/// bandwidth as it is written: on from 16.38 chips to the kilohertz, in
/// thousands.
pub proof fn law_when_a_rate_is_low(c: RadioConfig)
    requires
        c.bandwidth_khz > 0,
    ensures
        c.low_rate() <==> 100 * pow2(c.spreading_factor as nat) >= 1638 * c.bandwidth_khz,
{
    let n: int = pow2(c.spreading_factor as nat) as int * 100;
    let b: int = c.bandwidth_khz as int;
    assert(n / b >= 1638 <==> n >= 1638 * b) by (nonlinear_arith)
        requires
            b > 0,
    ;
}

/// A coding rate below the least costs what the least does, one past the most
/// what the most does; and a payload that fits the first eight symbols takes
/// no more.
pub proof fn law_a_coding_rate_stops_at_the_chip(c: RadioConfig, d: RadioConfig, payload_len: int)
    requires
        c.spreading_factor == d.spreading_factor,
        c.bandwidth_khz == d.bandwidth_khz,
    ensures
        c.coding_rate < 5 && d.coding_rate == 5 ==> c.payload_symbols(payload_len) == d.payload_symbols(payload_len),
        c.coding_rate > 8 && d.coding_rate == 8 ==> c.payload_symbols(payload_len) == d.payload_symbols(payload_len),
        5 <= c.spreading_factor <= 12 && 8 * payload_len + 44 <= 4 * c.spreading_factor ==> c.payload_symbols(payload_len)
            == 8,
{
}

/// What a beacon and a ping cost on the air: a frame's seven bytes and the
/// message, behind the network's eight preamble symbols. The unit a slot is cut
/// by is the beacon of a position and nothing else.
pub proof fn law_what_a_message_costs(c: RadioConfig)
    ensures
        c.beacon_us() == c.airtime_us(7 + lora::message_len(c.beacon_fields), 8),
        c.ping_us() == c.airtime_us(11, 8),
        c.unit_us() == c.airtime_us(17, 8),
        c.beacon_fields == 0x03 ==> c.beacon_us() == c.unit_us(),
{
    reveal(lora::selects);
}

/// The worst a transmit takes is its timeout and a slot of waiting for it.
pub proof fn law_the_worst_case_waits_a_slot(c: RadioConfig)
    ensures
        c.worst_ms() - c.poll_ms() == c.hop_dwell_ms,
{
}

} // verus!
