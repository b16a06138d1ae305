//! The keys of the config file: where each one goes, what it takes, what it
//! is for.
//!
//! This table is what the parser checks a value against, what the reference
//! file is printed from, and what the app's editor shows beside each field.

use vstd::prelude::*;
use crate::chars;
use crate::chars::{chars_of, same, space, write_signed};
use crate::lora;
use crate::lora::write_fields;
use crate::radiocfg::{
    DynModel, GpsConfig, PowerMode, RadioConfig, Role, TcxoVolts, HOP_DWELL_MAX_MS, HOP_DWELL_MIN_MS, HOP_STEP_MAX_KHZ,
    HOP_STEP_MIN_KHZ, MAX_HOPS_LIMIT, RF_MAX_HZ, RF_MIN_HZ,
};
use crate::radiocfg;
use crate::radiocfg::keys;
use crate::session::knobs;
use crate::session::Knob;

verus! {

/// What a key takes.
#[derive(Clone, Copy, Debug, PartialEq, Eq, Hash)]
pub enum Kind {
    /// An integer inside inclusive bounds.
    Int { min: i64, max: i64 },
    /// Zero, or an integer inside inclusive bounds: a duration whose zero
    /// is a setting of its own.
    IntOrZero { min: i64, max: i64 },
    /// One of a fixed set of integers.
    IntChoice(&'static [i64]),
    Bool,
    /// One of a fixed set of words, quoted in the file.
    Choice(&'static [&'static str]),
    /// A comma-separated list of position field names, quoted.
    Fields,
}

/// The value of a key, out of a file or out of a config.
#[derive(Clone, Copy, Debug, PartialEq, Eq, Hash, Structural)]
pub enum Value {
    Int(i64),
    Bool(bool),
    /// Which of the words.
    Choice(usize),
    /// A mask of position fields.
    Fields(u8),
}

/// The `role` choices, in the order [`ROLE_NAMES`] spells them.
pub const ROLES: [Role; 4] = [Role::Leaf, Role::Repeater, Role::TxOnly, Role::RxOnly];

/// How the file spells [`ROLES`].
pub const ROLE_NAMES: [&'static str; 4] = ["leaf", "repeater", "tx_only", "rx_only"];

/// The `tcxo_volts` choices.
pub const TCXO: [TcxoVolts; 8] = [
    TcxoVolts::V1_6,
    TcxoVolts::V1_7,
    TcxoVolts::V1_8,
    TcxoVolts::V2_2,
    TcxoVolts::V2_4,
    TcxoVolts::V2_7,
    TcxoVolts::V3_0,
    TcxoVolts::V3_3,
];

/// How the file spells [`TCXO`].
pub const TCXO_NAMES: [&'static str; 8] = ["1.6", "1.7", "1.8", "2.2", "2.4", "2.7", "3.0", "3.3"];

/// The `power_mode` choices.
pub const POWER_MODES: [PowerMode; 3] = [PowerMode::Full, PowerMode::PsmOnOff, PowerMode::PsmCyclic];

/// How the file spells [`POWER_MODES`].
pub const POWER_MODE_NAMES: [&'static str; 3] = ["full", "psmoo", "psmct"];

/// The `dynamic_model` choices.
pub const DYN_MODELS: [DynModel; 8] = [
    DynModel::Portable,
    DynModel::Stationary,
    DynModel::Pedestrian,
    DynModel::Automotive,
    DynModel::Sea,
    DynModel::Airborne1g,
    DynModel::Airborne2g,
    DynModel::Airborne4g,
];

/// How the file spells [`DYN_MODELS`].
pub const DYN_MODEL_NAMES: [&'static str; 8] = [
    "portable",
    "stationary",
    "pedestrian",
    "automotive",
    "sea",
    "airborne1g",
    "airborne2g",
    "airborne4g",
];

/// The `bandwidth_khz` choices.
pub const BANDWIDTHS: [i64; 4] = [62, 125, 250, 500];

/// The least power the PA is set to.
pub const POWER_MIN_DBM: i64 = -9;

/// The part of a config a setting belongs to.
#[derive(Clone, Copy, Debug, PartialEq, Eq, Structural)]
pub enum Part {
    /// The modulation, the plan and the board.
    Radio,
    /// The node, what it sends, and the sentry.
    Network,
    /// The receiver.
    Gps,
    /// The duty cycle.
    Power,
}

/// One of the things the file sets.
#[derive(Clone, Copy, Debug, PartialEq, Eq, Hash, Structural)]
pub enum Setting {
    FrequencyHz,
    HopChannels,
    HopStepKhz,
    HopDwellMs,
    SpreadingFactor,
    BandwidthKhz,
    CodingRate,
    PowerDbm,
    RxBoost,
    DcdcEnabled,
    Dio2RfSwitch,
    TcxoVolts,
    TcxoStartupMs,
    WakeEnabled,
    WakeRxMs,
    WakeSleepMs,
    WakeFrequencyHz,
    Address,
    Role,
    MaxHops,
    DedupTtlS,
    IntervalS,
    PingIntervalS,
    Fields,
    Verbose,
    GpsEnabled,
    GlonassEnabled,
    GalileoEnabled,
    BeidouEnabled,
    QzssEnabled,
    SbasEnabled,
    PowerMode,
    MeasRateMs,
    DynamicModel,
    BleOffS,
    AdvWindowS,
    BleOnS,
    SleepIntervalS,
    IdleTimeoutS,
}

/// Every key the file takes: what it sets, its section, its name, whether the
/// reference file prints it commented out, and what it is for. Aliases the
/// parser also accepts (`beacon_interval_s`, `beacon_fields`, `dyn_model`, the
/// old mesh's `lifetime`) are not keys of their own.
pub const KEYS: [(Setting, &'static str, &'static str, bool, &'static str); 39] = [
    (
        Setting::FrequencyHz,
        "radio",
        "frequency_hz",
        false,
        "RF center frequency in Hz, 150000000-960000000. With more than one hop channel this is the center of the plan and the channels straddle it; with one it is simply the carrier.",
    ),
    (
        Setting::HopChannels,
        "radio",
        "hop_channels",
        false,
        "Channels in the plan, 1-255 (0 is read as 1). 1, the default, is the slot clock on the single carrier at frequency_hz: nodes share slots and take turns inside them by address, which is what keeps two nodes beaconing at the same rate from talking over each other, and it is the right answer at 500 kHz bandwidth, where the band lets one carrier be held as often as you like. More than 1 adds channel diversity: a fade or an interferer parked on one carrier costs one beacon in hop_channels rather than every beacon, and below 500 kHz of bandwidth 50 channels is what the 902-928 MHz band requires. Hopping is not free - every node hops on one shared clock, from GPS where a node has a fix and from the frames it hears where it does not, so a node that knows nobody's clock spends roughly hop_channels times the beacon interval, divided by the number of nodes transmitting, before it hears the network at all.",
    ),
    (
        Setting::HopStepKhz,
        "radio",
        "hop_step_khz",
        false,
        "Spacing between hop channels in kHz, 25-5000. At least the bandwidth, or adjacent channels overlap. Unused with one channel, since there is nothing to space. 500 kHz for 50 channels spans 902.75-927.25 MHz around the 915 MHz center.",
    ),
    (
        Setting::HopDwellMs,
        "radio",
        "hop_dwell_ms",
        false,
        "Slot length in ms, 100-10000, and so how long every node stays on each channel. One transmission per node per slot, which has to fit the slot with a 100 ms guard at each end, so at 1000 ms a beacon may be up to 800 ms on air. The band caps one hop visit at 400 ms; the default beacon is 289 ms. The 800 ms window is cut into as many default beacons as fit - two - and nodes take those turns by address, so two nodes may beacon every second without overlapping.",
    ),
    (
        Setting::SpreadingFactor,
        "radio",
        "spreading_factor",
        false,
        "LoRa spreading factor, 5-12. Higher gives longer range at a lower data rate.",
    ),
    (
        Setting::BandwidthKhz,
        "radio",
        "bandwidth_khz",
        false,
        "LoRa bandwidth in kHz: 62, 125, 250 or 500 (62 means 62.5). Narrower gives longer range at a lower data rate, and a longer frame: the default beacon is 289 ms at 500 and 1150 ms at 125, past the 400 ms one hop visit may occupy a channel. In the 902-928 MHz band only 500 is wide enough to hold a single carrier; anything narrower has to hop, so it needs hop_channels raised to 50 as well.",
    ),
    (
        Setting::CodingRate,
        "radio",
        "coding_rate",
        false,
        "Coding rate denominator 5-8 for 4/5..4/8. Higher adds forward error correction at a lower data rate.",
    ),
    (
        Setting::PowerDbm,
        "radio",
        "power_dbm",
        false,
        "Transmit power in dBm, -9 to 22 on the high-power PA.",
    ),
    (
        Setting::RxBoost,
        "radio",
        "rx_boost",
        false,
        "Boosted receiver gain: roughly +2 dB of sensitivity for a few mA more current whenever the node is listening.",
    ),
    (
        Setting::DcdcEnabled,
        "radio",
        "dcdc_enabled",
        true,
        "Use the internal DC-DC (SMPS). The Wio-S3 carries the inductor it needs.",
    ),
    (
        Setting::Dio2RfSwitch,
        "radio",
        "dio2_rf_switch",
        true,
        "Let the radio drive its own antenna switch from DIO2 (SetDio2AsRfSwitchCtrl). The Wio-S3 wires DIO2 to the SKY13453-385LF between the PA and the LoRa port, so this must stay on; the firmware ignores an off.",
    ),
    (
        Setting::TcxoVolts,
        "radio",
        "tcxo_volts",
        true,
        "Supply the radio drives DIO3 at. Named for the TCXO, but on the Wio-S3 DIO3 is also the antenna switch's VDD, specified 2.5-3.5 V - so only 2.7, 3.0 and 3.3 are usable and the firmware raises anything lower.",
    ),
    (
        Setting::TcxoStartupMs,
        "radio",
        "tcxo_startup_ms",
        true,
        "How long the radio waits for the TCXO to settle before using the clock, 1-1000 ms.",
    ),
    (
        Setting::WakeEnabled,
        "wake",
        "wake_enabled",
        false,
        "Leave the radio listening for a wake frame through every deep sleep. Off, a stored board is reachable only during its wake checks.",
    ),
    (
        Setting::WakeRxMs,
        "wake",
        "wake_rx_ms",
        false,
        "The sentry's receive window, 50-5000 ms. Longer tolerates more drift in the radio's own timer and costs proportionally more current; under about 105 ms at the default modulation no wake preamble fits at all and the sentry is refused.",
    ),
    (
        Setting::WakeSleepMs,
        "wake",
        "wake_sleep_ms",
        false,
        "The sentry's sleep between windows, 200-30000 ms. Longer is cheaper and makes every wake frame longer by the same amount, so a waker spends more air time per attempt.",
    ),
    (
        Setting::WakeFrequencyHz,
        "wake",
        "wake_frequency_hz",
        false,
        "The carrier the sentry listens on and wake frames go out on, Hz; 0 means frequency_hz. A sentry locks on any LoRa symbol that lands in its window, and a preamble that is not a wake frame's - a beacon, another network, noise - holds it for a restarted timer and then costs it a whole sleep, during which a wake frame is lost. So put the sentry where the beacons are not: a fleet that beacons every second on frequency_hz will blind a sentry on the same carrier most of the time. Every board that calls or is called must share this value. 927 MHz measured about ten times quieter than the rest of the 902-928 band on one bench.",
    ),
    (
        Setting::Address,
        "network",
        "address",
        false,
        "This node's address, 1-255. Must be unique among the nodes that transmit: two senders sharing an address are mutually deaf, each dropping the other's broadcasts as an echo of its own, so neither ever sees the other. An rx_only node never puts its address on the air, so it can keep the default. The address also picks the node's turn inside a slot: number a fleet 1, 2, 3... and the first 2 x interval_s of them never overlap on the air.",
    ),
    (
        Setting::Role,
        "network",
        "role",
        false,
        "leaf transmits its own position and receives everyone else's. repeater also retransmits other nodes' broadcasts, extending range past one radio horizon at the cost of doubling the traffic it forwards. tx_only beacons without ever switching the receiver on, which is the largest power saving available to a node nobody needs to track from. rx_only listens without ever transmitting, for a base station that only collects.",
    ),
    (
        Setting::MaxHops,
        "network",
        "max_hops",
        false,
        "Retransmissions allowed for a broadcast this node sends, 0-8. 0 means no repeater forwards it.",
    ),
    (
        Setting::DedupTtlS,
        "network",
        "dedup_ttl_s",
        false,
        "How long a broadcast is remembered so a repeat of it is dropped rather than delivered or forwarded again, 1-3600 s. Must stay under 200 x interval_s: the beacon id wraps every 256 frames, and past that a node starts suppressing its own later broadcasts as duplicates. The file is refused otherwise.",
    ),
    (
        Setting::IntervalS,
        "beacon",
        "interval_s",
        false,
        "Position broadcast period in seconds while the node has a fix, 0-3600. A node transmits at most once per slot, so 1 is every slot at the default dwell. It also sets how many nodes fit: a slot holds two default beacons, so 2 x interval_s addresses beacon without overlapping - two every second, four every two seconds, ten every five. 0 silences the node's own transmissions altogether, pings included, as does a role of rx_only.",
    ),
    (
        Setting::PingIntervalS,
        "beacon",
        "ping_interval_s",
        false,
        "How often a node with no fix says so, 0-3600 s: a small ping goes out in place of the position, so a node that cannot see the sky is still heard. Slower than the beacon by default, since a searching receiver has nothing new to report every second. 0 sends no pings.",
    ),
    (
        Setting::Fields,
        "beacon",
        "fields",
        false,
        "Which GPS fields each broadcast carries: lat, lon, altitude, speed, course, sats, time. lat and lon are required. More fields cost more air time.",
    ),
    (
        Setting::Verbose,
        "debug",
        "verbose",
        false,
        "Log every event on the USB console, on top of the events that are always logged. Costs nothing when nothing is attached; turn it off for a quiet console or when a tool is parsing it.",
    ),
    (
        Setting::GpsEnabled,
        "gps",
        "gps_enabled",
        false,
        "Enable the GPS (US) constellation.",
    ),
    (
        Setting::GlonassEnabled,
        "gps",
        "glonass_enabled",
        false,
        "Enable the GLONASS (Russia) constellation. The M10 tracks a limited concurrent set.",
    ),
    (
        Setting::GalileoEnabled,
        "gps",
        "galileo_enabled",
        false,
        "Enable the Galileo (EU) constellation.",
    ),
    (
        Setting::BeidouEnabled,
        "gps",
        "beidou_enabled",
        false,
        "Enable the BeiDou (China) constellation.",
    ),
    (
        Setting::QzssEnabled,
        "gps",
        "qzss_enabled",
        false,
        "Enable the QZSS (Japan) augmentation.",
    ),
    (
        Setting::SbasEnabled,
        "gps",
        "sbas_enabled",
        false,
        "Enable SBAS augmentation (WAAS, EGNOS and similar).",
    ),
    (
        Setting::PowerMode,
        "gps",
        "power_mode",
        false,
        "GPS power mode: full, psmoo (power-save on/off) or psmct (power-save cyclic tracking).",
    ),
    (
        Setting::MeasRateMs,
        "gps",
        "meas_rate_ms",
        false,
        "GPS measurement and navigation period in ms, 25-10000.",
    ),
    (
        Setting::DynamicModel,
        "gps",
        "dynamic_model",
        false,
        "GPS motion model: portable, stationary, pedestrian, automotive, sea, airborne1g, airborne2g or airborne4g.",
    ),
    (
        Setting::BleOffS,
        "power",
        "ble_off_s",
        true,
        knobs::BLE_OFF_DOC,
    ),
    (
        Setting::AdvWindowS,
        "power",
        "adv_window_s",
        true,
        knobs::ADV_WINDOW_DOC,
    ),
    (
        Setting::BleOnS,
        "power",
        "ble_on_s",
        true,
        knobs::BLE_ON_DOC,
    ),
    (
        Setting::SleepIntervalS,
        "power",
        "sleep_interval_s",
        true,
        knobs::SLEEP_INTERVAL_DOC,
    ),
    (
        Setting::IdleTimeoutS,
        "power",
        "idle_timeout_s",
        true,
        knobs::IDLE_TIMEOUT_DOC,
    ),
];

/// A `[section]` of the file and what it groups.
#[derive(Clone, Copy, Debug)]
pub struct Section {
    pub name: &'static str,
    pub title: &'static str,
    pub doc: &'static str,
}

/// Every section: its name, its title, and what it groups.
pub const SECTIONS: [(&'static str, &'static str, &'static str); 7] = [
    (
        "radio",
        "Radio",
        "frequency, spreading factor, bandwidth, coding rate and power are the LoRa link-budget knobs: together they set sensitivity, on-air time and radiated power - i.e. range. The three hop_* keys are the channel plan and the slot clock that runs it. The default plan is one channel: a 500 kHz signal may hold a single carrier in the 902-928 MHz band as often as it likes, so hopping buys no air time there that the default modulation does not already have. What the plan is kept for is the clock, which cuts every second into turns and gives each address one - without it two nodes beaconing at the same rate talk over each other. Raise hop_channels to hop for real; see the notes on that key. The four commented keys describe the board the firmware is running on, not a preference: the defaults are the Wio-S3's own hardware, and inside the module SX1262 DIO2 is the VCTL of an SKY13453-385LF antenna switch and DIO3 is that same switch's VDD. Turning the switch off, or supplying it below the 2.5 V its datasheet specifies, leaves the PA transmitting +22 dBm into an isolated port, so the firmware refuses both, logs that it did, and runs the board's values instead.",
    ),
    (
        "network",
        "Network",
        "Everything is sent. Leaves hear each other directly, so a fleet of nothing but leaves is a working network and these defaults need no changing. A repeater is for covering ground no pair of leaves can reach across on their own. tx_only and rx_only split a leaf in half, for a deployment where the reporting only ever runs one way.",
    ),
    (
        "beacon",
        "Beacon",
        "What goes out, and how often.",
    ),
    (
        "wake",
        "Wake on LoRa",
        "How a stored board is reached without waiting for its wake check. With wake_enabled on, the park before every deep sleep leaves the SX1262 in its own sniff loop - listening for wake_rx_ms, sleeping for wake_sleep_ms, on frequency_hz and a sync word ordinary traffic never uses - and the S3 sleeps until the radio pulls DIO1 with a completed wake frame. A board that wants another woken sends a burst of wake frames behind a preamble sized to the target's cycle: cd tools && pixi run board-wake --target 3. The woken board comes up idle, answers with a ping, and can then be connected to over BLE. The timer wake-check stays armed as a backstop. The window sets the tolerance for the radio's timer drift (half of 2*rx - 10 ms - 24 symbols, either way) and the sleep sets the current: at the defaults the receiver is on 9% of the time, and a wake frame is about 3.4 s on air. Both boards must share these values, because the preamble one sends is computed from them. Refused on a hopping plan, since a wake frame would hold one channel far longer than hopping allows.",
    ),
    (
        "debug",
        "Debug",
        "",
    ),
    (
        "gps",
        "GPS",
        "MAX-M10 receiver, applied as one UBX-CFG-VALSET to the RAM layer. An absent [gps] section leaves the module at its factory concurrent set.",
    ),
    (
        "power",
        "Power",
        "The duty cycle: how much of the time the board is reachable. These five are the only keys in this file the board also keeps its own copy of, in RTC RAM so they survive a deep sleep and in flash so they survive a flat cell, and they are the only ones an app can change live over BLE. So they follow a different rule to every other key here: an absent one leaves the board's current value alone rather than resetting it to the default. That is why all five are commented out - a push of this file should not silently undo a duty cycle somebody set from the app. Uncomment one and it wins at the next boot, because the file is what survives a reflash and the RTC copy is not. Writing an explicit 0 is a request, not an absence: it is how a file turns a duty cycle off. What is NOT here is the mode. The board has four - stored, idle, tracking and listening - and which one it is in is a command from the app or the console, never a file: a card that said tracking would put every board it was ever copied into onto the air. Each key belongs to one mode: stored reads sleep_interval_s and adv_window_s, idle reads idle_timeout_s, tracking reads ble_off_s and ble_on_s, and listening reads none of them.",
    ),
];

/// One key of the config file.
#[derive(Clone, Copy, Debug)]
pub struct Key {
    pub setting: Setting,
    pub section: &'static str,
    pub name: &'static str,
    pub kind: Kind,
    /// Printed into the reference file commented out: a fact about the board
    /// that is not to be retuned, or a duty cycle that a push must not undo.
    pub commented: bool,
    pub doc: &'static str,
}

impl Setting {
    /// The duty-cycle knob behind a `[power]` key.
    pub open spec fn duty(self) -> Option<Knob> {
        match self {
            Setting::BleOffS => Some(Knob::BleOff),
            Setting::AdvWindowS => Some(Knob::AdvWindow),
            Setting::BleOnS => Some(Knob::BleOn),
            Setting::SleepIntervalS => Some(Knob::SleepInterval),
            Setting::IdleTimeoutS => Some(Knob::IdleTimeout),
            _ => None,
        }
    }

    /// The duty-cycle knob behind a `[power]` key.
    pub fn knob(self) -> (r: Option<Knob>)
        ensures
            r == self.duty(),
    {
        match self {
            Setting::BleOffS => Some(Knob::BleOff),
            Setting::AdvWindowS => Some(Knob::AdvWindow),
            Setting::BleOnS => Some(Knob::BleOn),
            Setting::SleepIntervalS => Some(Knob::SleepInterval),
            Setting::IdleTimeoutS => Some(Knob::IdleTimeout),
            _ => None,
        }
    }

    /// What the key takes.
    #[verifier::opaque]
    pub open spec fn takes(self) -> Kind {
        match self {
            Setting::FrequencyHz => Kind::Int { min: RF_MIN_HZ as i64, max: RF_MAX_HZ as i64 },
            Setting::HopChannels => Kind::Int { min: 0, max: 255 },
            Setting::HopStepKhz => Kind::Int { min: HOP_STEP_MIN_KHZ as i64, max: HOP_STEP_MAX_KHZ as i64 },
            Setting::HopDwellMs => Kind::Int { min: HOP_DWELL_MIN_MS as i64, max: HOP_DWELL_MAX_MS as i64 },
            Setting::SpreadingFactor => Kind::Int { min: 5, max: 12 },
            Setting::BandwidthKhz => Kind::IntChoice(&BANDWIDTHS),
            Setting::CodingRate => Kind::Int { min: 5, max: 8 },
            Setting::PowerDbm => Kind::Int { min: POWER_MIN_DBM, max: 22 },
            Setting::RxBoost => Kind::Bool,
            Setting::DcdcEnabled => Kind::Bool,
            Setting::Dio2RfSwitch => Kind::Bool,
            Setting::TcxoVolts => Kind::Choice(&TCXO_NAMES),
            Setting::TcxoStartupMs => Kind::Int { min: 1, max: 1_000 },
            Setting::WakeEnabled => Kind::Bool,
            Setting::WakeRxMs => Kind::Int { min: 50, max: 5_000 },
            Setting::WakeSleepMs => Kind::Int { min: 200, max: 30_000 },
            Setting::WakeFrequencyHz => Kind::Int { min: 0, max: RF_MAX_HZ as i64 },
            Setting::Address => Kind::Int { min: 1, max: 255 },
            Setting::Role => Kind::Choice(&ROLE_NAMES),
            Setting::MaxHops => Kind::Int { min: 0, max: MAX_HOPS_LIMIT as i64 },
            Setting::DedupTtlS => Kind::Int { min: 1, max: 3600 },
            Setting::IntervalS => Kind::Int { min: 0, max: 3600 },
            Setting::PingIntervalS => Kind::Int { min: 0, max: 3600 },
            Setting::Fields => Kind::Fields,
            Setting::Verbose => Kind::Bool,
            Setting::GpsEnabled => Kind::Bool,
            Setting::GlonassEnabled => Kind::Bool,
            Setting::GalileoEnabled => Kind::Bool,
            Setting::BeidouEnabled => Kind::Bool,
            Setting::QzssEnabled => Kind::Bool,
            Setting::SbasEnabled => Kind::Bool,
            Setting::PowerMode => Kind::Choice(&POWER_MODE_NAMES),
            Setting::MeasRateMs => Kind::Int { min: 25, max: 10_000 },
            Setting::DynamicModel => Kind::Choice(&DYN_MODEL_NAMES),
            Setting::BleOffS => Kind::IntOrZero { min: Knob::BleOff.row().min as i64, max: Knob::BleOff.row().max as i64 },
            Setting::AdvWindowS => Kind::IntOrZero { min: Knob::AdvWindow.row().min as i64, max: Knob::AdvWindow.row().max as i64 },
            Setting::BleOnS => Kind::IntOrZero { min: Knob::BleOn.row().min as i64, max: Knob::BleOn.row().max as i64 },
            Setting::SleepIntervalS => Kind::IntOrZero { min: Knob::SleepInterval.row().min as i64, max: Knob::SleepInterval.row().max as i64 },
            Setting::IdleTimeoutS => Kind::IntOrZero { min: Knob::IdleTimeout.row().min as i64, max: Knob::IdleTimeout.row().max as i64 },
        }
    }

    /// What the key takes.
    pub fn kind(self) -> (r: Kind)
        ensures
            r == self.takes(),
    {
        proof {
            reveal(Setting::takes);
        }
        match self {
            Setting::FrequencyHz => Kind::Int { min: RF_MIN_HZ as i64, max: RF_MAX_HZ as i64 },
            Setting::HopChannels => Kind::Int { min: 0, max: 255 },
            Setting::HopStepKhz => Kind::Int { min: HOP_STEP_MIN_KHZ as i64, max: HOP_STEP_MAX_KHZ as i64 },
            Setting::HopDwellMs => Kind::Int { min: HOP_DWELL_MIN_MS as i64, max: HOP_DWELL_MAX_MS as i64 },
            Setting::SpreadingFactor => Kind::Int { min: 5, max: 12 },
            Setting::BandwidthKhz => Kind::IntChoice(&BANDWIDTHS),
            Setting::CodingRate => Kind::Int { min: 5, max: 8 },
            Setting::PowerDbm => Kind::Int { min: POWER_MIN_DBM, max: 22 },
            Setting::RxBoost => Kind::Bool,
            Setting::DcdcEnabled => Kind::Bool,
            Setting::Dio2RfSwitch => Kind::Bool,
            Setting::TcxoVolts => Kind::Choice(&TCXO_NAMES),
            Setting::TcxoStartupMs => Kind::Int { min: 1, max: 1_000 },
            Setting::WakeEnabled => Kind::Bool,
            Setting::WakeRxMs => Kind::Int { min: 50, max: 5_000 },
            Setting::WakeSleepMs => Kind::Int { min: 200, max: 30_000 },
            Setting::WakeFrequencyHz => Kind::Int { min: 0, max: RF_MAX_HZ as i64 },
            Setting::Address => Kind::Int { min: 1, max: 255 },
            Setting::Role => Kind::Choice(&ROLE_NAMES),
            Setting::MaxHops => Kind::Int { min: 0, max: MAX_HOPS_LIMIT as i64 },
            Setting::DedupTtlS => Kind::Int { min: 1, max: 3600 },
            Setting::IntervalS => Kind::Int { min: 0, max: 3600 },
            Setting::PingIntervalS => Kind::Int { min: 0, max: 3600 },
            Setting::Fields => Kind::Fields,
            Setting::Verbose => Kind::Bool,
            Setting::GpsEnabled => Kind::Bool,
            Setting::GlonassEnabled => Kind::Bool,
            Setting::GalileoEnabled => Kind::Bool,
            Setting::BeidouEnabled => Kind::Bool,
            Setting::QzssEnabled => Kind::Bool,
            Setting::SbasEnabled => Kind::Bool,
            Setting::PowerMode => Kind::Choice(&POWER_MODE_NAMES),
            Setting::MeasRateMs => Kind::Int { min: 25, max: 10_000 },
            Setting::DynamicModel => Kind::Choice(&DYN_MODEL_NAMES),
            Setting::BleOffS => Kind::IntOrZero { min: Knob::BleOff.spec().min as i64, max: Knob::BleOff.spec().max as i64 },
            Setting::AdvWindowS => Kind::IntOrZero { min: Knob::AdvWindow.spec().min as i64, max: Knob::AdvWindow.spec().max as i64 },
            Setting::BleOnS => Kind::IntOrZero { min: Knob::BleOn.spec().min as i64, max: Knob::BleOn.spec().max as i64 },
            Setting::SleepIntervalS => Kind::IntOrZero { min: Knob::SleepInterval.spec().min as i64, max: Knob::SleepInterval.spec().max as i64 },
            Setting::IdleTimeoutS => Kind::IntOrZero { min: Knob::IdleTimeout.spec().min as i64, max: Knob::IdleTimeout.spec().max as i64 },
        }
    }

    /// The part of a config a setting belongs to.
    pub open spec fn part(self) -> Part {
        match self {
            Setting::FrequencyHz
            | Setting::HopChannels
            | Setting::HopStepKhz
            | Setting::HopDwellMs
            | Setting::SpreadingFactor
            | Setting::BandwidthKhz
            | Setting::CodingRate
            | Setting::PowerDbm
            | Setting::RxBoost
            | Setting::DcdcEnabled
            | Setting::Dio2RfSwitch
            | Setting::TcxoVolts
            | Setting::TcxoStartupMs => Part::Radio,
            Setting::WakeEnabled
            | Setting::WakeRxMs
            | Setting::WakeSleepMs
            | Setting::WakeFrequencyHz
            | Setting::Address
            | Setting::Role
            | Setting::MaxHops
            | Setting::DedupTtlS
            | Setting::IntervalS
            | Setting::PingIntervalS
            | Setting::Fields
            | Setting::Verbose => Part::Network,
            Setting::GpsEnabled
            | Setting::GlonassEnabled
            | Setting::GalileoEnabled
            | Setting::BeidouEnabled
            | Setting::QzssEnabled
            | Setting::SbasEnabled
            | Setting::PowerMode
            | Setting::MeasRateMs
            | Setting::DynamicModel => Part::Gps,
            Setting::BleOffS
            | Setting::AdvWindowS
            | Setting::BleOnS
            | Setting::SleepIntervalS
            | Setting::IdleTimeoutS => Part::Power,
        }
    }

    /// The part of a config a setting belongs to.
    pub fn part_of(self) -> (r: Part)
        ensures
            r == self.part(),
    {
        match self {
            Setting::FrequencyHz
            | Setting::HopChannels
            | Setting::HopStepKhz
            | Setting::HopDwellMs
            | Setting::SpreadingFactor
            | Setting::BandwidthKhz
            | Setting::CodingRate
            | Setting::PowerDbm
            | Setting::RxBoost
            | Setting::DcdcEnabled
            | Setting::Dio2RfSwitch
            | Setting::TcxoVolts
            | Setting::TcxoStartupMs => Part::Radio,
            Setting::WakeEnabled
            | Setting::WakeRxMs
            | Setting::WakeSleepMs
            | Setting::WakeFrequencyHz
            | Setting::Address
            | Setting::Role
            | Setting::MaxHops
            | Setting::DedupTtlS
            | Setting::IntervalS
            | Setting::PingIntervalS
            | Setting::Fields
            | Setting::Verbose => Part::Network,
            Setting::GpsEnabled
            | Setting::GlonassEnabled
            | Setting::GalileoEnabled
            | Setting::BeidouEnabled
            | Setting::QzssEnabled
            | Setting::SbasEnabled
            | Setting::PowerMode
            | Setting::MeasRateMs
            | Setting::DynamicModel => Part::Gps,
            Setting::BleOffS
            | Setting::AdvWindowS
            | Setting::BleOnS
            | Setting::SleepIntervalS
            | Setting::IdleTimeoutS => Part::Power,
        }
    }

    /// What a config holds for a key of the radio.
    #[verifier::opaque]
    pub open spec fn held_radio(self, c: RadioConfig) -> Value {
        match self {
            Setting::FrequencyHz => Value::Int(c.frequency_hz as i64),
            Setting::HopChannels => Value::Int(c.hop_channels as i64),
            Setting::HopStepKhz => Value::Int(c.hop_step_khz as i64),
            Setting::HopDwellMs => Value::Int(c.hop_dwell_ms as i64),
            Setting::SpreadingFactor => Value::Int(c.spreading_factor as i64),
            Setting::BandwidthKhz => Value::Int(c.bandwidth_khz as i64),
            Setting::CodingRate => Value::Int(c.coding_rate as i64),
            Setting::PowerDbm => Value::Int(c.power_dbm as i64),
            Setting::RxBoost => Value::Bool(c.rx_boost),
            Setting::DcdcEnabled => Value::Bool(c.dcdc_enabled),
            Setting::Dio2RfSwitch => Value::Bool(c.dio2_rf_switch),
            Setting::TcxoVolts => Value::Choice(tcxo_place(c.tcxo_volts)),
            Setting::TcxoStartupMs => Value::Int(c.tcxo_startup_ms as i64),
            _ => Value::Int(0),
        }
    }

    /// What a config holds for a key of the node.
    #[verifier::opaque]
    pub open spec fn held_network(self, c: RadioConfig) -> Value {
        match self {
            Setting::WakeEnabled => Value::Bool(c.wake_enabled),
            Setting::WakeRxMs => Value::Int(c.wake_rx_ms as i64),
            Setting::WakeSleepMs => Value::Int(c.wake_sleep_ms as i64),
            Setting::WakeFrequencyHz => Value::Int(c.wake_frequency_hz as i64),
            Setting::Address => Value::Int(c.address as i64),
            Setting::Role => Value::Choice(role_place(c.role)),
            Setting::MaxHops => Value::Int(c.max_hops as i64),
            Setting::DedupTtlS => Value::Int(c.dedup_ttl_s as i64),
            Setting::IntervalS => Value::Int(c.beacon_interval_s as i64),
            Setting::PingIntervalS => Value::Int(c.ping_interval_s as i64),
            Setting::Fields => Value::Fields(c.beacon_fields),
            Setting::Verbose => Value::Bool(c.verbose),
            _ => Value::Int(0),
        }
    }

    /// What a config holds for a key of the receiver.
    #[verifier::opaque]
    pub open spec fn held_gps(self, g: GpsConfig) -> Value {
        match self {
            Setting::GpsEnabled => Value::Bool(g.gps_enabled),
            Setting::GlonassEnabled => Value::Bool(g.glonass_enabled),
            Setting::GalileoEnabled => Value::Bool(g.galileo_enabled),
            Setting::BeidouEnabled => Value::Bool(g.beidou_enabled),
            Setting::QzssEnabled => Value::Bool(g.qzss_enabled),
            Setting::SbasEnabled => Value::Bool(g.sbas_enabled),
            Setting::PowerMode => Value::Choice(power_mode_place(g.power_mode)),
            Setting::MeasRateMs => Value::Int(g.meas_rate_ms as i64),
            Setting::DynamicModel => Value::Choice(dyn_model_place(g.dyn_model)),
            _ => Value::Int(0),
        }
    }

    /// What a config holds for the key. The duty cycle is the board's own, so
    /// a config shows none of it: a `[power]` key reads as zero.
    pub open spec fn held(self, c: RadioConfig) -> Value {
        match self.part() {
            Part::Radio => self.held_radio(c),
            Part::Network => self.held_network(c),
            Part::Gps => self.held_gps(c.gps),
            Part::Power => Value::Int(0),
        }
    }

    fn value_radio(self, c: &RadioConfig) -> (r: Value)
        ensures
            r == self.held_radio(*c),
    {
        proof {
            reveal(Setting::held_radio);
        }
        match self {
            Setting::FrequencyHz => Value::Int(c.frequency_hz as i64),
            Setting::HopChannels => Value::Int(c.hop_channels as i64),
            Setting::HopStepKhz => Value::Int(c.hop_step_khz as i64),
            Setting::HopDwellMs => Value::Int(c.hop_dwell_ms as i64),
            Setting::SpreadingFactor => Value::Int(c.spreading_factor as i64),
            Setting::BandwidthKhz => Value::Int(c.bandwidth_khz as i64),
            Setting::CodingRate => Value::Int(c.coding_rate as i64),
            Setting::PowerDbm => Value::Int(c.power_dbm as i64),
            Setting::RxBoost => Value::Bool(c.rx_boost),
            Setting::DcdcEnabled => Value::Bool(c.dcdc_enabled),
            Setting::Dio2RfSwitch => Value::Bool(c.dio2_rf_switch),
            Setting::TcxoVolts => Value::Choice(place_of_tcxo(c.tcxo_volts)),
            Setting::TcxoStartupMs => Value::Int(c.tcxo_startup_ms as i64),
            _ => Value::Int(0),
        }
    }

    fn value_network(self, c: &RadioConfig) -> (r: Value)
        ensures
            r == self.held_network(*c),
    {
        proof {
            reveal(Setting::held_network);
        }
        match self {
            Setting::WakeEnabled => Value::Bool(c.wake_enabled),
            Setting::WakeRxMs => Value::Int(c.wake_rx_ms as i64),
            Setting::WakeSleepMs => Value::Int(c.wake_sleep_ms as i64),
            Setting::WakeFrequencyHz => Value::Int(c.wake_frequency_hz as i64),
            Setting::Address => Value::Int(c.address as i64),
            Setting::Role => Value::Choice(place_of_role(c.role)),
            Setting::MaxHops => Value::Int(c.max_hops as i64),
            Setting::DedupTtlS => Value::Int(c.dedup_ttl_s as i64),
            Setting::IntervalS => Value::Int(c.beacon_interval_s as i64),
            Setting::PingIntervalS => Value::Int(c.ping_interval_s as i64),
            Setting::Fields => Value::Fields(c.beacon_fields),
            Setting::Verbose => Value::Bool(c.verbose),
            _ => Value::Int(0),
        }
    }

    fn value_gps(self, g: &GpsConfig) -> (r: Value)
        ensures
            r == self.held_gps(*g),
    {
        proof {
            reveal(Setting::held_gps);
        }
        match self {
            Setting::GpsEnabled => Value::Bool(g.gps_enabled),
            Setting::GlonassEnabled => Value::Bool(g.glonass_enabled),
            Setting::GalileoEnabled => Value::Bool(g.galileo_enabled),
            Setting::BeidouEnabled => Value::Bool(g.beidou_enabled),
            Setting::QzssEnabled => Value::Bool(g.qzss_enabled),
            Setting::SbasEnabled => Value::Bool(g.sbas_enabled),
            Setting::PowerMode => Value::Choice(place_of_power_mode(g.power_mode)),
            Setting::MeasRateMs => Value::Int(g.meas_rate_ms as i64),
            Setting::DynamicModel => Value::Choice(place_of_dyn_model(g.dyn_model)),
            _ => Value::Int(0),
        }
    }

    /// What `c` holds for the key.
    pub fn value(self, c: &RadioConfig) -> (r: Value)
        ensures
            r == self.held(*c),
    {
        match self.part_of() {
            Part::Radio => self.value_radio(c),
            Part::Network => self.value_network(c),
            Part::Gps => self.value_gps(&c.gps),
            Part::Power => Value::Int(0),
        }
    }

    /// A word a config holds is one of the words its key takes.
    pub proof fn lemma_held_choice(self, c: RadioConfig)
        requires
            self.held(c) is Choice,
        ensures
            keys::fits(self.takes(), self.held(c)),
    {
        reveal(Setting::takes);
        reveal(Setting::held_radio);
        reveal(Setting::held_network);
        reveal(Setting::held_gps);
    }

    /// A `[power]` key takes zero or a duration inside the knob's bounds.
    pub proof fn lemma_duty_takes(self, k: Knob)
        requires
            self.duty() == Some(k),
        ensures
            self.part() is Power,
            self.takes() == (Kind::IntOrZero { min: k.row().min as i64, max: k.row().max as i64 }),
    {
        reveal(Setting::takes);
    }
}

/// Which of the choices a value is.
pub open spec fn role_place(v: Role) -> usize {
    match v {
        Role::Leaf => 0,
        Role::Repeater => 1,
        Role::TxOnly => 2,
        Role::RxOnly => 3,
    }
}

/// Which of the choices `v` is.
fn place_of_role(v: Role) -> (r: usize)
    ensures
        r == role_place(v),
{
    match v {
        Role::Leaf => 0,
        Role::Repeater => 1,
        Role::TxOnly => 2,
        Role::RxOnly => 3,
    }
}

/// Which of the choices a value is.
pub open spec fn tcxo_place(v: TcxoVolts) -> usize {
    match v {
        TcxoVolts::V1_6 => 0,
        TcxoVolts::V1_7 => 1,
        TcxoVolts::V1_8 => 2,
        TcxoVolts::V2_2 => 3,
        TcxoVolts::V2_4 => 4,
        TcxoVolts::V2_7 => 5,
        TcxoVolts::V3_0 => 6,
        TcxoVolts::V3_3 => 7,
    }
}

/// Which of the choices `v` is.
fn place_of_tcxo(v: TcxoVolts) -> (r: usize)
    ensures
        r == tcxo_place(v),
{
    match v {
        TcxoVolts::V1_6 => 0,
        TcxoVolts::V1_7 => 1,
        TcxoVolts::V1_8 => 2,
        TcxoVolts::V2_2 => 3,
        TcxoVolts::V2_4 => 4,
        TcxoVolts::V2_7 => 5,
        TcxoVolts::V3_0 => 6,
        TcxoVolts::V3_3 => 7,
    }
}

/// Which of the choices a value is.
pub open spec fn power_mode_place(v: PowerMode) -> usize {
    match v {
        PowerMode::Full => 0,
        PowerMode::PsmOnOff => 1,
        PowerMode::PsmCyclic => 2,
    }
}

/// Which of the choices `v` is.
fn place_of_power_mode(v: PowerMode) -> (r: usize)
    ensures
        r == power_mode_place(v),
{
    match v {
        PowerMode::Full => 0,
        PowerMode::PsmOnOff => 1,
        PowerMode::PsmCyclic => 2,
    }
}

/// Which of the choices a value is.
pub open spec fn dyn_model_place(v: DynModel) -> usize {
    match v {
        DynModel::Portable => 0,
        DynModel::Stationary => 1,
        DynModel::Pedestrian => 2,
        DynModel::Automotive => 3,
        DynModel::Sea => 4,
        DynModel::Airborne1g => 5,
        DynModel::Airborne2g => 6,
        DynModel::Airborne4g => 7,
    }
}

/// Which of the choices `v` is.
fn place_of_dyn_model(v: DynModel) -> (r: usize)
    ensures
        r == dyn_model_place(v),
{
    match v {
        DynModel::Portable => 0,
        DynModel::Stationary => 1,
        DynModel::Pedestrian => 2,
        DynModel::Automotive => 3,
        DynModel::Sea => 4,
        DynModel::Airborne1g => 5,
        DynModel::Airborne2g => 6,
        DynModel::Airborne4g => 7,
    }
}

/// The header the reference file starts with.
pub const EXAMPLE_HEADER: &'static str = "RADIO.CFG - telemetry-in-midair radio configuration reference. Generated from the key table in the protocol crate (cargo run --example radio_example in proto/); every value below is the firmware default. The firmware reads at most 1024 bytes of config, which the comments here put this file well over, so it is a reference rather than a file to push: strip the comments and what remains fits. The tools do that (cd tools && pixi run board-config --address 3 pushes it; add --dry-run --save ../RADIO.CFG for the stripped file). A config pushed over USB or BLE is applied live and kept in the board's own flash, so it survives a power cycle. Every key is optional - an absent key keeps its default, and an empty file is valid. Section headers are cosmetic: keys are unique across sections, so a key works regardless of which [section] it sits under.";

/// Column the reference file's comments wrap at.
pub const EXAMPLE_WIDTH: usize = 76;

/// The spelling the table uses for a key that has more than one.
pub open spec fn canonical(name: Seq<char>) -> Seq<char> {
    if name == "beacon_interval_s"@ {
        "interval_s"@
    } else if name == "beacon_fields"@ {
        "fields"@
    } else if name == "dyn_model"@ {
        "dynamic_model"@
    } else {
        name
    }
}

/// The first row from `from` on that is called `name`.
pub open spec fn row_from(name: Seq<char>, from: int) -> Option<int>
    decreases 39 - from,
{
    if from >= 39 {
        None
    } else if KEYS@[from].2@ == name {
        Some(from)
    } else {
        row_from(name, from + 1)
    }
}

/// The row a name, aliases resolved, stands for.
pub open spec fn row_named(name: Seq<char>) -> Option<int> {
    row_from(canonical(name), 0)
}

/// The key of row `i`.
pub open spec fn key_of(i: int) -> Key {
    Key {
        setting: KEYS@[i].0,
        section: KEYS@[i].1,
        name: KEYS@[i].2,
        kind: KEYS@[i].0.takes(),
        commented: KEYS@[i].3,
        doc: KEYS@[i].4,
    }
}

/// A row found by name is a row of the table, and is called that.
pub proof fn lemma_row_from(name: Seq<char>, from: int)
    requires
        0 <= from,
    ensures
        row_from(name, from) matches Some(i) ==> from <= i < 39 && KEYS@[i].2@ == name,
        row_from(name, from) is None ==> forall|i: int| from <= i < 39 ==> (#[trigger] KEYS@[i]).2@ != name,
    decreases 39 - from,
{
    if from < 39 && KEYS@[from].2@ != name {
        lemma_row_from(name, from + 1);
    }
}

/// The key of row `i`.
pub fn key_at(i: usize) -> (r: Key)
    requires
        i < 39,
    ensures
        r == key_of(i as int),
{
    let (setting, section, name, commented, doc) = KEYS[i];
    Key { setting, section, name, kind: setting.kind(), commented, doc }
}

/// The row `name`, aliases resolved, stands for.
pub(crate) fn find_row(name: &[char]) -> (r: Option<usize>)
    ensures
        r matches Some(i) ==> i < 39 && row_named(name@) == Some(i as int),
        r is None ==> row_named(name@) is None,
{
    let alias: Vec<char>;
    let word: &[char] = if same(name, "beacon_interval_s") {
        alias = chars_of("interval_s");
        alias.as_slice()
    } else if same(name, "beacon_fields") {
        alias = chars_of("fields");
        alias.as_slice()
    } else if same(name, "dyn_model") {
        alias = chars_of("dynamic_model");
        alias.as_slice()
    } else {
        name
    };
    assert(word@ == canonical(name@));
    let mut i: usize = 0;
    while i < 39
        invariant
            i <= 39,
            row_named(name@) == row_from(word@, i as int),
        decreases 39 - i,
    {
        let (_, _, key, _, _) = KEYS[i];
        if same(word, key) {
            return Some(i);
        }
        i += 1;
    }
    None
}

/// The key called `name`, if there is one. Aliases are resolved first.
pub fn key(name: &str) -> (r: Option<Key>)
    ensures
        r is Some <==> row_named(name@) is Some,
        r matches Some(k) ==> k == key_of(row_named(name@)->0) && k.name@ == canonical(name@),
{
    let word: Vec<char> = chars_of(name);
    match find_row(word.as_slice()) {
        Some(i) => {
            proof {
                lemma_row_from(canonical(name@), 0);
            }
            Some(key_at(i))
        },
        None => None,
    }
}

// -- Showing a value -----------------------------------------------------------

/// A value as the file spells it.
pub open spec fn shown(kind: Kind, v: Value) -> Seq<char> {
    match v {
        Value::Int(n) => chars::signed_decimal(n as int),
        Value::Bool(b) => if b {
            "true"@
        } else {
            "false"@
        },
        Value::Choice(i) => match kind {
            Kind::Choice(words) => "\""@ + words@[i as int]@ + "\""@,
            _ => Seq::empty(),
        },
        Value::Fields(mask) => lora::fields_text(mask),
    }
}

/// Whether a value is one the key takes.
pub open spec fn fits(kind: Kind, v: Value) -> bool {
    match kind {
        Kind::Int { min, max } => v matches Value::Int(n) && min <= n <= max,
        Kind::IntOrZero { min, max } => v matches Value::Int(n) && (n == 0 || min <= n <= max),
        Kind::IntChoice(list) => v matches Value::Int(n) && list@.contains(n),
        Kind::Bool => v is Bool,
        Kind::Choice(words) => v matches Value::Choice(i) && i < words@.len(),
        Kind::Fields => v matches Value::Fields(mask) && mask < 0x80 && lora::selects(mask, lora::FIELD_LAT)
            && lora::selects(mask, lora::FIELD_LON),
    }
}

impl Key {
    /// Write the value `cfg` holds for this key, as the file spells it.
    pub fn show(&self, cfg: &RadioConfig, out: &mut String)
        requires
            self.kind == self.setting.takes(),
        ensures
            final(out)@ == old(out)@ + shown(self.kind, self.setting.held(*cfg)),
    {
        match self.setting.value(cfg) {
            Value::Int(n) => {
                write_signed(n, out);
            },
            Value::Bool(b) => {
                out.append(if b { "true" } else { "false" });
            },
            Value::Choice(i) => {
                if let Kind::Choice(words) = self.kind {
                    let ghost before = out@;
                    out.append("\"");
                    proof {
                        self.setting.lemma_held_choice(*cfg);
                    }
                    out.append(words[i]);
                    out.append("\"");
                    assert(out@ =~= before + ("\""@ + words@[i as int]@ + "\""@));
                } else {
                    proof {
                        self.setting.lemma_held_choice(*cfg);
                    }
                }
            },
            Value::Fields(mask) => {
                write_fields(mask, out);
            },
        }
    }
}

// -- The reference file --------------------------------------------------------

/// How long the run of non-space at the front of `s` is.
pub open spec fn word_len(s: Seq<char>) -> int
    decreases s.len(),
{
    if s.len() == 0 || chars::is_space(s[0]) {
        0
    } else {
        1 + word_len(s.skip(1))
    }
}

/// A word lies inside the text it opens, and is not empty where the text
/// does not open on a space.
pub proof fn lemma_word_len(s: Seq<char>)
    ensures
        0 <= word_len(s) <= s.len(),
        s.len() > 0 && !chars::is_space(s[0]) ==> word_len(s) > 0,
        forall|i: int| 0 <= i < word_len(s) ==> !chars::is_space(#[trigger] s[i]),
        word_len(s) < s.len() ==> chars::is_space(s[word_len(s)]),
    decreases s.len(),
{
    if s.len() > 0 && !chars::is_space(s[0]) {
        let rest = s.skip(1);
        lemma_word_len(rest);
        assert forall|i: int| 0 <= i < word_len(s) implies !chars::is_space(#[trigger] s[i]) by {
            if i > 0 {
                assert(rest[i - 1] == s[i]);
            }
        }
        if word_len(s) < s.len() {
            assert(rest[word_len(rest)] == s[word_len(s)]);
        }
    }
}

/// Trimming leaves a suffix that does not open on a space.
pub proof fn lemma_trim_front(s: Seq<char>)
    ensures
        chars::trim_front(s).len() <= s.len(),
        chars::trim_front(s) == s.skip(s.len() - chars::trim_front(s).len()),
        chars::trim_front(s).len() > 0 ==> !chars::is_space(chars::trim_front(s)[0]),
    decreases s.len(),
{
    if s.len() > 0 && chars::is_space(s[0]) {
        lemma_trim_front(s.skip(1));
        assert(chars::trim_front(s) =~= s.skip(s.len() - chars::trim_front(s).len()));
    } else {
        assert(s.skip(0) =~= s);
    }
}

/// `text` word-wrapped at `width`, every line starting with `prefix`, from
/// column `col` of the line being written.
pub open spec fn wrapped(prefix: Seq<char>, text: Seq<char>, width: int, col: int) -> Seq<char>
    decreases text.len(),
    when 0 <= col
    via wrapped_shrinks
{
    let t = chars::trim_front(text);
    let n = word_len(t);
    if t.len() == 0 {
        if col > 0 {
            "\n"@
        } else {
            Seq::empty()
        }
    } else if col == 0 {
        prefix + t.take(n) + wrapped(prefix, t.skip(n), width, prefix.len() + n)
    } else if col + 1 + n > width {
        "\n"@ + prefix + t.take(n) + wrapped(prefix, t.skip(n), width, prefix.len() + n)
    } else {
        " "@ + t.take(n) + wrapped(prefix, t.skip(n), width, col + 1 + n)
    }
}

#[via_fn]
proof fn wrapped_shrinks(prefix: Seq<char>, text: Seq<char>, width: int, col: int) {
    let t = chars::trim_front(text);
    lemma_trim_front(text);
    lemma_word_len(t);
}

/// Write `text` word-wrapped at `width`, every line starting with `prefix`.
fn write_wrapped(out: &mut String, prefix: &str, text: &str, width: usize)
    ensures
        final(out)@ == old(out)@ + wrapped(prefix@, text@, width as int, 0),
{
    let ghost before = out@;
    let t: Vec<char> = chars_of(text);
    let n: usize = t.len();
    let head: u128 = chars_of(prefix).len() as u128;
    let mut col: u128 = 0;
    let mut at: usize = 0;
    assert(t@.skip(0) =~= t@);
    loop
        invariant
            at <= n,
            n == t@.len(),
            t@ == text@,
            n <= usize::MAX,
            head == prefix@.len(),
            head <= usize::MAX,
            col <= head + width + n,
            before == old(out)@,
            out@ + wrapped(prefix@, t@.skip(at as int), width as int, col as int) == before + wrapped(
                prefix@,
                text@,
                width as int,
                0,
            ),
        decreases n - at,
    {
        let ghost rest = t@.skip(at as int);
        let mut a: usize = at;
        while a < n && space(t[a])
            invariant
                at <= a <= n,
                n == t@.len(),
                chars::trim_front(t@.skip(a as int)) == chars::trim_front(rest),
            decreases n - a,
        {
            assert(t@.skip(a as int).skip(1) =~= t@.skip(a + 1));
            a += 1;
        }
        let ghost body = t@.skip(a as int);
        assert(chars::trim_front(rest) == body);
        proof {
            lemma_word_len(body);
        }
        if a == n {
            let ghost prev = out@;
            if col > 0 {
                out.append("\n");
            }
            assert(out@ =~= prev + wrapped(prefix@, rest, width as int, col as int));
            return;
        }
        let mut b: usize = a;
        assert(body.skip(0) =~= body);
        while b < n && !space(t[b])
            invariant
                a <= b <= n,
                n == t@.len(),
                word_len(body) == (b - a) + word_len(t@.skip(b as int)),
            decreases n - b,
        {
            assert(t@.skip(b as int).skip(1) =~= t@.skip(b + 1));
            b += 1;
        }
        assert(word_len(body) == b - a);
        assert(body.take(b - a) =~= text@.subrange(a as int, b as int));
        assert(body.skip(b - a) =~= t@.skip(b as int));
        let len: u128 = (b - a) as u128;
        let ghost prev = out@;
        let ghost was = col as int;
        if col == 0 {
            out.append(prefix);
            col = head;
        } else if col + 1 + len > width as u128 {
            out.append("\n");
            out.append(prefix);
            col = head;
        } else {
            out.append(" ");
            col = col + 1;
        }
        out.append(text.substring_char(a, b));
        col = col + len;
        assert(out@ + wrapped(prefix@, t@.skip(b as int), width as int, col as int) =~= prev + wrapped(
            prefix@,
            rest,
            width as int,
            was,
        ));
        at = b;
    }
}

/// `n` dashes, none where that is negative.
pub open spec fn dashes(n: int) -> Seq<char> {
    Seq::new((if n > 0 { n } else { 0 }) as nat, |i: int| '-')
}

/// The line above a section.
pub open spec fn ruled(title: Seq<char>) -> Seq<char> {
    "# -- "@ + title + " "@ + dashes(EXAMPLE_WIDTH - (6 + title.len())) + "\n"@
}

/// A key of the reference file: its doc as a comment, and the value `cfg`
/// holds for it.
pub open spec fn key_text(k: Key, cfg: RadioConfig) -> Seq<char> {
    "\n"@ + wrapped("# "@, k.doc@, EXAMPLE_WIDTH as int, 0) + (if k.commented {
        "# "@
    } else {
        Seq::empty()
    }) + k.name@ + " = "@ + shown(k.kind, k.setting.held(cfg)) + "\n"@
}

/// The keys of a section, from row `from` of the table on.
pub open spec fn keys_text(section: Seq<char>, cfg: RadioConfig, from: int) -> Seq<char>
    decreases 39 - from,
{
    if from >= 39 {
        Seq::empty()
    } else if KEYS@[from].1@ == section {
        key_text(key_of(from), cfg) + keys_text(section, cfg, from + 1)
    } else {
        keys_text(section, cfg, from + 1)
    }
}

/// A section of the reference file.
pub open spec fn section_text(s: Section, cfg: RadioConfig) -> Seq<char> {
    "\n"@ + ruled(s.title@) + wrapped("# "@, s.doc@, EXAMPLE_WIDTH as int, 0) + "["@ + s.name@ + "]\n"@ + keys_text(
        s.name@,
        cfg,
        0,
    )
}

/// The section of row `j`.
pub open spec fn section_of(j: int) -> Section {
    Section { name: SECTIONS@[j].0, title: SECTIONS@[j].1, doc: SECTIONS@[j].2 }
}

/// The sections from row `from` on.
pub open spec fn sections_text(cfg: RadioConfig, from: int) -> Seq<char>
    decreases 7 - from,
{
    if from >= 7 {
        Seq::empty()
    } else {
        section_text(section_of(from), cfg) + sections_text(cfg, from + 1)
    }
}

/// The reference file: every key at its default, with its doc as a comment,
/// the board facts and the duty cycle commented out.
pub open spec fn example_text() -> Seq<char> {
    wrapped("# "@, EXAMPLE_HEADER@, EXAMPLE_WIDTH as int, 0) + sections_text(radiocfg::radio_defaults(), 0)
}

/// The section of row `j`.
pub fn section_at(j: usize) -> (r: Section)
    requires
        j < 7,
    ensures
        r == section_of(j as int),
{
    let (name, title, doc) = SECTIONS[j];
    Section { name, title, doc }
}

/// Write the line above a section.
fn write_rule(out: &mut String, title: &str)
    ensures
        final(out)@ == old(out)@ + ruled(title@),
{
    let ghost before = out@;
    out.append("# -- ");
    out.append(title);
    out.append(" ");
    let len: usize = title.unicode_len();
    let n: usize = if len < EXAMPLE_WIDTH - 6 {
        EXAMPLE_WIDTH - 6 - len
    } else {
        0
    };
    let mut i: usize = 0;
    let ghost open = out@;
    assert(out@ =~= open + dashes(0));
    while i < n
        invariant
            i <= n,
            out@ == open + dashes(i as int),
        decreases n - i,
    {
        out.append("-");
        proof {
            reveal_strlit("-");
            assert(dashes(i + 1) =~= dashes(i as int) + "-"@);
        }
        assert(out@ =~= open + dashes(i + 1));
        i += 1;
    }
    out.append("\n");
    assert(dashes(n as int) =~= dashes(EXAMPLE_WIDTH - (6 + title@.len())));
    assert(out@ =~= before + ruled(title@));
}

/// Write a key, its doc as a comment.
fn write_key(out: &mut String, k: Key, cfg: &RadioConfig)
    requires
        k.kind == k.setting.takes(),
    ensures
        final(out)@ == old(out)@ + key_text(k, *cfg),
{
    let ghost before = out@;
    out.append("\n");
    write_wrapped(out, "# ", k.doc, EXAMPLE_WIDTH);
    if k.commented {
        out.append("# ");
    }
    out.append(k.name);
    out.append(" = ");
    k.show(cfg, out);
    out.append("\n");
    assert(out@ =~= before + key_text(k, *cfg));
}

/// Write a section and its keys.
fn write_section(out: &mut String, s: Section, cfg: &RadioConfig)
    ensures
        final(out)@ == old(out)@ + section_text(s, *cfg),
{
    let ghost before = out@;
    out.append("\n");
    write_rule(out, s.title);
    write_wrapped(out, "# ", s.doc, EXAMPLE_WIDTH);
    out.append("[");
    out.append(s.name);
    out.append("]\n");
    let ghost open = out@;
    let name: Vec<char> = chars_of(s.name);
    let mut i: usize = 0;
    while i < 39
        invariant
            i <= 39,
            name@ == s.name@,
            out@ + keys_text(s.name@, *cfg, i as int) == open + keys_text(s.name@, *cfg, 0),
        decreases 39 - i,
    {
        let k: Key = key_at(i);
        if same(name.as_slice(), k.section) {
            let ghost prev = out@;
            write_key(out, k, cfg);
            assert(prev + keys_text(s.name@, *cfg, i as int) =~= out@ + keys_text(s.name@, *cfg, i + 1));
        }
        i += 1;
    }
    assert(out@ + keys_text(s.name@, *cfg, 39) =~= out@);
    assert(out@ =~= before + section_text(s, *cfg));
}

/// Write the reference config file: every key at its default, with its doc as
/// a comment, the board facts and the duty cycle commented out.
pub fn write_example(out: &mut String)
    ensures
        final(out)@ == old(out)@ + example_text(),
{
    let ghost before = out@;
    let cfg: RadioConfig = RadioConfig::default();
    write_wrapped(out, "# ", EXAMPLE_HEADER, EXAMPLE_WIDTH);
    let ghost open = out@;
    let mut j: usize = 0;
    while j < 7
        invariant
            j <= 7,
            out@ + sections_text(cfg, j as int) == open + sections_text(cfg, 0),
        decreases 7 - j,
    {
        let ghost prev = out@;
        write_section(out, section_at(j), &cfg);
        assert(prev + sections_text(cfg, j as int) =~= out@ + sections_text(cfg, j + 1));
        j += 1;
    }
    assert(out@ + sections_text(cfg, 7) =~= out@);
    assert(out@ =~= before + example_text());
}

// -- The names -----------------------------------------------------------------

/// Whether `s` is a key as the file spells one: lower case, digits and
/// underscores.
pub open spec fn is_word(s: Seq<char>) -> bool {
    &&& s.len() > 0
    &&& forall|i: int| 0 <= i < s.len() ==> word_char(#[trigger] s[i])
}

/// Whether `c` can stand in a key.
pub open spec fn word_char(c: char) -> bool {
    'a' <= c <= 'z' || '0' <= c <= '9' || c == '_'
}

/// The row a name belongs to, told from its length and two of its letters.
spec fn rank(s: Seq<char>) -> int {
    let n = s.len();
    let a = s[1];
    let b = s[n - 2];
    if n == 12 && a == 'r' && b == 'h' {
        0
    } else if n == 12 && a == 'o' && b == 'l' {
        1
    } else if n == 12 && a == 'o' && b == 'h' {
        2
    } else if n == 12 && a == 'o' && b == 'm' {
        3
    } else if n == 16 && a == 'p' && b == 'o' {
        4
    } else if n == 13 && a == 'a' && b == 'h' {
        5
    } else if n == 11 && a == 'o' && b == 't' {
        6
    } else if n == 9 && a == 'o' && b == 'b' {
        7
    } else if n == 8 && a == 'x' && b == 's' {
        8
    } else if n == 12 && a == 'c' && b == 'e' {
        9
    } else if n == 14 && a == 'i' && b == 'c' {
        10
    } else if n == 10 && a == 'c' && b == 't' {
        11
    } else if n == 15 && a == 'c' && b == 'm' {
        12
    } else if n == 12 && a == 'a' && b == 'e' {
        13
    } else if n == 10 && a == 'a' && b == 'm' {
        14
    } else if n == 13 && a == 'a' && b == 'm' {
        15
    } else if n == 17 && a == 'a' && b == 'h' {
        16
    } else if n == 7 && a == 'd' && b == 's' {
        17
    } else if n == 4 && a == 'o' && b == 'l' {
        18
    } else if n == 8 && a == 'a' && b == 'p' {
        19
    } else if n == 11 && a == 'e' && b == '_' {
        20
    } else if n == 10 && a == 'n' && b == '_' {
        21
    } else if n == 15 && a == 'i' && b == '_' {
        22
    } else if n == 6 && a == 'i' && b == 'd' {
        23
    } else if n == 7 && a == 'e' && b == 's' {
        24
    } else if n == 11 && a == 'p' && b == 'e' {
        25
    } else if n == 15 && a == 'l' && b == 'e' {
        26
    } else if n == 15 && a == 'a' && b == 'e' {
        27
    } else if n == 14 && a == 'e' && b == 'e' {
        28
    } else if n == 12 && a == 'z' && b == 'e' {
        29
    } else if n == 12 && a == 'b' && b == 'e' {
        30
    } else if n == 10 && a == 'o' && b == 'd' {
        31
    } else if n == 12 && a == 'e' && b == 'm' {
        32
    } else if n == 13 && a == 'y' && b == 'e' {
        33
    } else if n == 9 && a == 'l' && b == '_' {
        34
    } else if n == 12 && a == 'd' && b == '_' {
        35
    } else if n == 8 && a == 'l' && b == '_' {
        36
    } else if n == 16 && a == 'l' && b == '_' {
        37
    } else if n == 14 && a == 'd' && b == '_' {
        38
    } else {
        39
    }
}

/// The names of rows 0 to 7 are words of their own.
proof fn lemma_names_0(i: int)
    requires
        0 <= i <= 7,
    ensures
        is_word(KEYS@[i].2@),
        rank(KEYS@[i].2@) == i,
{
    if i == 0 {
        reveal_strlit("frequency_hz");
        assert(KEYS@[0].2@ == "frequency_hz"@);
        assert(is_word("frequency_hz"@));
    } else if i == 1 {
        reveal_strlit("hop_channels");
        assert(KEYS@[1].2@ == "hop_channels"@);
        assert(is_word("hop_channels"@));
    } else if i == 2 {
        reveal_strlit("hop_step_khz");
        assert(KEYS@[2].2@ == "hop_step_khz"@);
        assert(is_word("hop_step_khz"@));
    } else if i == 3 {
        reveal_strlit("hop_dwell_ms");
        assert(KEYS@[3].2@ == "hop_dwell_ms"@);
        assert(is_word("hop_dwell_ms"@));
    } else if i == 4 {
        reveal_strlit("spreading_factor");
        assert(KEYS@[4].2@ == "spreading_factor"@);
        assert(is_word("spreading_factor"@));
    } else if i == 5 {
        reveal_strlit("bandwidth_khz");
        assert(KEYS@[5].2@ == "bandwidth_khz"@);
        assert(is_word("bandwidth_khz"@));
    } else if i == 6 {
        reveal_strlit("coding_rate");
        assert(KEYS@[6].2@ == "coding_rate"@);
        assert(is_word("coding_rate"@));
    } else if i == 7 {
        reveal_strlit("power_dbm");
        assert(KEYS@[7].2@ == "power_dbm"@);
        assert(is_word("power_dbm"@));
    }
}

/// The names of rows 8 to 15 are words of their own.
proof fn lemma_names_1(i: int)
    requires
        8 <= i <= 15,
    ensures
        is_word(KEYS@[i].2@),
        rank(KEYS@[i].2@) == i,
{
    if i == 8 {
        reveal_strlit("rx_boost");
        assert(KEYS@[8].2@ == "rx_boost"@);
        assert(is_word("rx_boost"@));
    } else if i == 9 {
        reveal_strlit("dcdc_enabled");
        assert(KEYS@[9].2@ == "dcdc_enabled"@);
        assert(is_word("dcdc_enabled"@));
    } else if i == 10 {
        reveal_strlit("dio2_rf_switch");
        assert(KEYS@[10].2@ == "dio2_rf_switch"@);
        assert(is_word("dio2_rf_switch"@));
    } else if i == 11 {
        reveal_strlit("tcxo_volts");
        assert(KEYS@[11].2@ == "tcxo_volts"@);
        assert(is_word("tcxo_volts"@));
    } else if i == 12 {
        reveal_strlit("tcxo_startup_ms");
        assert(KEYS@[12].2@ == "tcxo_startup_ms"@);
        assert(is_word("tcxo_startup_ms"@));
    } else if i == 13 {
        reveal_strlit("wake_enabled");
        assert(KEYS@[13].2@ == "wake_enabled"@);
        assert(is_word("wake_enabled"@));
    } else if i == 14 {
        reveal_strlit("wake_rx_ms");
        assert(KEYS@[14].2@ == "wake_rx_ms"@);
        assert(is_word("wake_rx_ms"@));
    } else if i == 15 {
        reveal_strlit("wake_sleep_ms");
        assert(KEYS@[15].2@ == "wake_sleep_ms"@);
        assert(is_word("wake_sleep_ms"@));
    }
}

/// The names of rows 16 to 23 are words of their own.
proof fn lemma_names_2(i: int)
    requires
        16 <= i <= 23,
    ensures
        is_word(KEYS@[i].2@),
        rank(KEYS@[i].2@) == i,
{
    if i == 16 {
        reveal_strlit("wake_frequency_hz");
        assert(KEYS@[16].2@ == "wake_frequency_hz"@);
        assert(is_word("wake_frequency_hz"@));
    } else if i == 17 {
        reveal_strlit("address");
        assert(KEYS@[17].2@ == "address"@);
        assert(is_word("address"@));
    } else if i == 18 {
        reveal_strlit("role");
        assert(KEYS@[18].2@ == "role"@);
        assert(is_word("role"@));
    } else if i == 19 {
        reveal_strlit("max_hops");
        assert(KEYS@[19].2@ == "max_hops"@);
        assert(is_word("max_hops"@));
    } else if i == 20 {
        reveal_strlit("dedup_ttl_s");
        assert(KEYS@[20].2@ == "dedup_ttl_s"@);
        assert(is_word("dedup_ttl_s"@));
    } else if i == 21 {
        reveal_strlit("interval_s");
        assert(KEYS@[21].2@ == "interval_s"@);
        assert(is_word("interval_s"@));
    } else if i == 22 {
        reveal_strlit("ping_interval_s");
        assert(KEYS@[22].2@ == "ping_interval_s"@);
        assert(is_word("ping_interval_s"@));
    } else if i == 23 {
        reveal_strlit("fields");
        assert(KEYS@[23].2@ == "fields"@);
        assert(is_word("fields"@));
    }
}

/// The names of rows 24 to 31 are words of their own.
proof fn lemma_names_3(i: int)
    requires
        24 <= i <= 31,
    ensures
        is_word(KEYS@[i].2@),
        rank(KEYS@[i].2@) == i,
{
    if i == 24 {
        reveal_strlit("verbose");
        assert(KEYS@[24].2@ == "verbose"@);
        assert(is_word("verbose"@));
    } else if i == 25 {
        reveal_strlit("gps_enabled");
        assert(KEYS@[25].2@ == "gps_enabled"@);
        assert(is_word("gps_enabled"@));
    } else if i == 26 {
        reveal_strlit("glonass_enabled");
        assert(KEYS@[26].2@ == "glonass_enabled"@);
        assert(is_word("glonass_enabled"@));
    } else if i == 27 {
        reveal_strlit("galileo_enabled");
        assert(KEYS@[27].2@ == "galileo_enabled"@);
        assert(is_word("galileo_enabled"@));
    } else if i == 28 {
        reveal_strlit("beidou_enabled");
        assert(KEYS@[28].2@ == "beidou_enabled"@);
        assert(is_word("beidou_enabled"@));
    } else if i == 29 {
        reveal_strlit("qzss_enabled");
        assert(KEYS@[29].2@ == "qzss_enabled"@);
        assert(is_word("qzss_enabled"@));
    } else if i == 30 {
        reveal_strlit("sbas_enabled");
        assert(KEYS@[30].2@ == "sbas_enabled"@);
        assert(is_word("sbas_enabled"@));
    } else if i == 31 {
        reveal_strlit("power_mode");
        assert(KEYS@[31].2@ == "power_mode"@);
        assert(is_word("power_mode"@));
    }
}

/// The names of rows 32 to 38 are words of their own.
proof fn lemma_names_4(i: int)
    requires
        32 <= i <= 38,
    ensures
        is_word(KEYS@[i].2@),
        rank(KEYS@[i].2@) == i,
{
    if i == 32 {
        reveal_strlit("meas_rate_ms");
        assert(KEYS@[32].2@ == "meas_rate_ms"@);
        assert(is_word("meas_rate_ms"@));
    } else if i == 33 {
        reveal_strlit("dynamic_model");
        assert(KEYS@[33].2@ == "dynamic_model"@);
        assert(is_word("dynamic_model"@));
    } else if i == 34 {
        reveal_strlit("ble_off_s");
        assert(KEYS@[34].2@ == "ble_off_s"@);
        assert(is_word("ble_off_s"@));
    } else if i == 35 {
        reveal_strlit("adv_window_s");
        assert(KEYS@[35].2@ == "adv_window_s"@);
        assert(is_word("adv_window_s"@));
    } else if i == 36 {
        reveal_strlit("ble_on_s");
        assert(KEYS@[36].2@ == "ble_on_s"@);
        assert(is_word("ble_on_s"@));
    } else if i == 37 {
        reveal_strlit("sleep_interval_s");
        assert(KEYS@[37].2@ == "sleep_interval_s"@);
        assert(is_word("sleep_interval_s"@));
    } else if i == 38 {
        reveal_strlit("idle_timeout_s");
        assert(KEYS@[38].2@ == "idle_timeout_s"@);
        assert(is_word("idle_timeout_s"@));
    }
}

/// A row's name is a word, and no other row's.
proof fn lemma_names(i: int)
    requires
        0 <= i < 39,
    ensures
        is_word(KEYS@[i].2@),
        rank(KEYS@[i].2@) == i,
{
    if i <= 7 {
        lemma_names_0(i);
    } else if i <= 15 {
        lemma_names_1(i);
    } else if i <= 23 {
        lemma_names_2(i);
    } else if i <= 31 {
        lemma_names_3(i);
    } else if i <= 38 {
        lemma_names_4(i);
    }
}

/// No name is longer than 17 characters.
pub proof fn lemma_name_short(i: int)
    requires
        0 <= i < 39,
    ensures
        KEYS@[i].2@.len() <= 17,
{
    lemma_names(i);
}

/// No alias is a name of the table, and each stands for one.
proof fn lemma_aliases()
    ensures
        rank("beacon_interval_s"@) == 39,
        rank("beacon_fields"@) == 39,
        rank("dyn_model"@) == 39,
        "beacon_interval_s"@.len() == 17,
        "beacon_fields"@.len() == 13,
        "dyn_model"@.len() == 9,
        "interval_s"@ == KEYS@[21].2@,
        "fields"@ == KEYS@[23].2@,
        "dynamic_model"@ == KEYS@[33].2@,
{
    reveal_strlit("beacon_interval_s");
    reveal_strlit("beacon_fields");
    reveal_strlit("dyn_model");
}

/// Keys are unique: a name, or an alias of it, finds the one row that is
/// called that.
pub proof fn law_a_name_finds_its_row(i: int, j: int)
    requires
        0 <= i < 39,
        0 <= j < 39,
    ensures
        row_named(KEYS@[i].2@) == Some(i),
        is_word(KEYS@[i].2@),
        KEYS@[i].2@ == KEYS@[j].2@ ==> i == j,
        row_named("beacon_interval_s"@) == row_named("interval_s"@),
        row_named("beacon_fields"@) == row_named("fields"@),
        row_named("dyn_model"@) == row_named("dynamic_model"@),
{
    lemma_names(i);
    lemma_names(j);
    lemma_aliases();
    let name = KEYS@[i].2@;
    assert(canonical(name) == name);
    lemma_row_from(name, 0);
    assert(KEYS@[i].2@ == name);
    let k = row_from(name, 0)->0;
    lemma_names(k);
    lemma_names(21);
    lemma_names(23);
    lemma_names(33);
}

// -- What the table says ---------------------------------------------------------

/// The keys of the radio, the sentry and the network: what each sets, where it
/// stands, what it is called and whether the reference file comments it out.
pub proof fn law_the_keys_of_the_radio_and_the_network()
    ensures
        KEYS@[0].0 is FrequencyHz && KEYS@[0].1@ == "radio"@ && KEYS@[0].2@ == "frequency_hz"@ && !KEYS@[0].3,
        KEYS@[1].0 is HopChannels && KEYS@[1].1@ == "radio"@ && KEYS@[1].2@ == "hop_channels"@ && !KEYS@[1].3,
        KEYS@[2].0 is HopStepKhz && KEYS@[2].1@ == "radio"@ && KEYS@[2].2@ == "hop_step_khz"@ && !KEYS@[2].3,
        KEYS@[3].0 is HopDwellMs && KEYS@[3].1@ == "radio"@ && KEYS@[3].2@ == "hop_dwell_ms"@ && !KEYS@[3].3,
        KEYS@[4].0 is SpreadingFactor && KEYS@[4].1@ == "radio"@ && KEYS@[4].2@ == "spreading_factor"@ && !KEYS@[4].3,
        KEYS@[5].0 is BandwidthKhz && KEYS@[5].1@ == "radio"@ && KEYS@[5].2@ == "bandwidth_khz"@ && !KEYS@[5].3,
        KEYS@[6].0 is CodingRate && KEYS@[6].1@ == "radio"@ && KEYS@[6].2@ == "coding_rate"@ && !KEYS@[6].3,
        KEYS@[7].0 is PowerDbm && KEYS@[7].1@ == "radio"@ && KEYS@[7].2@ == "power_dbm"@ && !KEYS@[7].3,
        KEYS@[8].0 is RxBoost && KEYS@[8].1@ == "radio"@ && KEYS@[8].2@ == "rx_boost"@ && !KEYS@[8].3,
        KEYS@[9].0 is DcdcEnabled && KEYS@[9].1@ == "radio"@ && KEYS@[9].2@ == "dcdc_enabled"@ && KEYS@[9].3,
        KEYS@[10].0 is Dio2RfSwitch && KEYS@[10].1@ == "radio"@ && KEYS@[10].2@ == "dio2_rf_switch"@ && KEYS@[10].3,
        KEYS@[11].0 is TcxoVolts && KEYS@[11].1@ == "radio"@ && KEYS@[11].2@ == "tcxo_volts"@ && KEYS@[11].3,
        KEYS@[12].0 is TcxoStartupMs && KEYS@[12].1@ == "radio"@ && KEYS@[12].2@ == "tcxo_startup_ms"@ && KEYS@[12].3,
        KEYS@[13].0 is WakeEnabled && KEYS@[13].1@ == "wake"@ && KEYS@[13].2@ == "wake_enabled"@ && !KEYS@[13].3,
        KEYS@[14].0 is WakeRxMs && KEYS@[14].1@ == "wake"@ && KEYS@[14].2@ == "wake_rx_ms"@ && !KEYS@[14].3,
        KEYS@[15].0 is WakeSleepMs && KEYS@[15].1@ == "wake"@ && KEYS@[15].2@ == "wake_sleep_ms"@ && !KEYS@[15].3,
        KEYS@[16].0 is WakeFrequencyHz && KEYS@[16].1@ == "wake"@ && KEYS@[16].2@ == "wake_frequency_hz"@ && !KEYS@[16].3,
        KEYS@[17].0 is Address && KEYS@[17].1@ == "network"@ && KEYS@[17].2@ == "address"@ && !KEYS@[17].3,
        KEYS@[18].0 is Role && KEYS@[18].1@ == "network"@ && KEYS@[18].2@ == "role"@ && !KEYS@[18].3,
        KEYS@[19].0 is MaxHops && KEYS@[19].1@ == "network"@ && KEYS@[19].2@ == "max_hops"@ && !KEYS@[19].3,
        KEYS@[20].0 is DedupTtlS && KEYS@[20].1@ == "network"@ && KEYS@[20].2@ == "dedup_ttl_s"@ && !KEYS@[20].3,
{
}

/// The keys of the beacon, the console, the receiver and the duty cycle.
pub proof fn law_the_keys_of_the_receiver_and_the_duty_cycle()
    ensures
        KEYS@[21].0 is IntervalS && KEYS@[21].1@ == "beacon"@ && KEYS@[21].2@ == "interval_s"@ && !KEYS@[21].3,
        KEYS@[22].0 is PingIntervalS && KEYS@[22].1@ == "beacon"@ && KEYS@[22].2@ == "ping_interval_s"@ && !KEYS@[22].3,
        KEYS@[23].0 is Fields && KEYS@[23].1@ == "beacon"@ && KEYS@[23].2@ == "fields"@ && !KEYS@[23].3,
        KEYS@[24].0 is Verbose && KEYS@[24].1@ == "debug"@ && KEYS@[24].2@ == "verbose"@ && !KEYS@[24].3,
        KEYS@[25].0 is GpsEnabled && KEYS@[25].1@ == "gps"@ && KEYS@[25].2@ == "gps_enabled"@ && !KEYS@[25].3,
        KEYS@[26].0 is GlonassEnabled && KEYS@[26].1@ == "gps"@ && KEYS@[26].2@ == "glonass_enabled"@ && !KEYS@[26].3,
        KEYS@[27].0 is GalileoEnabled && KEYS@[27].1@ == "gps"@ && KEYS@[27].2@ == "galileo_enabled"@ && !KEYS@[27].3,
        KEYS@[28].0 is BeidouEnabled && KEYS@[28].1@ == "gps"@ && KEYS@[28].2@ == "beidou_enabled"@ && !KEYS@[28].3,
        KEYS@[29].0 is QzssEnabled && KEYS@[29].1@ == "gps"@ && KEYS@[29].2@ == "qzss_enabled"@ && !KEYS@[29].3,
        KEYS@[30].0 is SbasEnabled && KEYS@[30].1@ == "gps"@ && KEYS@[30].2@ == "sbas_enabled"@ && !KEYS@[30].3,
        KEYS@[31].0 is PowerMode && KEYS@[31].1@ == "gps"@ && KEYS@[31].2@ == "power_mode"@ && !KEYS@[31].3,
        KEYS@[32].0 is MeasRateMs && KEYS@[32].1@ == "gps"@ && KEYS@[32].2@ == "meas_rate_ms"@ && !KEYS@[32].3,
        KEYS@[33].0 is DynamicModel && KEYS@[33].1@ == "gps"@ && KEYS@[33].2@ == "dynamic_model"@ && !KEYS@[33].3,
        KEYS@[34].0 is BleOffS && KEYS@[34].1@ == "power"@ && KEYS@[34].2@ == "ble_off_s"@ && KEYS@[34].3,
        KEYS@[35].0 is AdvWindowS && KEYS@[35].1@ == "power"@ && KEYS@[35].2@ == "adv_window_s"@ && KEYS@[35].3,
        KEYS@[36].0 is BleOnS && KEYS@[36].1@ == "power"@ && KEYS@[36].2@ == "ble_on_s"@ && KEYS@[36].3,
        KEYS@[37].0 is SleepIntervalS && KEYS@[37].1@ == "power"@ && KEYS@[37].2@ == "sleep_interval_s"@ && KEYS@[37].3,
        KEYS@[38].0 is IdleTimeoutS && KEYS@[38].1@ == "power"@ && KEYS@[38].2@ == "idle_timeout_s"@ && KEYS@[38].3,
{
}

/// A key of the duty cycle is called what its knob is called, and sets it.
pub proof fn law_a_duty_key_is_its_knob(i: int)
    requires
        0 <= i < 39,
    ensures
        KEYS@[i].0.duty() matches Some(k) ==> KEYS@[i].2@ == k.row().name@ && KEYS@[i].1@ == "power"@,
        KEYS@[i].0.duty() is Some <==> i >= 34,
        Setting::BleOffS.duty() == Some(Knob::BleOff) && Setting::AdvWindowS.duty() == Some(Knob::AdvWindow)
            && Setting::BleOnS.duty() == Some(Knob::BleOn) && Setting::SleepIntervalS.duty() == Some(Knob::SleepInterval)
            && Setting::IdleTimeoutS.duty() == Some(Knob::IdleTimeout),
{
    law_the_keys_of_the_receiver_and_the_duty_cycle();
    law_the_keys_of_the_radio_and_the_network();
}

/// The numbers each key takes.
pub proof fn law_the_numbers_a_key_takes(n: i64)
    ensures
        fits(Setting::FrequencyHz.takes(), Value::Int(n)) <==> 150_000_000 <= n <= 960_000_000,
        fits(Setting::HopChannels.takes(), Value::Int(n)) <==> 0 <= n <= 255,
        fits(Setting::HopStepKhz.takes(), Value::Int(n)) <==> 25 <= n <= 5000,
        fits(Setting::HopDwellMs.takes(), Value::Int(n)) <==> 100 <= n <= 10_000,
        fits(Setting::SpreadingFactor.takes(), Value::Int(n)) <==> 5 <= n <= 12,
        fits(Setting::CodingRate.takes(), Value::Int(n)) <==> 5 <= n <= 8,
        fits(Setting::PowerDbm.takes(), Value::Int(n)) <==> -9 <= n <= 22,
        fits(Setting::TcxoStartupMs.takes(), Value::Int(n)) <==> 1 <= n <= 1000,
        fits(Setting::WakeRxMs.takes(), Value::Int(n)) <==> 50 <= n <= 5000,
        fits(Setting::WakeSleepMs.takes(), Value::Int(n)) <==> 200 <= n <= 30_000,
        fits(Setting::WakeFrequencyHz.takes(), Value::Int(n)) <==> 0 <= n <= 960_000_000,
        fits(Setting::Address.takes(), Value::Int(n)) <==> 1 <= n <= 255,
        fits(Setting::MaxHops.takes(), Value::Int(n)) <==> 0 <= n <= 8,
        fits(Setting::DedupTtlS.takes(), Value::Int(n)) <==> 1 <= n <= 3600,
        fits(Setting::IntervalS.takes(), Value::Int(n)) <==> 0 <= n <= 3600,
        fits(Setting::PingIntervalS.takes(), Value::Int(n)) <==> 0 <= n <= 3600,
        fits(Setting::MeasRateMs.takes(), Value::Int(n)) <==> 25 <= n <= 10_000,
        fits(Setting::BleOffS.takes(), Value::Int(n)) <==> n == 0 || 5 <= n <= 300,
        fits(Setting::AdvWindowS.takes(), Value::Int(n)) <==> n == 0 || 1 <= n <= 60,
        fits(Setting::BleOnS.takes(), Value::Int(n)) <==> n == 0 || 1 <= n <= 60,
        fits(Setting::SleepIntervalS.takes(), Value::Int(n)) <==> n == 0 || 5 <= n <= 300,
        fits(Setting::IdleTimeoutS.takes(), Value::Int(n)) <==> n == 0 || 10 <= n <= 3600,
        fits(Setting::BandwidthKhz.takes(), Value::Int(n)) <==> n == 62 || n == 125 || n == 250 || n == 500,
{
    reveal(Setting::takes);
    let list = BANDWIDTHS@;
    assert(list[0] == 62 && list[1] == 125 && list[2] == 250 && list[3] == 500);
}

/// The keys that take a flag take either, and nothing else.
pub proof fn law_the_flags_a_key_takes(b: bool, n: i64)
    ensures
        fits(Setting::RxBoost.takes(), Value::Bool(b)) && !fits(Setting::RxBoost.takes(), Value::Int(n)),
        fits(Setting::DcdcEnabled.takes(), Value::Bool(b)) && !fits(Setting::DcdcEnabled.takes(), Value::Int(n)),
        fits(Setting::Dio2RfSwitch.takes(), Value::Bool(b)) && !fits(Setting::Dio2RfSwitch.takes(), Value::Int(n)),
        fits(Setting::WakeEnabled.takes(), Value::Bool(b)) && !fits(Setting::WakeEnabled.takes(), Value::Int(n)),
        fits(Setting::Verbose.takes(), Value::Bool(b)) && !fits(Setting::Verbose.takes(), Value::Int(n)),
        fits(Setting::GpsEnabled.takes(), Value::Bool(b)) && !fits(Setting::GpsEnabled.takes(), Value::Int(n)),
        fits(Setting::GlonassEnabled.takes(), Value::Bool(b)) && !fits(Setting::GlonassEnabled.takes(), Value::Int(n)),
        fits(Setting::GalileoEnabled.takes(), Value::Bool(b)) && !fits(Setting::GalileoEnabled.takes(), Value::Int(n)),
        fits(Setting::BeidouEnabled.takes(), Value::Bool(b)) && !fits(Setting::BeidouEnabled.takes(), Value::Int(n)),
        fits(Setting::QzssEnabled.takes(), Value::Bool(b)) && !fits(Setting::QzssEnabled.takes(), Value::Int(n)),
        fits(Setting::SbasEnabled.takes(), Value::Bool(b)) && !fits(Setting::SbasEnabled.takes(), Value::Int(n)),
{
    reveal(Setting::takes);
}

/// The words each key takes are the words of what it sets, and a list of
/// fields holds the position.
pub proof fn law_the_words_a_key_takes(i: usize, mask: u8)
    ensures
        fits(Setting::Role.takes(), Value::Choice(i)) <==> i < 4,
        fits(Setting::TcxoVolts.takes(), Value::Choice(i)) <==> i < 8,
        fits(Setting::PowerMode.takes(), Value::Choice(i)) <==> i < 3,
        fits(Setting::DynamicModel.takes(), Value::Choice(i)) <==> i < 8,
        Setting::Role.takes() == Kind::Choice(&ROLE_NAMES) && Setting::TcxoVolts.takes() == Kind::Choice(&TCXO_NAMES)
            && Setting::PowerMode.takes() == Kind::Choice(&POWER_MODE_NAMES) && Setting::DynamicModel.takes()
            == Kind::Choice(&DYN_MODEL_NAMES),
        fits(Setting::Fields.takes(), Value::Fields(mask)) <==> mask < 0x80 && mask % 4 == 3,
{
    reveal(Setting::takes);
    reveal(lora::selects);
}

/// What a config holds for each key.
pub proof fn law_what_a_config_holds(c: RadioConfig)
    ensures
        Setting::FrequencyHz.held(c) == Value::Int(c.frequency_hz as i64),
        Setting::HopChannels.held(c) == Value::Int(c.hop_channels as i64),
        Setting::HopStepKhz.held(c) == Value::Int(c.hop_step_khz as i64),
        Setting::HopDwellMs.held(c) == Value::Int(c.hop_dwell_ms as i64),
        Setting::SpreadingFactor.held(c) == Value::Int(c.spreading_factor as i64),
        Setting::BandwidthKhz.held(c) == Value::Int(c.bandwidth_khz as i64),
        Setting::CodingRate.held(c) == Value::Int(c.coding_rate as i64),
        Setting::PowerDbm.held(c) == Value::Int(c.power_dbm as i64),
        Setting::TcxoStartupMs.held(c) == Value::Int(c.tcxo_startup_ms as i64),
        Setting::WakeRxMs.held(c) == Value::Int(c.wake_rx_ms as i64),
        Setting::WakeSleepMs.held(c) == Value::Int(c.wake_sleep_ms as i64),
        Setting::WakeFrequencyHz.held(c) == Value::Int(c.wake_frequency_hz as i64),
        Setting::Address.held(c) == Value::Int(c.address as i64),
        Setting::MaxHops.held(c) == Value::Int(c.max_hops as i64),
        Setting::DedupTtlS.held(c) == Value::Int(c.dedup_ttl_s as i64),
        Setting::IntervalS.held(c) == Value::Int(c.beacon_interval_s as i64),
        Setting::PingIntervalS.held(c) == Value::Int(c.ping_interval_s as i64),
        Setting::MeasRateMs.held(c) == Value::Int(c.gps.meas_rate_ms as i64),
        Setting::RxBoost.held(c) == Value::Bool(c.rx_boost),
        Setting::DcdcEnabled.held(c) == Value::Bool(c.dcdc_enabled),
        Setting::Dio2RfSwitch.held(c) == Value::Bool(c.dio2_rf_switch),
        Setting::WakeEnabled.held(c) == Value::Bool(c.wake_enabled),
        Setting::Verbose.held(c) == Value::Bool(c.verbose),
        Setting::GpsEnabled.held(c) == Value::Bool(c.gps.gps_enabled),
        Setting::GlonassEnabled.held(c) == Value::Bool(c.gps.glonass_enabled),
        Setting::GalileoEnabled.held(c) == Value::Bool(c.gps.galileo_enabled),
        Setting::BeidouEnabled.held(c) == Value::Bool(c.gps.beidou_enabled),
        Setting::QzssEnabled.held(c) == Value::Bool(c.gps.qzss_enabled),
        Setting::SbasEnabled.held(c) == Value::Bool(c.gps.sbas_enabled),
        Setting::Fields.held(c) == Value::Fields(c.beacon_fields),
        Setting::Role.held(c) matches Value::Choice(i) && ROLES@[i as int] == c.role,
        Setting::TcxoVolts.held(c) matches Value::Choice(i) && TCXO@[i as int] == c.tcxo_volts,
        Setting::PowerMode.held(c) matches Value::Choice(i) && POWER_MODES@[i as int] == c.gps.power_mode,
        Setting::DynamicModel.held(c) matches Value::Choice(i) && DYN_MODELS@[i as int] == c.gps.dyn_model,
{
    reveal(Setting::held_radio);
    reveal(Setting::held_network);
    reveal(Setting::held_gps);
}

/// The spellings that stand for another: the three aliases, and no other word.
pub proof fn law_what_an_alias_stands_for(name: Seq<char>)
    ensures
        canonical("beacon_interval_s"@) == "interval_s"@,
        canonical("beacon_fields"@) == "fields"@,
        canonical("dyn_model"@) == "dynamic_model"@,
        canonical(name) != name ==> name == "beacon_interval_s"@ || name == "beacon_fields"@ || name == "dyn_model"@,
{
    reveal_strlit("beacon_interval_s");
    reveal_strlit("beacon_fields");
    reveal_strlit("dyn_model");
    assert("beacon_interval_s"@.len() == 17 && "beacon_fields"@.len() == 13 && "dyn_model"@.len() == 9);
}

/// What is written of a text: everything but its white space.
pub open spec fn inked(s: Seq<char>) -> Seq<char>
    decreases s.len(),
{
    if s.len() == 0 {
        s
    } else if chars::is_space(s[0]) {
        inked(s.skip(1))
    } else {
        seq![s[0]] + inked(s.skip(1))
    }
}

proof fn lemma_inked_join(a: Seq<char>, b: Seq<char>)
    ensures
        inked(a + b) == inked(a) + inked(b),
    decreases a.len(),
{
    if a.len() == 0 {
        assert(a + b =~= b);
        assert(inked(a) + inked(b) =~= inked(b));
    } else {
        lemma_inked_join(a.skip(1), b);
        assert((a + b).skip(1) =~= a.skip(1) + b);
        assert((a + b)[0] == a[0]);
        if !chars::is_space(a[0]) {
            assert(seq![a[0]] + (inked(a.skip(1)) + inked(b)) =~= seq![a[0]] + inked(a.skip(1)) + inked(b));
        }
    }
}

proof fn lemma_inked_trimmed(s: Seq<char>)
    ensures
        inked(chars::trim_front(s)) == inked(s),
    decreases s.len(),
{
    if s.len() > 0 && chars::is_space(s[0]) {
        lemma_inked_trimmed(s.skip(1));
    }
}

/// Wrapping moves the white space of a text and nothing else: behind a prefix
/// that is blank, what is written is what was written, in order.
pub proof fn law_wrapping_keeps_the_words(prefix: Seq<char>, text: Seq<char>, width: int, col: int)
    requires
        0 <= col,
        inked(prefix).len() == 0,
    ensures
        inked(wrapped(prefix, text, width, col)) == inked(text),
    decreases text.len(),
{
    let t = chars::trim_front(text);
    let n = word_len(t);
    lemma_trim_front(text);
    lemma_word_len(t);
    lemma_inked_trimmed(text);
    reveal_strlit("\n");
    reveal_strlit(" ");
    let none = Seq::<char>::empty();
    assert(inked(none) =~= none);
    assert(inked("\n"@) =~= none) by {
        assert("\n"@[0] == '\n');
        assert("\n"@.skip(1) =~= none);
        assert(inked("\n"@) == inked("\n"@.skip(1)));
    }
    assert(inked(" "@) =~= none) by {
        assert(" "@[0] == ' ');
        assert(" "@.skip(1) =~= none);
        assert(inked(" "@) == inked(" "@.skip(1)));
    }
    assert(inked(prefix) =~= none);
    if t.len() > 0 {
        let word = t.take(n);
        assert(word + t.skip(n) =~= t);
        lemma_inked_join(word, t.skip(n));
        if col == 0 || col + 1 + n > width {
            let rest = wrapped(prefix, t.skip(n), width, prefix.len() + n);
            law_wrapping_keeps_the_words(prefix, t.skip(n), width, prefix.len() + n);
            lemma_inked_join("\n"@, prefix);
            lemma_inked_join("\n"@ + prefix, word);
            lemma_inked_join("\n"@ + prefix + word, rest);
            lemma_inked_join(prefix, word);
            lemma_inked_join(prefix + word, rest);
            assert(none + inked(word) =~= inked(word));
            assert(none + none =~= none);
        } else {
            let rest = wrapped(prefix, t.skip(n), width, col + 1 + n);
            law_wrapping_keeps_the_words(prefix, t.skip(n), width, col + 1 + n);
            lemma_inked_join(" "@, word);
            lemma_inked_join(" "@ + word, rest);
            assert(none + inked(word) =~= inked(word));
        }
    }
}

/// The sections of the reference file, in order.
pub proof fn law_the_sections_of_the_reference_file()
    ensures
        SECTIONS@[0].0@ == "radio"@ && SECTIONS@[0].1@ == "Radio"@,
        SECTIONS@[1].0@ == "network"@ && SECTIONS@[1].1@ == "Network"@,
        SECTIONS@[2].0@ == "beacon"@ && SECTIONS@[2].1@ == "Beacon"@,
        SECTIONS@[3].0@ == "wake"@ && SECTIONS@[3].1@ == "Wake on LoRa"@,
        SECTIONS@[4].0@ == "debug"@ && SECTIONS@[4].1@ == "Debug"@,
        SECTIONS@[5].0@ == "gps"@ && SECTIONS@[5].1@ == "GPS"@,
        SECTIONS@[6].0@ == "power"@ && SECTIONS@[6].1@ == "Power"@,
{
}

/// The line above a section is a comment that names it, filled with dashes to
/// the wrap.
pub proof fn law_a_section_rule_fills_the_line(title: Seq<char>, i: int)
    ensures
        ({
            let line = ruled(title);
            &&& line.len() == (if title.len() <= 70 {
                77
            } else {
                title.len() + 7
            })
            &&& line.take(5) == "# -- "@
            &&& line.subrange(5, 5 + title.len() as int) == title
            &&& line[5 + title.len() as int] == ' '
            &&& 6 + title.len() <= i < line.len() - 1 ==> line[i] == '-'
            &&& line.last() == '\n'
        }),
{
    reveal_strlit("# -- ");
    reveal_strlit(" ");
    reveal_strlit("\n");
    let line = ruled(title);
    assert(line.take(5) =~= "# -- "@);
    assert(line.subrange(5, 5 + title.len() as int) =~= title);
}

/// A key of the reference file is a blank line, its doc, and the line that sets
/// it - commented out where the table says so.
pub proof fn law_a_key_is_written_under_its_doc(k: Key, c: RadioConfig)
    ensures
        ({
            let set = k.name@ + " = "@ + shown(k.kind, k.setting.held(c)) + "\n"@;
            let doc = wrapped("# "@, k.doc@, 76, 0);
            &&& k.commented ==> key_text(k, c) == "\n"@ + doc + "# "@ + set
            &&& !k.commented ==> key_text(k, c) == "\n"@ + doc + set
        }),
{
    let set = k.name@ + " = "@ + shown(k.kind, k.setting.held(c)) + "\n"@;
    let doc = wrapped("# "@, k.doc@, 76, 0);
    if k.commented {
        assert(key_text(k, c) =~= "\n"@ + doc + "# "@ + set);
    } else {
        assert(key_text(k, c) =~= "\n"@ + doc + set);
    }
}

/// The two words of older files are no keys of the table.
pub proof fn law_the_retired_words_are_no_keys()
    ensures
        row_named("lifetime"@) is None,
        row_named("sd_enabled"@) is None,
{
    reveal_strlit("lifetime");
    reveal_strlit("sd_enabled");
    reveal_strlit("beacon_interval_s");
    reveal_strlit("beacon_fields");
    reveal_strlit("dyn_model");
    let a = "lifetime"@;
    let b = "sd_enabled"@;
    assert(a.len() == 8 && a[1] == 'i' && a[6] == 'm');
    assert(b.len() == 10 && b[1] == 'd' && b[8] == 'e');
    assert("beacon_interval_s"@.len() == 17 && "beacon_fields"@.len() == 13 && "dyn_model"@.len() == 9);
    lemma_row_from(a, 0);
    lemma_row_from(b, 0);
    if let Some(i) = row_from(a, 0) {
        lemma_names(i);
        assert(rank(a) == 39);
    }
    if let Some(i) = row_from(b, 0) {
        lemma_names(i);
        assert(rank(b) == 39);
    }
}

} // verus!
