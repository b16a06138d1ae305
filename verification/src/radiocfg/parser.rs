//! Reading the config file.
//!
//! A line at a time, from the defaults, so a partial file is fine. What a
//! value may be is the key table's business ([`keys`]); this is the syntax
//! around it, the settings each key moves, and the two rules that span keys.

use vstd::prelude::*;
use vstd::arithmetic::div_mod::*;
use vstd::utf8::*;
use crate::chars;
use crate::chars::{chars_of, find, parse_i64, parse_u64, same, trim, unquote};
use crate::hop::Plan;
use crate::lora;
use crate::lora::selected;
use crate::radiocfg::{GpsConfig, PowerConfig, RadioConfig, MAX_HOPS_LIMIT, RF_MAX_HZ, RF_MIN_HZ};
use crate::radiocfg;
use crate::radiocfg::keys;
use crate::radiocfg::keys::{find_row, Kind, Part, Setting, Value, KEYS};
use crate::session::Knob;
use crate::text::utf8;

verus! {

/// Config parse/validation errors. The u32 is the offending line number
/// (1-based) where one applies.
#[derive(Clone, Copy, Debug, PartialEq, Eq, Hash, Structural)]
pub enum ConfigError {
    /// Line is not `key = value`, a comment, a blank or a `[section]`.
    Syntax(u32),
    /// Value does not parse as the expected type.
    BadValue(u32),
    /// A recognized key holds an out-of-range value.
    OutOfRange(u32),
    /// The file is not valid UTF-8.
    Utf8,
}

// -- Values --------------------------------------------------------------------

/// The first of `words`, from the `from`-th on, that is spelled `v`.
pub open spec fn which(words: Seq<&'static str>, v: Seq<char>, from: int) -> Option<int>
    decreases words.len() - from,
{
    if from >= words.len() {
        None
    } else if words[from]@ == v {
        Some(from)
    } else {
        which(words, v, from + 1)
    }
}

/// The weight of the position field a name stands for.
pub open spec fn field_named(name: Seq<char>) -> Option<u8> {
    if name == "lat"@ || name == "latitude"@ {
        Some(lora::FIELD_LAT)
    } else if name == "lon"@ || name == "longitude"@ {
        Some(lora::FIELD_LON)
    } else if name == "alt"@ || name == "altitude"@ {
        Some(lora::FIELD_ALT)
    } else if name == "speed"@ {
        Some(lora::FIELD_SPEED)
    } else if name == "course"@ {
        Some(lora::FIELD_COURSE)
    } else if name == "sats"@ {
        Some(lora::FIELD_SATS)
    } else if name == "time"@ {
        Some(lora::FIELD_TIME)
    } else {
        None
    }
}

/// `mask` with the fields of a comma-separated list selected, `None` where
/// one of them is no field.
pub open spec fn fields_in(mask: u8, list: Seq<char>) -> Option<u8>
    decreases list.len(),
    via fields_in_shrinks
{
    let n = chars::position(list, ',');
    match field_named(chars::trimmed(list.take(n))) {
        None => None,
        Some(bit) => if n >= list.len() {
            Some(lora::selecting(mask, bit))
        } else {
            fields_in(lora::selecting(mask, bit), list.skip(n + 1))
        },
    }
}

#[via_fn]
proof fn fields_in_shrinks(mask: u8, list: Seq<char>) {
    chars::lemma_position(list, ',');
}

/// What `value` is to a key that takes `kind`.
pub open spec fn value_read(kind: Kind, value: Seq<char>, line: u32) -> Result<Value, ConfigError> {
    match kind {
        Kind::Bool => if value == "true"@ {
            Ok(Value::Bool(true))
        } else if value == "false"@ {
            Ok(Value::Bool(false))
        } else {
            Err(ConfigError::BadValue(line))
        },
        Kind::Choice(words) => match which(words@, chars::unquoted(value), 0) {
            Some(i) => Ok(Value::Choice(i as usize)),
            None => Err(ConfigError::BadValue(line)),
        },
        // Position is the whole point of the broadcast, and a receiver has
        // nothing to plot without it.
        Kind::Fields => match fields_in(0, chars::unquoted(value)) {
            Some(mask) => if lora::selects(mask, lora::FIELD_LAT) && lora::selects(mask, lora::FIELD_LON) {
                Ok(Value::Fields(mask))
            } else {
                Err(ConfigError::OutOfRange(line))
            },
            None => Err(ConfigError::BadValue(line)),
        },
        _ => match chars::signed(value) {
            Some(n) => if keys::fits(kind, Value::Int(n)) {
                Ok(Value::Int(n))
            } else {
                Err(ConfigError::OutOfRange(line))
            },
            None => Err(ConfigError::BadValue(line)),
        },
    }
}

/// Which of `words` is spelled `v`.
fn choose_word(words: &[&'static str], v: &[char]) -> (r: Option<usize>)
    ensures
        r matches Some(i) ==> i < words@.len() && which(words@, v@, 0) == Some(i as int),
        r is None ==> which(words@, v@, 0) is None,
{
    let mut i: usize = 0;
    while i < words.len()
        invariant
            i <= words@.len(),
            which(words@, v@, 0) == which(words@, v@, i as int),
        decreases words@.len() - i,
    {
        if same(v, words[i]) {
            return Some(i);
        }
        i += 1;
    }
    None
}

/// The weight of the position field `name` stands for.
fn parse_field(name: &[char]) -> (r: Option<u8>)
    ensures
        r == field_named(name@),
{
    if same(name, "lat") || same(name, "latitude") {
        Some(lora::FIELD_LAT)
    } else if same(name, "lon") || same(name, "longitude") {
        Some(lora::FIELD_LON)
    } else if same(name, "alt") || same(name, "altitude") {
        Some(lora::FIELD_ALT)
    } else if same(name, "speed") {
        Some(lora::FIELD_SPEED)
    } else if same(name, "course") {
        Some(lora::FIELD_COURSE)
    } else if same(name, "sats") {
        Some(lora::FIELD_SATS)
    } else if same(name, "time") {
        Some(lora::FIELD_TIME)
    } else {
        None
    }
}

/// Selecting one of the seven fields keeps a mask inside seven bits, selects
/// that field and leaves the others.
proof fn lemma_selecting(mask: u8, name: Seq<char>)
    requires
        mask < 0x80,
        field_named(name) is Some,
    ensures
        field_named(name)->0 > 0,
        !lora::selects(mask, field_named(name)->0) ==> mask + field_named(name)->0 < 0x80,
        lora::selecting(mask, field_named(name)->0) < 0x80,
{
    reveal(lora::selects);
    let m = mask as int;
    assert(m / 1 % 2 != 1 ==> m + 1 < 0x80);
    assert(m / 2 % 2 != 1 ==> m + 2 < 0x80);
    assert(m / 4 % 2 != 1 ==> m + 4 < 0x80);
    assert(m / 8 % 2 != 1 ==> m + 8 < 0x80);
    assert(m / 16 % 2 != 1 ==> m + 16 < 0x80);
    assert(m / 32 % 2 != 1 ==> m + 32 < 0x80);
    assert(m / 64 % 2 != 1 ==> m + 64 < 0x80);
}

/// The mask a comma-separated list of field names selects.
fn parse_fields(value: &[char]) -> (r: Option<u8>)
    ensures
        r == fields_in(0, chars::unquoted(value@)),
        r matches Some(m) ==> m < 0x80,
{
    let list: &[char] = unquote(value);
    let n: usize = list.len();
    let mut mask: u8 = 0;
    let mut at: usize = 0;
    assert(list@.skip(0) =~= list@);
    loop
        invariant
            at <= n,
            n == list@.len(),
            mask < 0x80,
            fields_in(mask, list@.skip(at as int)) == fields_in(0, chars::unquoted(value@)),
        decreases n - at,
    {
        let rest: &[char] = &list[at..n];
        assert(rest@ =~= list@.skip(at as int));
        let k: usize = find(rest, ',');
        let name: &[char] = trim(&rest[0..k]);
        assert(rest@.subrange(0, k as int) =~= rest@.take(k as int));
        match parse_field(name) {
            None => {
                return None;
            },
            Some(bit) => {
                proof {
                    lemma_selecting(mask, name@);
                }
                if !selected(mask, bit) {
                    mask = mask + bit;
                }
            },
        }
        if k >= rest.len() {
            return Some(mask);
        }
        assert(rest@.skip(k + 1) =~= list@.skip(at + k + 1));
        at = at + k + 1;
    }
}

/// What `value` is to a key that takes `kind`.
fn read_value(kind: Kind, value: &[char], line: u32) -> (r: Result<Value, ConfigError>)
    ensures
        r == value_read(kind, value@, line),
        r matches Ok(v) ==> keys::fits(kind, v),
{
    match kind {
        Kind::Bool => {
            if same(value, "true") {
                Ok(Value::Bool(true))
            } else if same(value, "false") {
                Ok(Value::Bool(false))
            } else {
                Err(ConfigError::BadValue(line))
            }
        },
        Kind::Choice(words) => match choose_word(words, unquote(value)) {
            Some(i) => Ok(Value::Choice(i)),
            None => Err(ConfigError::BadValue(line)),
        },
        Kind::Fields => match parse_fields(value) {
            Some(mask) => {
                if selected(mask, lora::FIELD_LAT) && selected(mask, lora::FIELD_LON) {
                    Ok(Value::Fields(mask))
                } else {
                    Err(ConfigError::OutOfRange(line))
                }
            },
            None => Err(ConfigError::BadValue(line)),
        },
        _ => {
            let n: i64 = match parse_i64(value) {
                Some(n) => n,
                None => {
                    return Err(ConfigError::BadValue(line));
                },
            };
            let ok: bool = match kind {
                Kind::Int { min, max } => min <= n && n <= max,
                Kind::IntOrZero { min, max } => n == 0 || (min <= n && n <= max),
                Kind::IntChoice(list) => listed(list, n),
                _ => false,
            };
            if ok {
                Ok(Value::Int(n))
            } else {
                Err(ConfigError::OutOfRange(line))
            }
        },
    }
}

/// Whether `n` is one of `list`.
fn listed(list: &[i64], n: i64) -> (r: bool)
    ensures
        r == list@.contains(n),
{
    let mut i: usize = 0;
    while i < list.len()
        invariant
            i <= list@.len(),
            forall|j: int| 0 <= j < i ==> list@[j] != n,
        decreases list@.len() - i,
    {
        if list[i] == n {
            assert(list@[i as int] == n);
            return true;
        }
        i += 1;
    }
    false
}

// -- Settings ------------------------------------------------------------------

/// A config as far as it has been read, and the lines to blame for the rules
/// that span keys: the last that shaped the hop plan, and the ones that set
/// the dedup window and the interval it has to fit.
#[derive(Clone, Copy, Debug, PartialEq, Eq)]
pub struct Draft {
    pub cfg: RadioConfig,
    pub hop_line: u32,
    pub ttl_line: u32,
    pub interval_line: u32,
}

/// The number in a value.
pub open spec fn int_in(v: Value) -> i64 {
    match v {
        Value::Int(n) => n,
        _ => 0,
    }
}

/// The flag in a value.
pub open spec fn flag_in(v: Value) -> bool {
    match v {
        Value::Bool(b) => b,
        _ => false,
    }
}

/// The choice in a value.
pub open spec fn place_in(v: Value) -> usize {
    match v {
        Value::Choice(i) => i,
        _ => 0,
    }
}

/// The field mask in a value.
pub open spec fn mask_in(v: Value) -> u8 {
    match v {
        Value::Fields(m) => m,
        _ => 0,
    }
}

fn number(v: Value) -> (r: i64)
    ensures
        r == int_in(v),
{
    match v {
        Value::Int(n) => n,
        _ => 0,
    }
}

fn flag(v: Value) -> (r: bool)
    ensures
        r == flag_in(v),
{
    match v {
        Value::Bool(b) => b,
        _ => false,
    }
}

fn place(v: Value) -> (r: usize)
    ensures
        r == place_in(v),
{
    match v {
        Value::Choice(i) => i,
        _ => 0,
    }
}

fn mask(v: Value) -> (r: u8)
    ensures
        r == mask_in(v),
{
    match v {
        Value::Fields(m) => m,
        _ => 0,
    }
}

/// A config with a setting of the radio moved. No channels is no plan at all,
/// and a plan with nowhere to hop to is the one-channel plan.
#[verifier::opaque]
pub open spec fn moved_radio(c: RadioConfig, s: Setting, v: Value) -> RadioConfig {
    match s {
        Setting::FrequencyHz => RadioConfig { frequency_hz: int_in(v) as u32, ..c },
        Setting::HopChannels => RadioConfig { hop_channels: if int_in(v) == 0 { 1 } else { int_in(v) as u8 }, ..c },
        Setting::HopStepKhz => RadioConfig { hop_step_khz: int_in(v) as u16, ..c },
        Setting::HopDwellMs => RadioConfig { hop_dwell_ms: int_in(v) as u16, ..c },
        Setting::SpreadingFactor => RadioConfig { spreading_factor: int_in(v) as u8, ..c },
        Setting::BandwidthKhz => RadioConfig { bandwidth_khz: int_in(v) as u16, ..c },
        Setting::CodingRate => RadioConfig { coding_rate: int_in(v) as u8, ..c },
        Setting::PowerDbm => RadioConfig { power_dbm: int_in(v) as i8, ..c },
        Setting::RxBoost => RadioConfig { rx_boost: flag_in(v), ..c },
        Setting::DcdcEnabled => RadioConfig { dcdc_enabled: flag_in(v), ..c },
        Setting::Dio2RfSwitch => RadioConfig { dio2_rf_switch: flag_in(v), ..c },
        Setting::TcxoVolts => RadioConfig { tcxo_volts: keys::TCXO@[place_in(v) as int], ..c },
        Setting::TcxoStartupMs => RadioConfig { tcxo_startup_ms: int_in(v) as u16, ..c },
        _ => c,
    }
}

/// A config with a setting of the node moved.
#[verifier::opaque]
pub open spec fn moved_network(c: RadioConfig, s: Setting, v: Value) -> RadioConfig {
    match s {
        Setting::WakeEnabled => RadioConfig { wake_enabled: flag_in(v), ..c },
        Setting::WakeRxMs => RadioConfig { wake_rx_ms: int_in(v) as u16, ..c },
        Setting::WakeSleepMs => RadioConfig { wake_sleep_ms: int_in(v) as u16, ..c },
        Setting::WakeFrequencyHz => RadioConfig { wake_frequency_hz: int_in(v) as u32, ..c },
        Setting::Address => RadioConfig { address: int_in(v) as u8, ..c },
        Setting::Role => RadioConfig { role: keys::ROLES@[place_in(v) as int], ..c },
        Setting::MaxHops => RadioConfig { max_hops: int_in(v) as u8, ..c },
        Setting::DedupTtlS => RadioConfig { dedup_ttl_s: int_in(v) as u16, ..c },
        Setting::IntervalS => RadioConfig { beacon_interval_s: int_in(v) as u16, ..c },
        Setting::PingIntervalS => RadioConfig { ping_interval_s: int_in(v) as u16, ..c },
        Setting::Fields => RadioConfig { beacon_fields: mask_in(v), ..c },
        Setting::Verbose => RadioConfig { verbose: flag_in(v), ..c },
        _ => c,
    }
}

/// The receiver with a setting moved.
#[verifier::opaque]
pub open spec fn moved_gps(g: GpsConfig, s: Setting, v: Value) -> GpsConfig {
    match s {
        Setting::GpsEnabled => GpsConfig { gps_enabled: flag_in(v), ..g },
        Setting::GlonassEnabled => GpsConfig { glonass_enabled: flag_in(v), ..g },
        Setting::GalileoEnabled => GpsConfig { galileo_enabled: flag_in(v), ..g },
        Setting::BeidouEnabled => GpsConfig { beidou_enabled: flag_in(v), ..g },
        Setting::QzssEnabled => GpsConfig { qzss_enabled: flag_in(v), ..g },
        Setting::SbasEnabled => GpsConfig { sbas_enabled: flag_in(v), ..g },
        Setting::PowerMode => GpsConfig { power_mode: keys::POWER_MODES@[place_in(v) as int], ..g },
        Setting::MeasRateMs => GpsConfig { meas_rate_ms: int_in(v) as u16, ..g },
        Setting::DynamicModel => GpsConfig { dyn_model: keys::DYN_MODELS@[place_in(v) as int], ..g },
        _ => g,
    }
}

/// The duty cycle asked for, with a knob of it asked for.
pub open spec fn moved_power(p: PowerConfig, s: Setting, v: Value) -> PowerConfig {
    match s.duty() {
        Some(knob) => p.asking(knob, int_in(v) as u32),
        None => p,
    }
}

/// A config with one setting moved.
pub open spec fn moved(c: RadioConfig, s: Setting, v: Value) -> RadioConfig {
    match s.part() {
        Part::Radio => moved_radio(c, s, v),
        Part::Network => moved_network(c, s, v),
        Part::Gps => RadioConfig { gps: moved_gps(c.gps, s, v), ..c },
        Part::Power => RadioConfig { power: moved_power(c.power, s, v), ..c },
    }
}

/// A draft with one setting moved by line `line`.
pub open spec fn drafted(d: Draft, s: Setting, v: Value, line: u32) -> Draft {
    Draft {
        cfg: moved(d.cfg, s, v),
        hop_line: if s is FrequencyHz || s is HopChannels || s is HopStepKhz {
            line
        } else {
            d.hop_line
        },
        ttl_line: if s is DedupTtlS {
            line
        } else {
            d.ttl_line
        },
        interval_line: if s is IntervalS {
            line
        } else {
            d.interval_line
        },
    }
}

fn move_radio(c: &RadioConfig, s: Setting, v: Value) -> (r: RadioConfig)
    requires
        keys::fits(s.takes(), v),
    ensures
        r == moved_radio(*c, s, v),
{
    proof {
        reveal(moved_radio);
        reveal(Setting::takes);
    }
    match s {
        Setting::FrequencyHz => RadioConfig { frequency_hz: number(v) as u32, ..*c },
        Setting::HopChannels => RadioConfig { hop_channels: if number(v) == 0 { 1 } else { number(v) as u8 }, ..*c },
        Setting::HopStepKhz => RadioConfig { hop_step_khz: number(v) as u16, ..*c },
        Setting::HopDwellMs => RadioConfig { hop_dwell_ms: number(v) as u16, ..*c },
        Setting::SpreadingFactor => RadioConfig { spreading_factor: number(v) as u8, ..*c },
        Setting::BandwidthKhz => RadioConfig { bandwidth_khz: number(v) as u16, ..*c },
        Setting::CodingRate => RadioConfig { coding_rate: number(v) as u8, ..*c },
        Setting::PowerDbm => RadioConfig { power_dbm: number(v) as i8, ..*c },
        Setting::RxBoost => RadioConfig { rx_boost: flag(v), ..*c },
        Setting::DcdcEnabled => RadioConfig { dcdc_enabled: flag(v), ..*c },
        Setting::Dio2RfSwitch => RadioConfig { dio2_rf_switch: flag(v), ..*c },
        Setting::TcxoVolts => RadioConfig { tcxo_volts: keys::TCXO[place(v)], ..*c },
        Setting::TcxoStartupMs => RadioConfig { tcxo_startup_ms: number(v) as u16, ..*c },
        _ => *c,
    }
}

fn move_network(c: &RadioConfig, s: Setting, v: Value) -> (r: RadioConfig)
    requires
        keys::fits(s.takes(), v),
    ensures
        r == moved_network(*c, s, v),
{
    proof {
        reveal(moved_network);
        reveal(Setting::takes);
    }
    match s {
        Setting::WakeEnabled => RadioConfig { wake_enabled: flag(v), ..*c },
        Setting::WakeRxMs => RadioConfig { wake_rx_ms: number(v) as u16, ..*c },
        Setting::WakeSleepMs => RadioConfig { wake_sleep_ms: number(v) as u16, ..*c },
        Setting::WakeFrequencyHz => RadioConfig { wake_frequency_hz: number(v) as u32, ..*c },
        Setting::Address => RadioConfig { address: number(v) as u8, ..*c },
        Setting::Role => RadioConfig { role: keys::ROLES[place(v)], ..*c },
        Setting::MaxHops => RadioConfig { max_hops: number(v) as u8, ..*c },
        Setting::DedupTtlS => RadioConfig { dedup_ttl_s: number(v) as u16, ..*c },
        Setting::IntervalS => RadioConfig { beacon_interval_s: number(v) as u16, ..*c },
        Setting::PingIntervalS => RadioConfig { ping_interval_s: number(v) as u16, ..*c },
        Setting::Fields => RadioConfig { beacon_fields: mask(v), ..*c },
        Setting::Verbose => RadioConfig { verbose: flag(v), ..*c },
        _ => *c,
    }
}

fn move_gps(g: &GpsConfig, s: Setting, v: Value) -> (r: GpsConfig)
    requires
        keys::fits(s.takes(), v),
    ensures
        r == moved_gps(*g, s, v),
{
    proof {
        reveal(moved_gps);
        reveal(Setting::takes);
    }
    match s {
        Setting::GpsEnabled => GpsConfig { gps_enabled: flag(v), ..*g },
        Setting::GlonassEnabled => GpsConfig { glonass_enabled: flag(v), ..*g },
        Setting::GalileoEnabled => GpsConfig { galileo_enabled: flag(v), ..*g },
        Setting::BeidouEnabled => GpsConfig { beidou_enabled: flag(v), ..*g },
        Setting::QzssEnabled => GpsConfig { qzss_enabled: flag(v), ..*g },
        Setting::SbasEnabled => GpsConfig { sbas_enabled: flag(v), ..*g },
        Setting::PowerMode => GpsConfig { power_mode: keys::POWER_MODES[place(v)], ..*g },
        Setting::MeasRateMs => GpsConfig { meas_rate_ms: number(v) as u16, ..*g },
        Setting::DynamicModel => GpsConfig { dyn_model: keys::DYN_MODELS[place(v)], ..*g },
        _ => *g,
    }
}

fn move_power(p: &PowerConfig, s: Setting, v: Value) -> (r: PowerConfig)
    ensures
        r == moved_power(*p, s, v),
{
    match s.knob() {
        Some(knob) => p.with(knob, number(v) as u32),
        None => *p,
    }
}

/// Move one setting.
fn move_setting(c: &RadioConfig, s: Setting, v: Value) -> (r: RadioConfig)
    requires
        keys::fits(s.takes(), v),
    ensures
        r == moved(*c, s, v),
{
    match s.part_of() {
        Part::Radio => move_radio(c, s, v),
        Part::Network => move_network(c, s, v),
        Part::Gps => RadioConfig { gps: move_gps(&c.gps, s, v), ..*c },
        Part::Power => RadioConfig { power: move_power(&c.power, s, v), ..*c },
    }
}

/// Move one setting, as line `line` asks.
fn draft(d: &Draft, s: Setting, v: Value, line: u32) -> (r: Draft)
    requires
        keys::fits(s.takes(), v),
    ensures
        r == drafted(*d, s, v, line),
{
    let hop: bool = matches!(s, Setting::FrequencyHz | Setting::HopChannels | Setting::HopStepKhz);
    Draft {
        cfg: move_setting(&d.cfg, s, v),
        hop_line: if hop { line } else { d.hop_line },
        ttl_line: if matches!(s, Setting::DedupTtlS) { line } else { d.ttl_line },
        interval_line: if matches!(s, Setting::IntervalS) { line } else { d.interval_line },
    }
}

// -- Lines ---------------------------------------------------------------------

/// The long spellings of the power modes are accepted for the files that
/// carry them; the table names the short ones.
pub open spec fn respelled(s: Setting, value: Seq<char>) -> Seq<char> {
    if s is PowerMode {
        let v = chars::unquoted(value);
        if v == "psm_onoff"@ {
            "psmoo"@
        } else if v == "psm_cyclic"@ {
            "psmct"@
        } else {
            v
        }
    } else {
        value
    }
}

/// What `key = value` on line `line` makes of a draft. A key this build does
/// not know is ignored.
pub open spec fn assigned(d: Draft, key: Seq<char>, value: Seq<char>, line: u32) -> Result<Draft, ConfigError> {
    match keys::row_named(key) {
        Some(i) => {
            let s = KEYS@[i].0;
            match value_read(s.takes(), respelled(s, value), line) {
                Ok(v) => Ok(drafted(d, s, v, line)),
                Err(e) => Err(e),
            }
        },
        // The old mesh counted transmissions, where max_hops counts only the
        // retransmissions after the first.
        None => if key == "lifetime"@ {
            match chars::unsigned(value) {
                Some(v) => if 1 <= v <= 16 {
                    Ok(
                        Draft {
                            cfg: RadioConfig {
                                max_hops: (if v - 1 < MAX_HOPS_LIMIT {
                                    v - 1
                                } else {
                                    MAX_HOPS_LIMIT as int
                                }) as u8,
                                ..d.cfg
                            },
                            ..d
                        },
                    )
                } else {
                    Err(ConfigError::OutOfRange(line))
                },
                None => Err(ConfigError::BadValue(line)),
            }
        } else if key == "sd_enabled"@ && !(value == "true"@ || value == "false"@) {
            // The card is gone; a file that still carries its key is not
            // wrong, only out of date.
            Err(ConfigError::BadValue(line))
        } else {
            Ok(d)
        },
    }
}

/// What one line makes of a draft.
pub open spec fn line_read(d: Draft, raw: Seq<char>, line: u32) -> Result<Draft, ConfigError> {
    let t = chars::trimmed(raw.take(chars::position(raw, '#')));
    let e = chars::position(t, '=');
    let key = chars::trimmed(t.take(e));
    let value = chars::trimmed(t.skip(e + 1));
    if t.len() == 0 {
        Ok(d)
    } else if t[0] == '[' {
        // Section headers are accepted and ignored.
        if t.last() == ']' {
            Ok(d)
        } else {
            Err(ConfigError::Syntax(line))
        }
    } else if e >= t.len() || key.len() == 0 || value.len() == 0 {
        Err(ConfigError::Syntax(line))
    } else {
        assigned(d, key, value, line)
    }
}

/// `key = value` on line `line`.
fn assign(d: &Draft, key: &[char], value: &[char], line: u32) -> (r: Result<Draft, ConfigError>)
    ensures
        r == assigned(*d, key@, value@, line),
{
    match find_row(key) {
        Some(i) => {
            let (s, _, _, _, _) = KEYS[i];
            let alias: Vec<char>;
            let word: &[char] = if matches!(s, Setting::PowerMode) {
                let v: &[char] = unquote(value);
                if same(v, "psm_onoff") {
                    alias = chars_of("psmoo");
                    alias.as_slice()
                } else if same(v, "psm_cyclic") {
                    alias = chars_of("psmct");
                    alias.as_slice()
                } else {
                    v
                }
            } else {
                value
            };
            match read_value(s.kind(), word, line) {
                Ok(v) => Ok(draft(d, s, v, line)),
                Err(e) => Err(e),
            }
        },
        None => {
            if same(key, "lifetime") {
                match parse_u64(value) {
                    Some(v) => {
                        if 1 <= v && v <= 16 {
                            let mut r: Draft = *d;
                            let hops: u8 = (v - 1) as u8;
                            r.cfg.max_hops = if hops < MAX_HOPS_LIMIT { hops } else { MAX_HOPS_LIMIT };
                            Ok(r)
                        } else {
                            Err(ConfigError::OutOfRange(line))
                        }
                    },
                    None => Err(ConfigError::BadValue(line)),
                }
            } else if same(key, "sd_enabled") && !(same(value, "true") || same(value, "false")) {
                Err(ConfigError::BadValue(line))
            } else {
                Ok(*d)
            }
        },
    }
}

/// One line of the file.
fn read_line(d: &Draft, raw: &[char], line: u32) -> (r: Result<Draft, ConfigError>)
    ensures
        r == line_read(*d, raw@, line),
{
    let cut: usize = find(raw, '#');
    assert(raw@.subrange(0, cut as int) =~= raw@.take(cut as int));
    let t: &[char] = trim(&raw[0..cut]);
    let n: usize = t.len();
    if n == 0 {
        return Ok(*d);
    }
    if t[0] == '[' {
        if t[n - 1] == ']' {
            return Ok(*d);
        }
        return Err(ConfigError::Syntax(line));
    }
    let e: usize = find(t, '=');
    if e >= n {
        return Err(ConfigError::Syntax(line));
    }
    assert(t@.subrange(0, e as int) =~= t@.take(e as int));
    assert(t@.subrange(e + 1, n as int) =~= t@.skip(e + 1));
    let key: &[char] = trim(&t[0..e]);
    let value: &[char] = trim(&t[e + 1..n]);
    if key.len() == 0 || value.len() == 0 {
        return Err(ConfigError::Syntax(line));
    }
    assign(d, key, value, line)
}

// -- The file ------------------------------------------------------------------

/// How many lines a text has: one more than its line breaks.
pub open spec fn lines(text: Seq<char>) -> nat
    decreases text.len(),
    via lines_shrinks
{
    let n = chars::position(text, '\n');
    if n >= text.len() {
        1
    } else {
        1 + lines(text.skip(n + 1))
    }
}

#[via_fn]
proof fn lines_shrinks(text: Seq<char>) {
    chars::lemma_position(text, '\n');
}

/// Whether a text's lines can be counted in a `u32`, as a text of fewer
/// characters than that always can.
pub open spec fn countable(text: Seq<char>) -> bool {
    text.len() < u32::MAX || lines(text) <= u32::MAX
}

proof fn lemma_lines_bounded(text: Seq<char>)
    ensures
        lines(text) <= text.len() + 1,
    decreases text.len(),
{
    let n = chars::position(text, '\n');
    chars::lemma_position(text, '\n');
    if n < text.len() {
        lemma_lines_bounded(text.skip(n + 1));
    }
}

proof fn lemma_chars_bounded(b: Seq<u8>)
    requires
        valid_utf8(b),
    ensures
        decode_utf8(b).len() <= b.len(),
    decreases b.len(),
{
    if b.len() > 0 {
        lemma_chars_bounded(pop_first_scalar(b));
    }
}

/// What a text makes of a draft, its first line being line `line`.
pub open spec fn read_from(d: Draft, text: Seq<char>, line: nat) -> Result<Draft, ConfigError>
    decreases text.len(),
    via read_shrinks
{
    let n = chars::position(text, '\n');
    match line_read(d, text.take(n), line as u32) {
        Err(e) => Err(e),
        Ok(next) => if n >= text.len() {
            Ok(next)
        } else {
            read_from(next, text.skip(n + 1), line + 1)
        },
    }
}

#[via_fn]
proof fn read_shrinks(d: Draft, text: Seq<char>, line: nat) {
    chars::lemma_position(text, '\n');
}

/// The plan a config makes.
pub open spec fn plan_of(c: RadioConfig) -> Plan {
    Plan {
        channels: c.hop_channels,
        step_khz: c.hop_step_khz,
        center_hz: c.frequency_hz,
        dwell_ms: c.hop_dwell_ms,
        sub_slots: 1,
    }
}

/// Whether every channel of a config's plan is somewhere the radio can tune.
pub open spec fn plan_in_range(c: RadioConfig) -> bool {
    &&& RF_MIN_HZ <= plan_of(c).carrier(0)
    &&& plan_of(c).carrier((plan_of(c).slots_per_cycle() - 1) as u8) <= RF_MAX_HZ
}

/// Whether the dedup window fits the id it keys on: eight bits, one per
/// transmission, so past 256 beacons a node starts dropping its own later
/// frames as duplicates. Refused with margin; a silenced node has no ids to
/// wrap.
pub open spec fn window_fits(c: RadioConfig) -> bool {
    c.beacon_interval_s == 0 || c.dedup_ttl_s <= 200 * c.beacon_interval_s
}

/// The rules that span keys, checked once every line has been read because
/// the keys can arrive in any order.
pub open spec fn settled(d: Draft) -> Result<RadioConfig, ConfigError> {
    if !plan_in_range(d.cfg) {
        Err(ConfigError::OutOfRange(d.hop_line))
    } else if !window_fits(d.cfg) {
        Err(ConfigError::OutOfRange(if d.ttl_line > 0 { d.ttl_line } else { d.interval_line }))
    } else {
        Ok(d.cfg)
    }
}

/// The draft every file starts from.
pub open spec fn unread() -> Draft {
    Draft { cfg: radiocfg::radio_defaults(), hop_line: 0, ttl_line: 0, interval_line: 0 }
}

/// What a file says.
pub open spec fn parsed(text: Seq<char>) -> Result<RadioConfig, ConfigError> {
    match read_from(unread(), text, 1) {
        Ok(d) => settled(d),
        Err(e) => Err(e),
    }
}

/// What the bytes of a file say.
pub open spec fn read_bytes(b: Seq<u8>) -> Result<RadioConfig, ConfigError> {
    if valid_utf8(b) {
        parsed(decode_utf8(b))
    } else {
        Err(ConfigError::Utf8)
    }
}

/// The rules that span keys.
fn settle(d: &Draft) -> (r: Result<RadioConfig, ConfigError>)
    ensures
        r == settled(*d),
{
    let c: &RadioConfig = &d.cfg;
    let plan: Plan = Plan {
        channels: c.hop_channels,
        step_khz: c.hop_step_khz,
        center_hz: c.frequency_hz,
        dwell_ms: c.hop_dwell_ms,
        sub_slots: 1,
    };
    let (lo, hi) = plan.span_hz();
    if (lo as u64) < RF_MIN_HZ || hi as u64 > RF_MAX_HZ {
        return Err(ConfigError::OutOfRange(d.hop_line));
    }
    if c.beacon_interval_s > 0 && c.dedup_ttl_s as u32 > 200 * (c.beacon_interval_s as u32) {
        return Err(ConfigError::OutOfRange(if d.ttl_line > 0 { d.ttl_line } else { d.interval_line }));
    }
    Ok(d.cfg)
}

/// Parse a config file, starting from the defaults so a partial file is fine.
/// Unknown keys are ignored (forward compatibility). A file has at most
/// [`u32::MAX`] lines.
pub fn parse(text: &str) -> (r: Result<RadioConfig, ConfigError>)
    requires
        countable(text@),
    ensures
        r == parsed(text@),
{
    proof {
        lemma_lines_bounded(text@);
    }
    let t: Vec<char> = chars_of(text);
    let n: usize = t.len();
    let mut d: Draft = Draft { cfg: RadioConfig::default(), hop_line: 0, ttl_line: 0, interval_line: 0 };
    let mut line: u32 = 1;
    let mut at: usize = 0;
    assert(t@.skip(0) =~= t@);
    loop
        invariant
            at <= n,
            n == t@.len(),
            t@ == text@,
            line >= 1,
            line - 1 + lines(t@.skip(at as int)) == lines(text@),
            lines(text@) <= u32::MAX,
            read_from(d, t@.skip(at as int), line as nat) == read_from(unread(), text@, 1),
        decreases n - at,
    {
        let rest: &[char] = &t.as_slice()[at..n];
        assert(rest@ =~= t@.skip(at as int));
        let k: usize = find(rest, '\n');
        assert(rest@.subrange(0, k as int) =~= rest@.take(k as int));
        match read_line(&d, &rest[0..k], line) {
            Err(e) => {
                return Err(e);
            },
            Ok(next) => {
                d = next;
            },
        }
        if k >= rest.len() {
            return settle(&d);
        }
        assert(rest@.skip(k + 1) =~= t@.skip(at + k + 1));
        assert(lines(t@.skip(at + k + 1)) >= 1);
        at = at + k + 1;
        line = line + 1;
    }
}

/// Parse from bytes, reporting non-UTF-8 as an error.
pub fn parse_bytes(bytes: &[u8]) -> (r: Result<RadioConfig, ConfigError>)
    requires
        bytes@.len() < u32::MAX || (valid_utf8(bytes@) ==> countable(decode_utf8(bytes@))),
    ensures
        r == read_bytes(bytes@),
{
    match utf8(bytes) {
        Some(text) => {
            proof {
                lemma_chars_bounded(bytes@);
            }
            parse(text)
        },
        None => Err(ConfigError::Utf8),
    }
}

// -- What holds of every file --------------------------------------------------

/// Whether every setting of a config is one its key takes, and every duration
/// it asks for is zero or inside its bounds.
pub open spec fn bounded(c: RadioConfig) -> bool {
    &&& forall|s: Setting| s.duty() is None ==> keys::fits(s.takes(), #[trigger] s.held(c))
    &&& forall|k: Knob|
        (#[trigger] c.power.asked(k)) matches Some(v) ==> v == 0 || k.row().min <= v <= k.row().max
    &&& c.hop_channels >= 1
}

/// What a key holds once `v` has been stored in it: `v`, but for a plan of no
/// channels, which is one of one.
pub open spec fn settling(s: Setting, v: Value) -> Value {
    if s is HopChannels && v == Value::Int(0) {
        Value::Int(1)
    } else {
        v
    }
}

/// A setting of the radio moved is that setting at that value, and no other.
proof fn lemma_radio_moved(c: RadioConfig, s: Setting, v: Value, t: Setting)
    requires
        keys::fits(s.takes(), v),
        s.part() is Radio,
    ensures
        t.held(moved_radio(c, s, v)) == (if t == s { settling(s, v) } else { t.held(c) }),
        moved_radio(c, s, v).power == c.power,
        c.hop_channels >= 1 ==> moved_radio(c, s, v).hop_channels >= 1,
{
    reveal(Setting::takes);
    reveal(Setting::held_radio);
    reveal(Setting::held_network);
    reveal(Setting::held_gps);
    reveal(moved_radio);
    if s is TcxoVolts {
        assert(forall|i: int| 0 <= i < 8 ==> keys::tcxo_place(#[trigger] keys::TCXO@[i]) == i);
    }
}

/// A setting of the node moved is that setting at that value, and no other.
proof fn lemma_network_moved(c: RadioConfig, s: Setting, v: Value, t: Setting)
    requires
        keys::fits(s.takes(), v),
        s.part() is Network,
    ensures
        t.held(moved_network(c, s, v)) == (if t == s { v } else { t.held(c) }),
        moved_network(c, s, v).power == c.power,
        moved_network(c, s, v).hop_channels == c.hop_channels,
{
    reveal(Setting::takes);
    reveal(Setting::held_radio);
    reveal(Setting::held_network);
    reveal(Setting::held_gps);
    reveal(moved_network);
    if s is Role {
        assert(forall|i: int| 0 <= i < 4 ==> keys::role_place(#[trigger] keys::ROLES@[i]) == i);
    }
}

/// A setting of the receiver moved is that setting at that value, and no
/// other.
proof fn lemma_gps_moved(g: GpsConfig, s: Setting, v: Value, t: Setting)
    requires
        keys::fits(s.takes(), v),
        s.part() is Gps,
        t.part() is Gps,
    ensures
        t.held_gps(moved_gps(g, s, v)) == (if t == s { v } else { t.held_gps(g) }),
{
    reveal(Setting::takes);
    reveal(Setting::held_gps);
    reveal(moved_gps);
    if s is PowerMode {
        assert(forall|i: int| 0 <= i < 3 ==> keys::power_mode_place(#[trigger] keys::POWER_MODES@[i]) == i);
    }
    if s is DynamicModel {
        assert(forall|i: int| 0 <= i < 8 ==> keys::dyn_model_place(#[trigger] keys::DYN_MODELS@[i]) == i);
    }
}

/// The keys of the radio and of the node read nothing of the receiver and
/// nothing of the duty cycle.
proof fn lemma_parts_apart(c: RadioConfig, g: GpsConfig, p: PowerConfig, t: Setting)
    ensures
        t.held_radio(RadioConfig { gps: g, ..c }) == t.held_radio(c),
        t.held_network(RadioConfig { gps: g, ..c }) == t.held_network(c),
        t.held_radio(RadioConfig { power: p, ..c }) == t.held_radio(c),
        t.held_network(RadioConfig { power: p, ..c }) == t.held_network(c),
{
    reveal(Setting::held_radio);
    reveal(Setting::held_network);
}

/// A key moves its own setting and no other: the value it was given, or the
/// duration it was given, is what the config then holds, and every other key
/// holds what it held.
pub proof fn law_a_key_moves_one_setting(c: RadioConfig, s: Setting, v: Value, t: Setting, k: Knob)
    requires
        keys::fits(s.takes(), v),
    ensures
        s.duty() is None && t == s ==> t.held(moved(c, s, v)) == settling(s, v),
        t != s ==> t.held(moved(c, s, v)) == t.held(c),
        s.duty() == Some(k) ==> moved(c, s, v).power.asked(k) == Some(int_in(v) as u32),
        s.duty() != Some(k) ==> moved(c, s, v).power.asked(k) == c.power.asked(k),
        c.hop_channels >= 1 ==> moved(c, s, v).hop_channels >= 1,
{
    match s.part() {
        Part::Radio => lemma_radio_moved(c, s, v, t),
        Part::Network => lemma_network_moved(c, s, v, t),
        Part::Gps => {
            if t.part() is Gps {
                lemma_gps_moved(c.gps, s, v, t);
            }
        },
        Part::Power => {
            assert(s.duty() is Some);
        },
    }
    lemma_parts_apart(c, moved_gps(c.gps, s, v), moved_power(c.power, s, v), t);
    if let Some(own) = s.duty() {
        s.lemma_duty_takes(own);
    }
}

/// Storing a value its key takes keeps a config bounded.
proof fn lemma_moved_bounded(c: RadioConfig, s: Setting, v: Value)
    requires
        bounded(c),
        keys::fits(s.takes(), v),
    ensures
        bounded(moved(c, s, v)),
{
    let m = moved(c, s, v);
    assert forall|t: Setting| t.duty() is None implies keys::fits(t.takes(), #[trigger] t.held(m)) by {
        law_a_key_moves_one_setting(c, s, v, t, Knob::BleOn);
        assert(keys::fits(t.takes(), t.held(c)));
        assert(Setting::HopChannels.takes() == (Kind::Int { min: 0, max: 255 })) by {
            reveal(Setting::takes);
        }
    }
    assert forall|k: Knob| (#[trigger] m.power.asked(k)) is Some implies m.power.asked(k)->0 == 0 || k.row().min
        <= m.power.asked(k)->0 <= k.row().max by {
        law_a_key_moves_one_setting(c, s, v, s, k);
        if s.duty() == Some(k) {
            s.lemma_duty_takes(k);
        }
        assert(c.power.asked(k) is Some ==> c.power.asked(k)->0 == 0 || k.row().min <= c.power.asked(k)->0
            <= k.row().max);
    }
    law_a_key_moves_one_setting(c, s, v, s, Knob::BleOn);
}

/// The defaults are bounded.
pub proof fn lemma_defaults_bounded()
    ensures
        bounded(radiocfg::radio_defaults()),
        plan_in_range(radiocfg::radio_defaults()),
        window_fits(radiocfg::radio_defaults()),
{
    let c = radiocfg::radio_defaults();
    reveal(Setting::takes);
    reveal(Setting::held_radio);
    reveal(Setting::held_network);
    reveal(Setting::held_gps);
    assert(keys::BANDWIDTHS@[3] == 500);
    let step: int = c.hop_step_khz * 500;
    assert((2 * 0 - (1 - 1)) * step == 0) by (nonlinear_arith);
    assert(lora::selects(lora::FIELDS_DEFAULT, lora::FIELD_LAT) && lora::selects(
        lora::FIELDS_DEFAULT,
        lora::FIELD_LON,
    )) by {
        reveal(lora::selects);
    }
    assert forall|k: Knob| (#[trigger] c.power.asked(k)) is None by {}
}

/// The line an error names.
pub open spec fn error_line(e: ConfigError) -> int {
    match e {
        ConfigError::Syntax(n) => n as int,
        ConfigError::BadValue(n) => n as int,
        ConfigError::OutOfRange(n) => n as int,
        ConfigError::Utf8 => 0,
    }
}

/// Whether a draft blames lines that have been read, and blames none only
/// where the settings are the defaults.
pub open spec fn blames(d: Draft, upto: int) -> bool {
    let c = radiocfg::radio_defaults();
    &&& d.hop_line <= upto
    &&& d.ttl_line <= upto
    &&& d.interval_line <= upto
    &&& d.hop_line == 0 ==> d.cfg.frequency_hz == c.frequency_hz && d.cfg.hop_channels == c.hop_channels
        && d.cfg.hop_step_khz == c.hop_step_khz
    &&& d.ttl_line == 0 ==> d.cfg.dedup_ttl_s == c.dedup_ttl_s
    &&& d.interval_line == 0 ==> d.cfg.beacon_interval_s == c.beacon_interval_s
}

/// A word found is one of the words.
proof fn lemma_which(words: Seq<&'static str>, v: Seq<char>, from: int)
    requires
        0 <= from,
    ensures
        which(words, v, from) matches Some(i) ==> from <= i < words.len() && words[i]@ == v,
    decreases words.len() - from,
{
    if from < words.len() && words[from]@ != v {
        lemma_which(words, v, from + 1);
    }
}

/// A mask read is inside seven bits.
proof fn lemma_fields_fit(mask: u8, list: Seq<char>)
    requires
        mask < 0x80,
    ensures
        fields_in(mask, list) matches Some(m) ==> m < 0x80,
    decreases list.len(),
{
    let n = chars::position(list, ',');
    chars::lemma_position(list, ',');
    let name = chars::trimmed(list.take(n));
    if let Some(bit) = field_named(name) {
        lemma_selecting(mask, name);
        if n < list.len() {
            lemma_fields_fit(lora::selecting(mask, bit), list.skip(n + 1));
        }
    }
}

/// A value read is one its key takes, and a value refused is refused by line.
proof fn lemma_value_read(kind: Kind, value: Seq<char>, line: u32)
    requires
        kind matches Kind::Choice(words) ==> words@.len() <= usize::MAX,
    ensures
        value_read(kind, value, line) matches Ok(v) ==> keys::fits(kind, v),
        value_read(kind, value, line) matches Err(e) ==> error_line(e) == line,
{
    match kind {
        Kind::Choice(words) => lemma_which(words@, chars::unquoted(value), 0),
        Kind::Fields => lemma_fields_fit(0, chars::unquoted(value)),
        _ => {},
    }
}

/// What the hop, window and interval keys hold is what the config says.
proof fn lemma_held_numbers(c: RadioConfig)
    ensures
        Setting::FrequencyHz.held(c) == Value::Int(c.frequency_hz as i64),
        Setting::HopChannels.held(c) == Value::Int(c.hop_channels as i64),
        Setting::HopStepKhz.held(c) == Value::Int(c.hop_step_khz as i64),
        Setting::DedupTtlS.held(c) == Value::Int(c.dedup_ttl_s as i64),
        Setting::IntervalS.held(c) == Value::Int(c.beacon_interval_s as i64),
{
    reveal(Setting::held_radio);
    reveal(Setting::held_network);
}

/// Storing a value its key takes keeps a draft in order.
proof fn lemma_drafted(d: Draft, s: Setting, v: Value, line: u32)
    requires
        bounded(d.cfg),
        blames(d, line - 1),
        line >= 1,
        keys::fits(s.takes(), v),
    ensures
        bounded(drafted(d, s, v, line).cfg),
        blames(drafted(d, s, v, line), line as int),
{
    let c = d.cfg;
    let m = moved(c, s, v);
    lemma_moved_bounded(c, s, v);
    lemma_held_numbers(c);
    lemma_held_numbers(m);
    law_a_key_moves_one_setting(c, s, v, Setting::FrequencyHz, Knob::BleOn);
    law_a_key_moves_one_setting(c, s, v, Setting::HopChannels, Knob::BleOn);
    law_a_key_moves_one_setting(c, s, v, Setting::HopStepKhz, Knob::BleOn);
    law_a_key_moves_one_setting(c, s, v, Setting::DedupTtlS, Knob::BleOn);
    law_a_key_moves_one_setting(c, s, v, Setting::IntervalS, Knob::BleOn);
}

/// `key = value` keeps a draft in order, or is refused by line.
proof fn lemma_assigned(d: Draft, key: Seq<char>, value: Seq<char>, line: u32)
    requires
        bounded(d.cfg),
        blames(d, line - 1),
        line >= 1,
    ensures
        assigned(d, key, value, line) matches Ok(r) ==> bounded(r.cfg) && blames(r, line as int),
        assigned(d, key, value, line) matches Err(e) ==> error_line(e) == line,
{
    match keys::row_named(key) {
        Some(i) => {
            let s = KEYS@[i].0;
            let word = respelled(s, value);
            assert(s.takes() matches Kind::Choice(words) ==> words@.len() <= usize::MAX) by {
                reveal(Setting::takes);
            }
            lemma_value_read(s.takes(), word, line);
            if let Ok(v) = value_read(s.takes(), word, line) {
                lemma_drafted(d, s, v, line);
            }
        },
        None => if key == "lifetime"@ {
            if let Some(v) = chars::unsigned(value) {
                if 1 <= v <= 16 {
                    let hops = if v - 1 < MAX_HOPS_LIMIT {
                        v - 1
                    } else {
                        MAX_HOPS_LIMIT as int
                    };
                    reveal(Setting::takes);
                    reveal(moved_network);
                    lemma_drafted(d, Setting::MaxHops, Value::Int(hops as i64), line);
                }
            }
        },
    }
}

/// Every line keeps a draft in order, and an error names a line of the text.
proof fn lemma_read(d: Draft, text: Seq<char>, line: nat)
    requires
        bounded(d.cfg),
        blames(d, line - 1),
        line >= 1,
        line - 1 + lines(text) <= u32::MAX,
    ensures
        read_from(d, text, line) matches Ok(r) ==> bounded(r.cfg) && blames(r, line - 1 + lines(text)),
        read_from(d, text, line) matches Err(e) ==> line <= error_line(e) <= line - 1 + lines(text),
    decreases text.len(),
{
    chars::lemma_position(text, '\n');
    let n = chars::position(text, '\n');
    let raw = text.take(n);
    let t = chars::trimmed(raw.take(chars::position(raw, '#')));
    let e = chars::position(t, '=');
    lemma_assigned(d, chars::trimmed(t.take(e)), chars::trimmed(t.skip(e + 1)), line as u32);
    if let Ok(next) = line_read(d, raw, line as u32) {
        assert(blames(next, line as int));
        if n < text.len() {
            lemma_read(next, text.skip(n + 1), line + 1);
        }
    }
}

/// A file that reads is a config the radio can run: every setting inside the
/// bounds of its key, every duration asked for zero or inside its own, every
/// channel of the plan somewhere the radio can tune, and the dedup window
/// inside the wrap of the id it keys on.
pub proof fn law_a_config_read_is_bounded(text: Seq<char>)
    requires
        countable(text),
    ensures
        parsed(text) matches Ok(c) ==> bounded(c) && plan_in_range(c) && window_fits(c),
{
    lemma_lines_bounded(text);
    lemma_defaults_bounded();
    lemma_read(unread(), text, 1);
}

/// An error is reported against a line of the file.
pub proof fn law_an_error_names_a_line(text: Seq<char>)
    requires
        countable(text),
    ensures
        parsed(text) matches Err(e) ==> 1 <= error_line(e) <= lines(text),
{
    lemma_lines_bounded(text);
    lemma_defaults_bounded();
    lemma_read(unread(), text, 1);
    if let Ok(d) = read_from(unread(), text, 1) {
        let c = radiocfg::radio_defaults();
        if d.hop_line == 0 {
            assert(plan_of(d.cfg).carrier(0) == plan_of(c).carrier(0));
            assert(plan_in_range(d.cfg));
        }
    }
}

/// A file is its lines: one that is another with more lines after it reads as
/// the first and then the rest, so a file cut at the end of a line reads as a
/// shorter one, with every key it lost at what it was.
pub proof fn law_a_file_reads_line_by_line(d: Draft, head: Seq<char>, tail: Seq<char>, line: nat)
    ensures
        read_from(d, head + seq!['\n'] + tail, line) == (match read_from(d, head, line) {
            Ok(r) => read_from(r, tail, line + lines(head)),
            Err(e) => Err(e),
        }),
    decreases head.len(),
{
    let whole = head + seq!['\n'] + tail;
    let n = chars::position(head, '\n');
    chars::lemma_position(head, '\n');
    assert forall|i: int| 0 <= i < n implies whole[i] != '\n' by {
        assert(whole[i] == head[i]);
    }
    assert(whole[n] == '\n');
    chars::lemma_position_is(whole, '\n', n);
    assert(whole.take(n) =~= head.take(n));
    if n < head.len() {
        assert(whole.skip(n + 1) =~= head.skip(n + 1) + seq!['\n'] + tail);
        if let Ok(next) = line_read(d, head.take(n), line as u32) {
            law_a_file_reads_line_by_line(next, head.skip(n + 1), tail, line + 1);
        }
    } else {
        assert(whole.skip(n + 1) =~= tail);
    }
}

/// Whether a line sets nothing: it is blank, a comment, a section header, a
/// key this build does not know, or the retired one at a value it took.
pub open spec fn says_nothing(raw: Seq<char>) -> bool {
    let t = chars::trimmed(raw.take(chars::position(raw, '#')));
    let e = chars::position(t, '=');
    let key = chars::trimmed(t.take(e));
    let value = chars::trimmed(t.skip(e + 1));
    if t.len() == 0 {
        true
    } else if t[0] == '[' {
        t.last() == ']'
    } else {
        &&& e < t.len() && key.len() > 0 && value.len() > 0
        &&& keys::row_named(key) is None
        &&& key != "lifetime"@
        &&& key == "sd_enabled"@ ==> value == "true"@ || value == "false"@
    }
}

/// A comment, a blank, a section header and a key this build does not know
/// change nothing.
pub proof fn law_a_line_that_says_nothing(d: Draft, raw: Seq<char>, key: Seq<char>, value: Seq<char>, line: u32)
    ensures
        says_nothing(raw) ==> line_read(d, raw, line) == Ok::<Draft, ConfigError>(d),
        raw.len() > 0 && raw[0] == '#' ==> says_nothing(raw),
        keys::row_named(key) is None && key != "lifetime"@ && key != "sd_enabled"@ ==> assigned(d, key, value, line)
            == Ok::<Draft, ConfigError>(d),
{
    if raw.len() > 0 && raw[0] == '#' {
        assert(raw.take(0).len() == 0);
    }
}

/// Whether two errors say the same, wherever each was met.
pub open spec fn same_error(a: ConfigError, b: ConfigError) -> bool {
    &&& a is Syntax <==> b is Syntax
    &&& a is BadValue <==> b is BadValue
    &&& a is OutOfRange <==> b is OutOfRange
}

/// Whether two files read alike: as the same config, or refused for the same
/// reason, on whatever line that is.
pub open spec fn alike(a: Result<RadioConfig, ConfigError>, b: Result<RadioConfig, ConfigError>) -> bool {
    match a {
        Ok(c) => b == Ok::<RadioConfig, ConfigError>(c),
        Err(e) => b matches Err(f) && same_error(e, f),
    }
}

/// The config of a draft.
spec fn cfg_of(r: Result<Draft, ConfigError>) -> Result<RadioConfig, ConfigError> {
    match r {
        Ok(d) => Ok(d.cfg),
        Err(e) => Err(e),
    }
}

/// A line reads alike wherever it stands.
proof fn lemma_line_elsewhere(a: Draft, b: Draft, raw: Seq<char>, m: u32, n: u32)
    requires
        a.cfg == b.cfg,
    ensures
        alike(cfg_of(line_read(a, raw, m)), cfg_of(line_read(b, raw, n))),
{
    let t = chars::trimmed(raw.take(chars::position(raw, '#')));
    let e = chars::position(t, '=');
    let key = chars::trimmed(t.take(e));
    let value = chars::trimmed(t.skip(e + 1));
    assert(alike(cfg_of(assigned(a, key, value, m)), cfg_of(assigned(b, key, value, n))));
}

/// A text reads alike wherever it starts.
proof fn lemma_text_elsewhere(a: Draft, b: Draft, text: Seq<char>, m: nat, n: nat)
    requires
        a.cfg == b.cfg,
    ensures
        alike(cfg_of(read_from(a, text, m)), cfg_of(read_from(b, text, n))),
    decreases text.len(),
{
    let k = chars::position(text, '\n');
    chars::lemma_position(text, '\n');
    lemma_line_elsewhere(a, b, text.take(k), m as u32, n as u32);
    if k < text.len() {
        if let Ok(c) = line_read(a, text.take(k), m as u32) {
            if let Ok(d) = line_read(b, text.take(k), n as u32) {
                lemma_text_elsewhere(c, d, text.skip(k + 1), m + 1, n + 1);
            }
        }
    }
}

/// Whether a text is one line.
pub open spec fn one_line(raw: Seq<char>) -> bool {
    forall|i: int| 0 <= i < raw.len() ==> #[trigger] raw[i] != '\n'
}

/// A line that says nothing may stand anywhere in a file, first, last or
/// between any two lines: the file reads as it did without it. Only the
/// numbers of the lines behind it move, and the one an error names with them.
pub proof fn law_a_line_that_says_nothing_may_stand_anywhere(head: Seq<char>, raw: Seq<char>, tail: Seq<char>)
    requires
        one_line(raw),
        says_nothing(raw),
    ensures
        alike(parsed(raw + seq!['\n'] + tail), parsed(tail)),
        parsed(head + seq!['\n'] + raw) == parsed(head),
        alike(parsed(head + seq!['\n'] + raw + seq!['\n'] + tail), parsed(head + seq!['\n'] + tail)),
{
    let nl = seq!['\n'];
    let d = unread();
    lemma_skipped(d, raw, tail, 1);
    lemma_text_elsewhere(d, d, tail, 1 + lines(raw), 1);
    law_a_file_reads_line_by_line(d, head, raw, 1);
    law_a_file_reads_line_by_line(d, head, tail, 1);
    law_a_file_reads_line_by_line(d, head, raw + nl + tail, 1);
    assert(head + nl + raw + nl + tail =~= head + nl + (raw + nl + tail));
    if let Ok(r) = read_from(d, head, 1) {
        lemma_skipped(r, raw, tail, 1 + lines(head));
        lemma_text_elsewhere(r, r, tail, 1 + lines(head) + lines(raw), 1 + lines(head));
    }
}

/// Behind a line that says nothing, a text goes on from the same draft.
proof fn lemma_skipped(d: Draft, raw: Seq<char>, tail: Seq<char>, line: nat)
    requires
        one_line(raw),
        says_nothing(raw),
    ensures
        read_from(d, raw, line) == Ok::<Draft, ConfigError>(d),
        read_from(d, raw + seq!['\n'] + tail, line) == read_from(d, tail, line + lines(raw)),
{
    chars::lemma_position_is(raw, '\n', raw.len() as int);
    assert(raw.take(raw.len() as int) =~= raw);
    law_a_line_that_says_nothing(d, raw, raw, raw, line as u32);
    law_a_file_reads_line_by_line(d, raw, tail, line);
}

// -- A value written is a value read -------------------------------------------

/// Whether `s` is a value that stands in a line as it is: something printable,
/// with no white space at either end and no comment in it.
pub open spec fn is_plain(s: Seq<char>) -> bool {
    &&& s.len() > 0
    &&& !chars::is_space(s[0])
    &&& !chars::is_space(s.last())
    &&& forall|i: int| 0 <= i < s.len() ==> plain_char(#[trigger] s[i])
}

/// Whether `c` is printable and opens no comment.
pub open spec fn plain_char(c: char) -> bool {
    ' ' <= c <= '~' && c != '#'
}

/// Quotes round text without quotes come off again.
proof fn lemma_quoted(w: Seq<char>)
    requires
        w.len() > 0,
        forall|i: int| 0 <= i < w.len() ==> word_or_point(#[trigger] w[i]),
    ensures
        chars::unquoted("\""@ + w + "\""@) == w,
        chars::unquoted(w) == w,
        is_plain("\""@ + w + "\""@),
{
    reveal_strlit("\"");
    let q = "\""@ + w + "\""@;
    assert(q[0] == '"' && q.last() == '"');
    assert(q.subrange(1, q.len() - 1) =~= w);
    assert(word_or_point(w[0]));
    assert forall|i: int| 0 <= i < q.len() implies plain_char(#[trigger] q[i]) by {
        if 1 <= i < q.len() - 1 {
            assert(q[i] == w[i - 1]);
        }
    }
}

/// Whether `c` can stand in one of the table's words.
spec fn word_or_point(c: char) -> bool {
    keys::word_char(c) || c == '.'
}

/// A word no earlier word is spelled as is found where it stands.
proof fn lemma_which_is(words: Seq<&'static str>, i: int, from: int)
    requires
        0 <= from <= i < words.len(),
        forall|j: int| 0 <= j < i ==> (#[trigger] words[j])@ != words[i]@,
    ensures
        which(words, words[i]@, from) == Some(i),
    decreases i - from,
{
    if from < i {
        assert(words[from]@ != words[i]@);
        lemma_which_is(words, i, from + 1);
    }
}

/// The roles are four different words.
proof fn lemma_role_words(i: int, j: int)
    requires
        0 <= i < 4,
        0 <= j < 4,
    ensures
        i != j ==> keys::ROLE_NAMES@[i]@ != keys::ROLE_NAMES@[j]@,
        keys::ROLE_NAMES@[i]@.len() > 0,
        forall|k: int| 0 <= k < keys::ROLE_NAMES@[i]@.len() ==> word_or_point(#[trigger] keys::ROLE_NAMES@[i]@[k]),
{
    reveal_strlit("leaf");
    reveal_strlit("repeater");
    reveal_strlit("tx_only");
    reveal_strlit("rx_only");
    assert("leaf"@.len() == 4
        && "repeater"@.len() == 8
        && "tx_only"@.len() == 7
        && "rx_only"@.len() == 7);
    assert("tx_only"@[0] == 't' && "rx_only"@[0] == 'r');
}

/// The voltages are eight different words.
proof fn lemma_tcxo_words(i: int, j: int)
    requires
        0 <= i < 8,
        0 <= j < 8,
    ensures
        i != j ==> keys::TCXO_NAMES@[i]@ != keys::TCXO_NAMES@[j]@,
        keys::TCXO_NAMES@[i]@.len() > 0,
        forall|k: int| 0 <= k < keys::TCXO_NAMES@[i]@.len() ==> word_or_point(#[trigger] keys::TCXO_NAMES@[i]@[k]),
{
    reveal_strlit("1.6");
    reveal_strlit("1.7");
    reveal_strlit("1.8");
    reveal_strlit("2.2");
    reveal_strlit("2.4");
    reveal_strlit("2.7");
    reveal_strlit("3.0");
    reveal_strlit("3.3");
    assert("1.6"@[2] == '6' && "1.7"@[2] == '7' && "1.8"@[2] == '8' && "2.2"@[2] == '2' && "2.4"@[2] == '4'
        && "2.7"@[2] == '7' && "3.0"@[2] == '0' && "3.3"@[2] == '3');
    assert("1.6"@[0] == '1' && "1.7"@[0] == '1' && "1.8"@[0] == '1' && "2.2"@[0] == '2' && "2.4"@[0] == '2'
        && "2.7"@[0] == '2' && "3.0"@[0] == '3' && "3.3"@[0] == '3');
}

/// The power modes are three different words, and none of them a long
/// spelling.
proof fn lemma_power_mode_words(i: int, j: int)
    requires
        0 <= i < 3,
        0 <= j < 3,
    ensures
        i != j ==> keys::POWER_MODE_NAMES@[i]@ != keys::POWER_MODE_NAMES@[j]@,
        keys::POWER_MODE_NAMES@[i]@ != "psm_onoff"@,
        keys::POWER_MODE_NAMES@[i]@ != "psm_cyclic"@,
        keys::POWER_MODE_NAMES@[i]@.len() > 0,
        forall|k: int|
            0 <= k < keys::POWER_MODE_NAMES@[i]@.len() ==> word_or_point(#[trigger] keys::POWER_MODE_NAMES@[i]@[k]),
{
    reveal_strlit("full");
    reveal_strlit("psmoo");
    reveal_strlit("psmct");
    reveal_strlit("psm_onoff");
    reveal_strlit("psm_cyclic");
    assert("full"@.len() == 4
        && "psmoo"@.len() == 5
        && "psmct"@.len() == 5
        && "psm_onoff"@.len() == 9
        && "psm_cyclic"@.len() == 10);
    assert("psmoo"@[3] == 'o' && "psmct"@[3] == 'c');
}

/// The motion models are eight different words.
proof fn lemma_dyn_model_words(i: int, j: int)
    requires
        0 <= i < 8,
        0 <= j < 8,
    ensures
        i != j ==> keys::DYN_MODEL_NAMES@[i]@ != keys::DYN_MODEL_NAMES@[j]@,
        keys::DYN_MODEL_NAMES@[i]@.len() > 0,
        forall|k: int|
            0 <= k < keys::DYN_MODEL_NAMES@[i]@.len() ==> word_or_point(#[trigger] keys::DYN_MODEL_NAMES@[i]@[k]),
{
    reveal_strlit("portable");
    reveal_strlit("stationary");
    reveal_strlit("pedestrian");
    reveal_strlit("automotive");
    reveal_strlit("sea");
    reveal_strlit("airborne1g");
    reveal_strlit("airborne2g");
    reveal_strlit("airborne4g");
    assert("portable"@.len() == 8
        && "stationary"@.len() == 10
        && "pedestrian"@.len() == 10
        && "automotive"@.len() == 10
        && "sea"@.len() == 3
        && "airborne1g"@.len() == 10
        && "airborne2g"@.len() == 10
        && "airborne4g"@.len() == 10);
    assert("stationary"@[0] == 's' && "pedestrian"@[0] == 'p' && "automotive"@[1] == 'u' && "airborne1g"@[1] == 'i'
        && "airborne2g"@[1] == 'i' && "airborne4g"@[1] == 'i' && "airborne1g"@[0] == 'a');
    assert("airborne1g"@[8] == '1' && "airborne2g"@[8] == '2' && "airborne4g"@[8] == '4');
    assert("automotive"@[0] == 'a' && "airborne2g"@[0] == 'a' && "airborne4g"@[0] == 'a');
}

/// One of the words, quoted, reads back as which it is.
proof fn lemma_word_reads_back(s: Setting, words: Seq<&'static str>, i: int, line: u32)
    requires
        s.takes() matches Kind::Choice(w) && w@ == words,
        0 <= i < words.len(),
    ensures
        value_read(s.takes(), respelled(s, "\""@ + words[i]@ + "\""@), line) == Ok::<Value, ConfigError>(
            Value::Choice(i as usize),
        ),
        is_plain("\""@ + words[i]@ + "\""@),
{
    reveal(Setting::takes);
    assert forall|j: int| 0 <= j < words.len() && j != i implies (#[trigger] words[j])@ != words[i]@ by {
        match s {
            Setting::Role => lemma_role_words(i, j),
            Setting::TcxoVolts => lemma_tcxo_words(i, j),
            Setting::PowerMode => lemma_power_mode_words(i, j),
            _ => lemma_dyn_model_words(i, j),
        }
    }
    match s {
        Setting::Role => lemma_role_words(i, i),
        Setting::TcxoVolts => lemma_tcxo_words(i, i),
        Setting::PowerMode => lemma_power_mode_words(i, i),
        _ => lemma_dyn_model_words(i, i),
    }
    lemma_quoted(words[i]@);
    lemma_which_is(words, i, 0);
}

/// A number in decimal stands in a line as it is.
proof fn lemma_number_plain(n: int)
    ensures
        is_plain(chars::signed_decimal(n)),
{
    let s = chars::signed_decimal(n);
    let d = chars::decimal((if n < 0 { 0 - n } else { n }) as nat);
    chars::lemma_decimal((if n < 0 { 0 - n } else { n }) as nat);
    assert(chars::is_digit(d[0]) && chars::is_digit(d.last()));
    if n < 0 {
        reveal_strlit("-");
        assert(s == "-"@ + d);
        assert(s[0] == '-');
        assert(s.last() == d.last());
        assert forall|i: int| 0 <= i < s.len() implies plain_char(#[trigger] s[i]) by {
            if i > 0 {
                assert(s[i] == d[i - 1]);
                assert(chars::is_digit(d[i - 1]));
            }
        }
    } else {
        assert forall|i: int| 0 <= i < s.len() implies plain_char(#[trigger] s[i]) by {
            assert(chars::is_digit(d[i]));
        }
    }
}

/// The names of the position fields: words without commas that each stand for
/// their own field.
proof fn lemma_field_names(i: int)
    requires
        0 <= i < 7,
    ensures
        ({
            let w = lora::FIELD_NAMES@[i].1@;
            &&& w.len() > 0
            &&& forall|k: int| 0 <= k < w.len() ==> keys::word_char(#[trigger] w[k])
            &&& field_named(w) == Some(lora::FIELD_NAMES@[i].0)
        }),
{
    reveal_strlit("lat");
    reveal_strlit("latitude");
    reveal_strlit("lon");
    reveal_strlit("longitude");
    reveal_strlit("alt");
    reveal_strlit("altitude");
    reveal_strlit("speed");
    reveal_strlit("course");
    reveal_strlit("sats");
    reveal_strlit("time");
    assert("lat"@.len() == 3 && "latitude"@.len() == 8 && "lon"@.len() == 3 && "longitude"@.len() == 9 && "alt"@.len()
        == 3 && "altitude"@.len() == 8 && "speed"@.len() == 5 && "course"@.len() == 6 && "sats"@.len() == 4
        && "time"@.len() == 4);
    assert("lat"@[1] == 'a' && "lon"@[1] == 'o' && "alt"@[1] == 'l');
    assert("latitude"@[0] == 'l' && "altitude"@[0] == 'a' && "sats"@[0] == 's' && "time"@[0] == 't');
}

/// The weight of the `i`-th field.
spec fn weight(i: int) -> int {
    if i >= 7 {
        0x80
    } else {
        lora::FIELD_NAMES@[i].0 as int
    }
}

/// What of a mask lies below the `i`-th field: as much again, and the field
/// itself where it is selected, lies below the next.
proof fn lemma_mask_below(mask: u8, i: int)
    requires
        mask < 0x80,
        0 <= i < 7,
    ensures
        weight(i) > 0,
        0 <= mask as int % weight(i) < 0x80,
        lora::selects(mask, weight(i) as u8) ==> lora::selecting((mask as int % weight(i)) as u8, weight(i) as u8)
            == mask as int % weight(i + 1),
        !lora::selects(mask, weight(i) as u8) ==> mask as int % weight(i) == mask as int % weight(i + 1),
{
    let m = mask as int;
    let w = weight(i);
    lemma_weights(i);
    assert(m % (2 * w) == m % w + (m / w % 2) * w && m % w / w == 0 && 0 <= m % w < w) by {
        lemma_mod_breakdown(m, w, 2);
        lemma_mod_bound(m, w);
        lemma_basic_div(m % w, w);
        lemma_mod_bound(m / w, 2);
        assert(w * (m / w % 2) == (m / w % 2) * w) by (nonlinear_arith);
        assert(w * 2 == 2 * w);
    }
    assert(m / w % 2 == 0 || m / w % 2 == 1) by {
        lemma_mod_bound(m / w, 2);
    }
    assert(m % (2 * w) < 0x80) by {
        lemma_mod_decreases(m as nat, (2 * w) as nat);
    }
    assert((m / w % 2) * w == (if m / w % 2 == 1 { w } else { 0 })) by (nonlinear_arith)
        requires
            m / w % 2 == 0 || m / w % 2 == 1,
    ;
    reveal(lora::selects);
}

/// The weights double from one field to the next.
proof fn lemma_weights(i: int)
    requires
        0 <= i < 7,
    ensures
        1 <= weight(i) <= 64,
        weight(i + 1) == 2 * weight(i),
{
    let f = lora::FIELD_NAMES@;
    assert(f[0].0 == 1 && f[1].0 == 2 && f[2].0 == 4 && f[3].0 == 8 && f[4].0 == 16 && f[5].0 == 32 && f[6].0 == 64);
}

/// Whether `mask` selects a field from the `i`-th on.
spec fn any_from(mask: u8, i: int) -> bool
    decreases 7 - i,
{
    if i >= 7 {
        false
    } else {
        lora::selects(mask, lora::FIELD_NAMES@[i].0) || any_from(mask, i + 1)
    }
}

/// The list of a mask's fields is empty where none is left, and otherwise a
/// comma and the list it would be from the start.
proof fn lemma_field_list(mask: u8, i: int)
    requires
        mask < 0x80,
        0 <= i <= 7,
    ensures
        !any_from(mask, i) ==> lora::field_list(mask, i, false).len() == 0 && mask as int % weight(i) == mask,
        any_from(mask, i) ==> lora::field_list(mask, i, false) == ","@ + lora::field_list(mask, i, true),
    decreases 7 - i,
{
    if i < 7 {
        lemma_field_list(mask, i + 1);
        lemma_mask_below(mask, i);
        if lora::selects(mask, lora::FIELD_NAMES@[i].0) {
            assert(lora::field_list(mask, i, false) =~= ","@ + lora::field_list(mask, i, true));
        }
    }
}

/// A list of fields reads back as the mask it was written from.
proof fn lemma_fields_read_back(mask: u8, i: int)
    requires
        mask < 0x80,
        0 <= i < 7,
        any_from(mask, i),
    ensures
        fields_in((mask as int % weight(i)) as u8, lora::field_list(mask, i, true)) == Some(mask),
        is_list(lora::field_list(mask, i, true)),
    decreases 7 - i,
{
    lemma_mask_below(mask, i);
    let below = (mask as int % weight(i)) as u8;
    if lora::selects(mask, lora::FIELD_NAMES@[i].0) {
        let w = lora::FIELD_NAMES@[i].1@;
        let list = lora::field_list(mask, i, true);
        let rest = lora::field_list(mask, i + 1, false);
        lemma_field_names(i);
        lemma_field_list(mask, i + 1);
        assert(list =~= w + rest);
        assert(keys::word_char(w[0]) && keys::word_char(w.last()));
        chars::lemma_trimmed_is(w);
        if any_from(mask, i + 1) {
            let more = lora::field_list(mask, i + 1, true);
            reveal_strlit(",");
            assert(list[w.len() as int] == ',');
            assert forall|k: int| 0 <= k < w.len() implies list[k] != ',' by {
                assert(list[k] == w[k]);
            }
            chars::lemma_position_is(list, ',', w.len() as int);
            assert(list.take(w.len() as int) =~= w);
            assert(list.skip(w.len() as int + 1) =~= more);
            lemma_fields_read_back(mask, i + 1);
            assert forall|k: int| 0 <= k < list.len() implies list_char(#[trigger] list[k]) by {
                if k < w.len() {
                    assert(list[k] == w[k]);
                } else if k > w.len() {
                    assert(list[k] == more[k - w.len() - 1]);
                }
            }
        } else {
            assert(list =~= w);
            assert forall|k: int| 0 <= k < w.len() implies w[k] != ',' by {
                assert(keys::word_char(w[k]));
            }
            chars::lemma_position_is(list, ',', w.len() as int);
            assert(list.take(w.len() as int) =~= w);
        }
    } else {
        assert(any_from(mask, i + 1));
        assert(!any_from(mask, 7));
        lemma_fields_read_back(mask, i + 1);
    }
}

/// Whether `c` can stand in a list of fields.
spec fn list_char(c: char) -> bool {
    keys::word_char(c) || c == ','
}

/// Whether `s` is made of names and commas.
spec fn is_list(s: Seq<char>) -> bool {
    &&& s.len() > 0
    &&& forall|k: int| 0 <= k < s.len() ==> list_char(#[trigger] s[k])
}

/// A value shown is a value read: what a key writes for a value it takes, it
/// reads back as that value, and it stands in a line as it is.
pub proof fn law_a_value_shown_is_a_value_read(s: Setting, v: Value, line: u32)
    requires
        keys::fits(s.takes(), v),
    ensures
        value_read(s.takes(), respelled(s, keys::shown(s.takes(), v)), line) == Ok::<Value, ConfigError>(v),
        is_plain(keys::shown(s.takes(), v)),
{
    let kind = s.takes();
    match v {
        Value::Int(n) => {
            assert(n > i64::MIN && !(s is PowerMode)) by {
                reveal(Setting::takes);
                if s is BandwidthKhz {
                    assert(n == 62 || n == 125 || n == 250 || n == 500);
                }
            }
            chars::law_decimal_reads_back(n);
            lemma_number_plain(n as int);
        },
        Value::Bool(b) => {
            assert(!(s is PowerMode)) by {
                reveal(Setting::takes);
            }
            reveal_strlit("true");
            reveal_strlit("false");
            assert("true"@.len() == 4 && "false"@.len() == 5);
            assert("true"@[0] == 't' && "true"@[3] == 'e' && "false"@[0] == 'f' && "false"@[4] == 'e');
        },
        Value::Choice(i) => {
            if let Kind::Choice(words) = kind {
                lemma_word_reads_back(s, words@, i as int, line);
            }
        },
        Value::Fields(mask) => {
            assert(!(s is PowerMode)) by {
                reveal(Setting::takes);
            }
            assert(lora::FIELD_NAMES@[0].0 == lora::FIELD_LAT);
            let list = lora::field_list(mask, 0, true);
            lemma_fields_read_back(mask, 0);
            assert(weight(0) == 1);
            reveal_strlit("\"");
            let q = lora::fields_text(mask);
            assert(q =~= seq!['"'] + list + seq!['"']);
            assert(q.subrange(1, q.len() - 1) =~= list);
            assert forall|k: int| 0 <= k < q.len() implies plain_char(#[trigger] q[k]) by {
                if 1 <= k < q.len() - 1 {
                    assert(q[k] == list[k - 1]);
                }
            }
        },
    }
}

/// Every key of the table, written with a value it takes, is a line the
/// parser accepts and reads as that value.
pub proof fn law_a_line_written_is_a_line_read(d: Draft, i: int, v: Value, line: u32)
    requires
        0 <= i < 39,
        keys::fits(KEYS@[i].0.takes(), v),
    ensures
        line_read(d, KEYS@[i].2@ + " = "@ + keys::shown(KEYS@[i].0.takes(), v), line) == Ok::<Draft, ConfigError>(
            drafted(d, KEYS@[i].0, v, line),
        ),
{
    let s = KEYS@[i].0;
    let name = KEYS@[i].2@;
    let shown = keys::shown(s.takes(), v);
    let raw = name + " = "@ + shown;
    law_a_value_shown_is_a_value_read(s, v, line);
    keys::law_a_name_finds_its_row(i, i);
    reveal_strlit(" = ");
    assert(keys::word_char(name[0]) && keys::word_char(name.last()));
    assert forall|k: int| 0 <= k < raw.len() implies raw[k] != '#' by {
        if k < name.len() {
            assert(raw[k] == name[k]);
            assert(keys::word_char(name[k]));
        } else if k >= name.len() + 3 {
            assert(raw[k] == shown[k - name.len() - 3]);
        }
    }
    chars::lemma_position_is(raw, '#', raw.len() as int);
    assert(raw.take(raw.len() as int) =~= raw);
    assert(raw[0] == name[0]);
    assert(raw.last() == shown.last());
    chars::lemma_trimmed_is(raw);
    let e: int = name.len() as int + 1;
    assert(raw[e as int] == '=');
    assert forall|k: int| 0 <= k < e implies raw[k] != '=' by {
        if k < name.len() {
            assert(raw[k] == name[k]);
            assert(keys::word_char(name[k]));
        }
    }
    chars::lemma_position_is(raw, '=', e as int);
    let left = raw.take(e as int);
    assert(left.drop_last() =~= name);
    assert(left[0] == name[0] && left.last() == ' ');
    chars::lemma_trimmed_is(name);
    assert(chars::trimmed(left) == name);
    let right = raw.skip(e + 1);
    assert(right.skip(1) =~= shown);
    assert(right[0] == ' ');
    chars::lemma_trimmed_is(shown);
    assert(chars::trimmed(right) == shown);
}

// -- What a line may be ----------------------------------------------------------

/// A number is a value where the key takes it, out of range where the key does
/// not, and no value where it is none.
pub proof fn law_a_number_is_taken_or_out_of_range(s: Setting, value: Seq<char>, line: u32, n: i64)
    requires
        !(s.takes() is Bool) && !(s.takes() is Choice) && !(s.takes() is Fields),
    ensures
        chars::signed(value) is None ==> value_read(s.takes(), value, line) == Err::<Value, ConfigError>(
            ConfigError::BadValue(line),
        ),
        chars::signed(value) == Some(n) && keys::fits(s.takes(), Value::Int(n)) ==> value_read(s.takes(), value, line)
            == Ok::<Value, ConfigError>(Value::Int(n)),
        chars::signed(value) == Some(n) && !keys::fits(s.takes(), Value::Int(n)) ==> value_read(s.takes(), value, line)
            == Err::<Value, ConfigError>(ConfigError::OutOfRange(line)),
{
}

/// A flag is one of two words, as they stand and not in quotes.
pub proof fn law_a_flag_is_one_of_two_words(value: Seq<char>, line: u32)
    ensures
        value_read(Kind::Bool, "true"@, line) == Ok::<Value, ConfigError>(Value::Bool(true)),
        value_read(Kind::Bool, "false"@, line) == Ok::<Value, ConfigError>(Value::Bool(false)),
        value != "true"@ && value != "false"@ ==> value_read(Kind::Bool, value, line) == Err::<Value, ConfigError>(
            ConfigError::BadValue(line),
        ),
{
    reveal_strlit("true");
    reveal_strlit("false");
    assert("true"@.len() == 4 && "false"@.len() == 5);
}

/// A word is the first of the key's that is spelled so, quotes off, and no
/// value where none is.
pub proof fn law_a_word_is_one_of_the_keys(words: &'static [&'static str], value: Seq<char>, line: u32, i: int)
    requires
        words@.len() <= usize::MAX,
    ensures
        value_read(Kind::Choice(words), value, line) matches Ok(Value::Choice(k)) ==> k < words@.len() && words@[k as int]@
            == chars::unquoted(value) && (0 <= i < k ==> words@[i]@ != chars::unquoted(value)),
        value_read(Kind::Choice(words), value, line) is Err ==> value_read(Kind::Choice(words), value, line) == Err::<
            Value,
            ConfigError,
        >(ConfigError::BadValue(line)) && (0 <= i < words@.len() ==> words@[i]@ != chars::unquoted(value)),
        value_read(Kind::Choice(words), value, line) matches Ok(v) ==> v is Choice,
{
    lemma_which_first(words@, chars::unquoted(value), 0, i);
}

proof fn lemma_which_first(words: Seq<&'static str>, v: Seq<char>, from: int, i: int)
    requires
        0 <= from,
    ensures
        which(words, v, from) matches Some(k) ==> from <= k < words.len() && words[k]@ == v && (from <= i < k
            ==> words[i]@ != v),
        which(words, v, from) is None ==> (from <= i < words.len() ==> words[i]@ != v),
    decreases words.len() - from,
{
    if from < words.len() && words[from]@ != v {
        lemma_which_first(words, v, from + 1, i);
    }
}

/// What each position field is called, and the bit it is; nothing else is a
/// field.
pub proof fn law_what_a_field_is_called(name: Seq<char>)
    ensures
        name == "lat"@ || name == "latitude"@ ==> field_named(name) == Some(0x01u8),
        name == "lon"@ || name == "longitude"@ ==> field_named(name) == Some(0x02u8),
        name == "alt"@ || name == "altitude"@ ==> field_named(name) == Some(0x04u8),
        name == "speed"@ ==> field_named(name) == Some(0x08u8),
        name == "course"@ ==> field_named(name) == Some(0x10u8),
        name == "sats"@ ==> field_named(name) == Some(0x20u8),
        name == "time"@ ==> field_named(name) == Some(0x40u8),
        field_named(name) is Some ==> name == "lat"@ || name == "latitude"@ || name == "lon"@ || name == "longitude"@ || name
            == "alt"@ || name == "altitude"@ || name == "speed"@ || name == "course"@ || name == "sats"@ || name == "time"@,
{
    reveal_strlit("lat");
    reveal_strlit("latitude");
    reveal_strlit("lon");
    reveal_strlit("longitude");
    reveal_strlit("alt");
    reveal_strlit("altitude");
    reveal_strlit("speed");
    reveal_strlit("course");
    reveal_strlit("sats");
    reveal_strlit("time");
    assert("lat"@.len() == 3 && "lon"@.len() == 3 && "alt"@.len() == 3 && "sats"@.len() == 4 && "time"@.len() == 4
        && "speed"@.len() == 5 && "course"@.len() == 6 && "latitude"@.len() == 8 && "altitude"@.len() == 8
        && "longitude"@.len() == 9);
    assert("lat"@[0] == 'l' && "lat"@[1] == 'a' && "lon"@[1] == 'o' && "alt"@[0] == 'a');
    assert("sats"@[0] == 's' && "time"@[0] == 't' && "latitude"@[0] == 'l' && "altitude"@[0] == 'a');
}

/// A list of fields is read name by name: one name selects its field, and more
/// behind a comma select theirs on top.
pub proof fn law_a_field_list_is_read_name_by_name(mask: u8, name: Seq<char>, rest: Seq<char>)
    requires
        forall|i: int| 0 <= i < name.len() ==> name[i] != ',',
    ensures
        field_named(chars::trimmed(name)) is None ==> fields_in(mask, name) is None && fields_in(
            mask,
            name + seq![','] + rest,
        ) is None,
        field_named(chars::trimmed(name)) matches Some(bit) ==> fields_in(mask, name) == Some(lora::selecting(mask, bit))
            && fields_in(mask, name + seq![','] + rest) == fields_in(lora::selecting(mask, bit), rest),
{
    chars::lemma_position_is(name, ',', name.len() as int);
    assert(name.take(name.len() as int) =~= name);
    let list = name + seq![','] + rest;
    assert forall|i: int| 0 <= i < name.len() implies list[i] != ',' by {
        assert(list[i] == name[i]);
    }
    assert(list[name.len() as int] == ',');
    chars::lemma_position_is(list, ',', name.len() as int);
    assert(list.take(name.len() as int) =~= name);
    assert(list.skip(name.len() as int + 1) =~= rest);
}

/// A broadcast without a position is out of range: a list of fields has to
/// select both of its halves.
pub proof fn law_a_field_list_holds_the_position(value: Seq<char>, line: u32, mask: u8)
    requires
        fields_in(0, chars::unquoted(value)) == Some(mask),
    ensures
        value_read(Kind::Fields, value, line) == (if mask % 4 == 3 {
            Ok::<Value, ConfigError>(Value::Fields(mask))
        } else {
            Err::<Value, ConfigError>(ConfigError::OutOfRange(line))
        }),
{
    reveal(lora::selects);
}

/// The long spellings of two power modes stand for the short ones, quoted or
/// not; every other value of every key is read as it stands, but for the
/// quotes of a power mode.
pub proof fn law_two_power_modes_have_a_long_spelling(s: Setting, value: Seq<char>)
    ensures
        !(s is PowerMode) ==> respelled(s, value) == value,
        chars::unquoted(value) == "psm_onoff"@ ==> respelled(Setting::PowerMode, value) == "psmoo"@,
        chars::unquoted(value) == "psm_cyclic"@ ==> respelled(Setting::PowerMode, value) == "psmct"@,
        chars::unquoted(value) != "psm_onoff"@ && chars::unquoted(value) != "psm_cyclic"@ ==> respelled(
            Setting::PowerMode,
            value,
        ) == chars::unquoted(value),
{
    reveal_strlit("psm_onoff");
    reveal_strlit("psm_cyclic");
    assert("psm_onoff"@.len() == 9 && "psm_cyclic"@.len() == 10);
}

/// A lifetime counts transmissions, so it allows one hop less than it says, and
/// no more than the most there are; one that is not 1 to 16 is out of range.
pub proof fn law_a_lifetime_is_one_more_than_its_hops(d: Draft, value: Seq<char>, line: u32, v: u64)
    ensures
        ({
            let r = assigned(d, "lifetime"@, value, line);
            &&& chars::unsigned(value) is None ==> r == Err::<Draft, ConfigError>(ConfigError::BadValue(line))
            &&& chars::unsigned(value) == Some(v) && (v == 0 || v > 16) ==> r == Err::<Draft, ConfigError>(
                ConfigError::OutOfRange(line),
            )
            &&& chars::unsigned(value) == Some(v) && 1 <= v <= 9 ==> r is Ok && r->Ok_0.cfg.max_hops == v - 1
            &&& chars::unsigned(value) == Some(v) && 9 <= v <= 16 ==> r is Ok && r->Ok_0.cfg.max_hops == 8
            &&& r is Ok ==> r->Ok_0 == (Draft {
                cfg: RadioConfig { max_hops: r->Ok_0.cfg.max_hops, ..d.cfg },
                ..d
            })
        }),
{
    keys::law_the_retired_words_are_no_keys();
}

/// The key of the card that is gone is read and ignored where it says what it
/// could, and refused where it does not.
pub proof fn law_a_key_that_is_gone_is_still_a_flag(d: Draft, value: Seq<char>, line: u32)
    ensures
        value == "true"@ || value == "false"@ ==> assigned(d, "sd_enabled"@, value, line) == Ok::<Draft, ConfigError>(d),
        value != "true"@ && value != "false"@ ==> assigned(d, "sd_enabled"@, value, line) == Err::<Draft, ConfigError>(
            ConfigError::BadValue(line),
        ),
{
    keys::law_the_retired_words_are_no_keys();
    reveal_strlit("lifetime");
    reveal_strlit("sd_enabled");
    assert("lifetime"@.len() == 8 && "sd_enabled"@.len() == 10);
}

/// What is no line: text without an equals sign, with nothing before it or
/// behind it, or a section header that does not close.
pub proof fn law_what_is_no_line(d: Draft, raw: Seq<char>, line: u32)
    requires
        raw.len() > 0,
        forall|i: int| 0 <= i < raw.len() ==> raw[i] != '#',
        !chars::is_space(raw[0]) && !chars::is_space(raw.last()),
    ensures
        raw[0] == '[' && raw.last() == ']' ==> line_read(d, raw, line) == Ok::<Draft, ConfigError>(d),
        raw[0] == '[' && raw.last() != ']' ==> line_read(d, raw, line) == Err::<Draft, ConfigError>(
            ConfigError::Syntax(line),
        ),
        (forall|i: int| 0 <= i < raw.len() ==> raw[i] != '=') && raw[0] != '[' ==> line_read(d, raw, line) == Err::<
            Draft,
            ConfigError,
        >(ConfigError::Syntax(line)),
        raw[0] == '=' ==> line_read(d, raw, line) == Err::<Draft, ConfigError>(ConfigError::Syntax(line)),
        raw[0] != '[' && raw.last() == '=' && (forall|i: int| 0 <= i < raw.len() - 1 ==> raw[i] != '=') ==> line_read(
            d,
            raw,
            line,
        ) == Err::<Draft, ConfigError>(ConfigError::Syntax(line)),
{
    chars::lemma_position_is(raw, '#', raw.len() as int);
    assert(raw.take(raw.len() as int) =~= raw);
    chars::lemma_trimmed_is(raw);
    let none = Seq::<char>::empty();
    chars::lemma_trimmed_is(none);
    if forall|i: int| 0 <= i < raw.len() ==> raw[i] != '=' {
        chars::lemma_position_is(raw, '=', raw.len() as int);
    }
    if raw[0] == '=' {
        chars::lemma_position_is(raw, '=', 0);
        assert(raw.take(0) =~= none);
    }
    if raw.last() == '=' && (forall|i: int| 0 <= i < raw.len() - 1 ==> raw[i] != '=') {
        chars::lemma_position_is(raw, '=', raw.len() - 1);
        assert(raw.skip(raw.len() as int) =~= none);
    }
}

/// What stands behind a number sign is a comment: a line reads as what stands
/// before it.
pub proof fn law_a_comment_is_read_over(d: Draft, raw: Seq<char>, comment: Seq<char>, line: u32)
    requires
        forall|i: int| 0 <= i < raw.len() ==> raw[i] != '#',
    ensures
        line_read(d, raw + seq!['#'] + comment, line) == line_read(d, raw, line),
{
    let whole = raw + seq!['#'] + comment;
    chars::lemma_position_is(raw, '#', raw.len() as int);
    assert forall|i: int| 0 <= i < raw.len() implies whole[i] != '#' by {
        assert(whole[i] == raw[i]);
    }
    assert(whole[raw.len() as int] == '#');
    chars::lemma_position_is(whole, '#', raw.len() as int);
    assert(whole.take(raw.len() as int) =~= raw.take(raw.len() as int));
}

/// Lines are counted one more than their breaks.
pub proof fn law_lines_are_one_more_than_their_breaks(head: Seq<char>, tail: Seq<char>)
    ensures
        lines(Seq::empty()) == 1,
        lines(head + seq!['\n'] + tail) == lines(head) + lines(tail),
        one_line(head) ==> lines(head) == 1,
    decreases head.len(),
{
    let none = Seq::<char>::empty();
    chars::lemma_position(none, '\n');
    let whole = head + seq!['\n'] + tail;
    let n = chars::position(head, '\n');
    chars::lemma_position(head, '\n');
    assert forall|i: int| 0 <= i < n implies whole[i] != '\n' by {
        assert(whole[i] == head[i]);
    }
    assert(whole[n] == '\n');
    chars::lemma_position_is(whole, '\n', n);
    if n < head.len() {
        assert(whole.skip(n + 1) =~= head.skip(n + 1) + seq!['\n'] + tail);
        law_lines_are_one_more_than_their_breaks(head.skip(n + 1), tail);
    } else {
        assert(whole.skip(n + 1) =~= tail);
    }
}

/// A plan is in range where its lowest carrier is no lower than 150 MHz and its
/// highest no higher than 960 MHz; a dedup window fits up to 200 beacons, and
/// where there are none.
pub proof fn law_what_a_config_may_ask_for(c: RadioConfig)
    ensures
        plan_in_range(c) <==> plan_of(c).carrier(0) >= 150_000_000 && plan_of(c).carrier(
            (if c.hop_channels == 0 {
                0
            } else {
                c.hop_channels - 1
            }) as u8,
        ) <= 960_000_000,
        c.beacon_interval_s == 0 ==> window_fits(c),
        c.beacon_interval_s > 0 ==> (window_fits(c) <==> c.dedup_ttl_s <= 200 * c.beacon_interval_s),
        plan_of(c).channels == c.hop_channels && plan_of(c).step_khz == c.hop_step_khz && plan_of(c).center_hz
            == c.frequency_hz && plan_of(c).dwell_ms == c.hop_dwell_ms,
{
}

/// What is wrong with a file as a whole: a plan out of range is blamed on the
/// last line that shaped it, before a window that does not fit, which is
/// blamed on the line that set it, or else on the one that set the interval.
pub proof fn law_who_is_blamed_for_a_file(d: Draft)
    ensures
        plan_in_range(d.cfg) && window_fits(d.cfg) ==> settled(d) == Ok::<RadioConfig, ConfigError>(d.cfg),
        !plan_in_range(d.cfg) ==> settled(d) == Err::<RadioConfig, ConfigError>(ConfigError::OutOfRange(d.hop_line)),
        plan_in_range(d.cfg) && !window_fits(d.cfg) && d.ttl_line > 0 ==> settled(d) == Err::<RadioConfig, ConfigError>(
            ConfigError::OutOfRange(d.ttl_line),
        ),
        plan_in_range(d.cfg) && !window_fits(d.cfg) && d.ttl_line == 0 ==> settled(d) == Err::<RadioConfig, ConfigError>(
            ConfigError::OutOfRange(d.interval_line),
        ),
{
}

/// A line is remembered where it shaped the plan, set the window or set the
/// interval, and nowhere else.
pub proof fn law_which_lines_are_remembered(d: Draft, s: Setting, v: Value, line: u32)
    ensures
        ({
            let r = drafted(d, s, v, line);
            &&& r.cfg == moved(d.cfg, s, v)
            &&& s is FrequencyHz || s is HopChannels || s is HopStepKhz ==> r.hop_line == line
            &&& !(s is FrequencyHz || s is HopChannels || s is HopStepKhz) ==> r.hop_line == d.hop_line
            &&& s is DedupTtlS ==> r.ttl_line == line
            &&& !(s is DedupTtlS) ==> r.ttl_line == d.ttl_line
            &&& s is IntervalS ==> r.interval_line == line
            &&& !(s is IntervalS) ==> r.interval_line == d.interval_line
        }),
{
}

/// A file of one line is that line on top of the defaults, and an empty file
/// is the defaults.
pub proof fn law_a_file_starts_from_the_defaults(raw: Seq<char>)
    requires
        one_line(raw),
    ensures
        parsed(Seq::empty()) == Ok::<RadioConfig, ConfigError>(radiocfg::radio_defaults()),
        parsed(raw) == (match line_read(unread(), raw, 1) {
            Ok(d) => settled(d),
            Err(e) => Err(e),
        }),
        unread().cfg == radiocfg::radio_defaults() && unread().hop_line == 0 && unread().ttl_line == 0
            && unread().interval_line == 0,
{
    let none = Seq::<char>::empty();
    chars::lemma_position(none, '\n');
    chars::lemma_position(none, '#');
    chars::lemma_trimmed_is(none);
    assert(none.take(0) =~= none);
    lemma_defaults_bounded();
    chars::lemma_position_is(raw, '\n', raw.len() as int);
    assert(raw.take(raw.len() as int) =~= raw);
}

/// A file that is not text is refused as that, and one that is reads as its
/// text; plain ASCII is its own text.
pub proof fn law_a_file_is_its_text(b: Seq<u8>)
    ensures
        !valid_utf8(b) ==> read_bytes(b) == Err::<RadioConfig, ConfigError>(ConfigError::Utf8),
        valid_utf8(b) ==> read_bytes(b) == parsed(decode_utf8(b)),
        crate::text::is_ascii_bytes(b) ==> read_bytes(b) == parsed(crate::text::ascii_chars(b)),
{
    if crate::text::is_ascii_bytes(b) {
        crate::text::lemma_ascii_text(b);
    }
}

} // verus!
