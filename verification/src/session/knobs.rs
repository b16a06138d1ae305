//! The five durations an app can set, described once.
//!
//! The wake-check cadence, the advertising window, the modem's off and on
//! periods, the idle timeout: [`Knob::spec`] says where each one sits in the
//! flash record and in the BLE settings blob, which config id writes it, what
//! its bounds are and what a stored zero means. The record, the blob, the
//! config write and the `[power]` section of the config file are all driven
//! from it.

use vstd::prelude::*;
use crate::ble;
use crate::ble::{NAME_FIELD_LEN, Settings};
use crate::chars::{chars_of, same};
use crate::session::Stored;
use crate::time;

verus! {

/// One of the five durations.
///
/// The order is the order of [`KNOBS`], and the order the durations were
/// added to the record - which is what the record's version ladder reads.
#[derive(Clone, Copy, Debug, PartialEq, Eq, Hash, Structural)]
pub enum Knob {
    /// Seconds between deep-sleep wake checks while stored, 0 = the board
    /// never stores itself on its own.
    SleepInterval,
    /// Seconds each wake check advertises for.
    AdvWindow,
    /// Seconds the modem stays down between windows while tracking, 0 =
    /// never take it down.
    BleOff,
    /// Seconds idle lasts before the board stores itself, 0 = never.
    IdleTimeout,
    /// Seconds the modem stays up between off periods while tracking.
    BleOn,
}

/// The table's rows, each named by its knob: [`Knob::spec`] gives the row.
pub const KNOBS: [Knob; 5] = Knob::ALL;

/// What a stored zero means for a knob.
#[derive(Clone, Copy, Debug, PartialEq, Eq, Structural)]
pub enum Zero {
    /// Zero is a setting - off - and is stored and read as zero.
    Off,
    /// Zero is "never configured": a write is clamped up to the floor so
    /// zero is never stored, and a record that holds one anyway reads as
    /// this default.
    Default(u32),
}

/// Everything the code needs to know about a duration.
#[derive(Clone, Copy, Debug)]
pub struct KnobSpec {
    pub knob: Knob,
    /// The config-file key, which is also the name on the console.
    pub name: &'static str,
    /// The config characteristic id that writes it.
    pub id: u8,
    /// Floor a non-zero value is clamped to.
    pub min: u32,
    /// Ceiling it is clamped to.
    pub max: u32,
    pub zero: Zero,
    /// The record version that appended it.
    pub since: u32,
    /// Byte offset in the flash record.
    pub record_at: usize,
    /// Byte offset in the BLE settings blob.
    pub wire_at: usize,
    /// One line for the config file and the app.
    pub doc: &'static str,
}

/// Where the BLE on period sits in the record: after the name, which is where
/// version 6 ended.
pub const BLE_ON_AT: usize = 32 + NAME_FIELD_LEN;

/// What the wake-check cadence is for. The range it quotes is wider than the
/// one enforced: a value past [`ble::ESP_SLEEP_MAX_S`], five minutes, is
/// clamped to it, which is also the 300 s default the text speaks of.
pub const SLEEP_INTERVAL_DOC: &'static str = "Seconds between wake checks while the board is stored, 0 or 5-3600. 0 means the board never stores itself on its own: with no cadence to sleep on, the idle timeout has nowhere to send it and it stays awake and reachable. That is the bench setting. A board explicitly told to store itself still sleeps, on a 300 s default. Deep sleep takes the whole chip down rather than just the BLE controller, so it is the larger saving and the larger cost: the board stops beaconing, stops logging, and every wake is a full reset. With wake_enabled on in the radio config the radio keeps listening for a wake frame through the sleep, so this cadence is a backstop and an hour is a fine value; with it off, this is the only way back in. Ignored while tracking - a tracker that deep-sleeps is not tracking.";

/// What the advertising window is for.
pub const ADV_WINDOW_DOC: &'static str = "Seconds each wake check advertises, 0 or 1-60. 0 means the firmware default of 15 s. This is the whole of the time a stored board is reachable, so it and sleep_interval_s together are what a phone has to catch. With sleep_interval_s at 0 the board advertises forever and the window never ends.";

/// What the modem's off period is for.
pub const BLE_OFF_DOC: &'static str = "Seconds the BLE controller is powered down between advertising windows, 0 or 5-300. This is the biggest single saving the firmware has: the controller is about 71 mA of the board's 126 and nothing but ending its lifetime reduces it, so the board drops to about 60 mA for this long and is unreachable over BLE while it does. LoRa, GPS and logging keep running throughout, so it is still a working tracker. 0 keeps BLE up continuously. Read while tracking only.";

/// What the idle timeout is for.
pub const IDLE_TIMEOUT_DOC: &'static str = "Seconds the board stays reachable-but-not-tracking before it stores itself, 0 or 10-3600. 0 is the default and means it never does: an idle board stays idle until it is told otherwise. Idle is the expensive state - BLE dominates it at around 90 mA - so set this for a board that could be forgotten idle. It also needs sleep_interval_s: with no cadence to wake on the board cannot store itself and stays reachable.";

/// What the modem's on period is for.
pub const BLE_ON_DOC: &'static str = "Seconds BLE stays up between off periods while tracking, 0 or 1-60. 0 means the firmware default of 15 s. The on-half of the ble_off_s duty cycle: long enough for a phone to connect, read the roster and let go. Only read while tracking, and only with ble_off_s set.";

impl Knob {
    /// Every knob, in the order of the enum.
    pub const ALL: [Knob; 5] = [
        Knob::SleepInterval,
        Knob::AdvWindow,
        Knob::BleOff,
        Knob::IdleTimeout,
        Knob::BleOn,
    ];

    /// The knob's row of the table.
    pub open spec fn row(self) -> KnobSpec {
        match self {
            Knob::SleepInterval => KnobSpec {
                knob: self,
                name: "sleep_interval_s",
                id: ble::CFG_ESP_SLEEP_S,
                min: ble::ESP_SLEEP_MIN_S,
                max: ble::ESP_SLEEP_MAX_S,
                zero: Zero::Off,
                since: 2,
                record_at: 8,
                wire_at: 4,
                doc: SLEEP_INTERVAL_DOC,
            },
            Knob::AdvWindow => KnobSpec {
                knob: self,
                name: "adv_window_s",
                id: ble::CFG_ESP_ADV_WINDOW_S,
                min: ble::ESP_ADV_MIN_S,
                max: ble::ESP_ADV_MAX_S,
                zero: Zero::Default(ble::ESP_ADV_DEFAULT_S),
                since: 3,
                record_at: 16,
                wire_at: 12,
                doc: ADV_WINDOW_DOC,
            },
            Knob::BleOff => KnobSpec {
                knob: self,
                name: "ble_off_s",
                id: ble::CFG_BLE_OFF_S,
                min: ble::BLE_OFF_MIN_S,
                max: ble::BLE_OFF_MAX_S,
                zero: Zero::Off,
                since: 4,
                record_at: 20,
                wire_at: 16,
                doc: BLE_OFF_DOC,
            },
            Knob::IdleTimeout => KnobSpec {
                knob: self,
                name: "idle_timeout_s",
                id: ble::CFG_IDLE_TIMEOUT_S,
                min: ble::IDLE_TIMEOUT_MIN_S,
                max: ble::IDLE_TIMEOUT_MAX_S,
                zero: Zero::Off,
                since: 5,
                record_at: 28,
                wire_at: 20,
                doc: IDLE_TIMEOUT_DOC,
            },
            Knob::BleOn => KnobSpec {
                knob: self,
                name: "ble_on_s",
                id: ble::CFG_BLE_ON_S,
                min: ble::BLE_ON_MIN_S,
                max: ble::BLE_ON_MAX_S,
                zero: Zero::Default(ble::BLE_ON_DEFAULT_S),
                since: 7,
                record_at: BLE_ON_AT,
                wire_at: 24,
                doc: BLE_ON_DOC,
            },
        }
    }

    /// The knob's row of the table.
    pub fn spec(self) -> (r: KnobSpec)
        ensures
            r == self.row(),
    {
        match self {
            Knob::SleepInterval => KnobSpec {
                knob: self,
                name: "sleep_interval_s",
                id: ble::CFG_ESP_SLEEP_S,
                min: ble::ESP_SLEEP_MIN_S,
                max: ble::ESP_SLEEP_MAX_S,
                zero: Zero::Off,
                since: 2,
                record_at: 8,
                wire_at: 4,
                doc: SLEEP_INTERVAL_DOC,
            },
            Knob::AdvWindow => KnobSpec {
                knob: self,
                name: "adv_window_s",
                id: ble::CFG_ESP_ADV_WINDOW_S,
                min: ble::ESP_ADV_MIN_S,
                max: ble::ESP_ADV_MAX_S,
                zero: Zero::Default(ble::ESP_ADV_DEFAULT_S),
                since: 3,
                record_at: 16,
                wire_at: 12,
                doc: ADV_WINDOW_DOC,
            },
            Knob::BleOff => KnobSpec {
                knob: self,
                name: "ble_off_s",
                id: ble::CFG_BLE_OFF_S,
                min: ble::BLE_OFF_MIN_S,
                max: ble::BLE_OFF_MAX_S,
                zero: Zero::Off,
                since: 4,
                record_at: 20,
                wire_at: 16,
                doc: BLE_OFF_DOC,
            },
            Knob::IdleTimeout => KnobSpec {
                knob: self,
                name: "idle_timeout_s",
                id: ble::CFG_IDLE_TIMEOUT_S,
                min: ble::IDLE_TIMEOUT_MIN_S,
                max: ble::IDLE_TIMEOUT_MAX_S,
                zero: Zero::Off,
                since: 5,
                record_at: 28,
                wire_at: 20,
                doc: IDLE_TIMEOUT_DOC,
            },
            Knob::BleOn => KnobSpec {
                knob: self,
                name: "ble_on_s",
                id: ble::CFG_BLE_ON_S,
                min: ble::BLE_ON_MIN_S,
                max: ble::BLE_ON_MAX_S,
                zero: Zero::Default(ble::BLE_ON_DEFAULT_S),
                since: 7,
                record_at: BLE_ON_AT,
                wire_at: 24,
                doc: BLE_ON_DOC,
            },
        }
    }

    /// The knob a config id writes.
    pub open spec fn of_id(id: u8) -> Option<Knob> {
        if id == ble::CFG_ESP_SLEEP_S {
            Some(Knob::SleepInterval)
        } else if id == ble::CFG_ESP_ADV_WINDOW_S {
            Some(Knob::AdvWindow)
        } else if id == ble::CFG_BLE_OFF_S {
            Some(Knob::BleOff)
        } else if id == ble::CFG_IDLE_TIMEOUT_S {
            Some(Knob::IdleTimeout)
        } else if id == ble::CFG_BLE_ON_S {
            Some(Knob::BleOn)
        } else {
            None
        }
    }

    /// The knob a config id writes, if it is one.
    pub fn from_id(id: u8) -> (r: Option<Knob>)
        ensures
            r == Knob::of_id(id),
            forall|k: Knob| r == Some(k) <==> k.row().id == id,
    {
        if id == ble::CFG_ESP_SLEEP_S {
            Some(Knob::SleepInterval)
        } else if id == ble::CFG_ESP_ADV_WINDOW_S {
            Some(Knob::AdvWindow)
        } else if id == ble::CFG_BLE_OFF_S {
            Some(Knob::BleOff)
        } else if id == ble::CFG_IDLE_TIMEOUT_S {
            Some(Knob::IdleTimeout)
        } else if id == ble::CFG_BLE_ON_S {
            Some(Knob::BleOn)
        } else {
            None
        }
    }

    /// The names are five different words.
    proof fn lemma_names_differ(a: Knob, b: Knob)
        requires
            a.row().name@ == b.row().name@,
        ensures
            a == b,
    {
        reveal_strlit("sleep_interval_s");
        reveal_strlit("adv_window_s");
        reveal_strlit("ble_off_s");
        reveal_strlit("idle_timeout_s");
        reveal_strlit("ble_on_s");
        assert("sleep_interval_s"@.len() == 16 && "adv_window_s"@.len() == 12 && "ble_off_s"@.len() == 9
            && "idle_timeout_s"@.len() == 14 && "ble_on_s"@.len() == 8);
    }

    /// The knob a config-file key names, if it is one.
    pub fn from_name(name: &str) -> (r: Option<Knob>)
        ensures
            forall|k: Knob| r == Some(k) <==> #[trigger] k.row().name@ == name@,
    {
        let word: Vec<char> = chars_of(name);
        let mut i: usize = 0;
        while i < 5
            invariant
                i <= 5,
                word@ == name@,
                forall|j: int| 0 <= j < i ==> #[trigger] KNOBS@[j].row().name@ != name@,
            decreases 5 - i,
        {
            let knob: Knob = KNOBS[i];
            if same(word.as_slice(), knob.spec().name) {
                assert forall|k: Knob| Some(knob) == Some(k) <==> #[trigger] k.row().name@ == name@ by {
                    if k.row().name@ == name@ {
                        Self::lemma_names_differ(knob, k);
                    }
                }
                return Some(knob);
            }
            i += 1;
        }
        assert forall|k: Knob| #[trigger] k.row().name@ != name@ by {
            assert(KNOBS@[0].row().name@ != name@);
            assert(KNOBS@[1].row().name@ != name@);
            assert(KNOBS@[2].row().name@ != name@);
            assert(KNOBS@[3].row().name@ != name@);
            assert(KNOBS@[4].row().name@ != name@);
        }
        None
    }

    /// The value a write of `asked` stores.
    pub open spec fn kept(self, asked: u32) -> u32 {
        if asked == 0 && self.row().zero is Off {
            0
        } else {
            time::clamped(asked as int, self.row().min as int, self.row().max as int) as u32
        }
    }

    /// The value a stored `raw` means.
    pub open spec fn meant(self, raw: u32) -> u32 {
        match self.row().zero {
            Zero::Default(d) => if raw == 0 {
                d
            } else {
                raw
            },
            Zero::Off => raw,
        }
    }
}

/// The settings blob's value for a knob.
pub open spec fn wire_value(w: Settings, knob: Knob) -> u32 {
    match knob {
        Knob::SleepInterval => w.sleep_interval_s,
        Knob::AdvWindow => w.adv_window_s,
        Knob::BleOff => w.ble_off_s,
        Knob::IdleTimeout => w.idle_timeout_s,
        Knob::BleOn => w.ble_on_s,
    }
}

/// The settings blob with a knob at `v`.
pub open spec fn wire_with(w: Settings, knob: Knob, v: u32) -> Settings {
    match knob {
        Knob::SleepInterval => Settings { sleep_interval_s: v, ..w },
        Knob::AdvWindow => Settings { adv_window_s: v, ..w },
        Knob::BleOff => Settings { ble_off_s: v, ..w },
        Knob::IdleTimeout => Settings { idle_timeout_s: v, ..w },
        Knob::BleOn => Settings { ble_on_s: v, ..w },
    }
}

impl KnobSpec {
    /// The value a write of `asked` stores.
    pub open spec fn stores(self, asked: u32) -> int {
        if asked == 0 && self.zero is Off {
            0
        } else {
            time::clamped(asked as int, self.min as int, self.max as int)
        }
    }

    /// The value a stored `raw` means.
    pub open spec fn means(self, raw: u32) -> u32 {
        match self.zero {
            Zero::Default(d) => if raw == 0 {
                d
            } else {
                raw
            },
            Zero::Off => raw,
        }
    }

    /// Whether a config file may carry `v`.
    pub open spec fn allows(self, v: int) -> bool {
        v == 0 || self.min <= v <= self.max
    }

    /// The value a write of `asked` stores: clamped to the bounds, but for
    /// the zero of a knob that has an off.
    pub fn clamp(&self, asked: u32) -> (r: u32)
        requires
            self.min <= self.max,
        ensures
            r == self.stores(asked),
    {
        if asked == 0 && matches!(self.zero, Zero::Off) {
            0
        } else if asked < self.min {
            self.min
        } else if asked > self.max {
            self.max
        } else {
            asked
        }
    }

    /// The value a stored `raw` means.
    pub fn resolve(&self, raw: u32) -> (r: u32)
        ensures
            r == self.means(raw),
    {
        match self.zero {
            Zero::Default(d) => if raw == 0 {
                d
            } else {
                raw
            },
            Zero::Off => raw,
        }
    }

    /// Whether `v` is a value a config file may carry: zero, or inside the
    /// bounds. A file is read once and edited by hand, so anything else is
    /// reported rather than clamped.
    pub fn accepts(&self, v: u64) -> (r: bool)
        ensures
            r == self.allows(v as int),
    {
        v == 0 || (self.min as u64 <= v && v <= self.max as u64)
    }

    /// The settings' raw value for this knob.
    pub fn get(&self, s: &Stored) -> (r: u32)
        ensures
            r == s.raw(self.knob),
    {
        match self.knob {
            Knob::SleepInterval => s.sleep_interval_s,
            Knob::AdvWindow => s.adv_window_s,
            Knob::BleOff => s.ble_off_s,
            Knob::IdleTimeout => s.idle_timeout_s,
            Knob::BleOn => s.ble_on_s,
        }
    }

    /// Set the settings' raw value for this knob.
    pub fn set(&self, s: &mut Stored, v: u32)
        ensures
            *final(s) == old(s).with_raw(self.knob, v),
    {
        match self.knob {
            Knob::SleepInterval => {
                s.sleep_interval_s = v;
            },
            Knob::AdvWindow => {
                s.adv_window_s = v;
            },
            Knob::BleOff => {
                s.ble_off_s = v;
            },
            Knob::IdleTimeout => {
                s.idle_timeout_s = v;
            },
            Knob::BleOn => {
                s.ble_on_s = v;
            },
        }
    }

    /// The settings blob's value for this knob.
    pub fn wire_get(&self, w: &Settings) -> (r: u32)
        ensures
            r == wire_value(*w, self.knob),
    {
        match self.knob {
            Knob::SleepInterval => w.sleep_interval_s,
            Knob::AdvWindow => w.adv_window_s,
            Knob::BleOff => w.ble_off_s,
            Knob::IdleTimeout => w.idle_timeout_s,
            Knob::BleOn => w.ble_on_s,
        }
    }

    /// Set the settings blob's value for this knob.
    pub fn wire_set(&self, w: &mut Settings, v: u32)
        ensures
            *final(w) == wire_with(*old(w), self.knob, v),
    {
        match self.knob {
            Knob::SleepInterval => {
                w.sleep_interval_s = v;
            },
            Knob::AdvWindow => {
                w.adv_window_s = v;
            },
            Knob::BleOff => {
                w.ble_off_s = v;
            },
            Knob::IdleTimeout => {
                w.idle_timeout_s = v;
            },
            Knob::BleOn => {
                w.ble_on_s = v;
            },
        }
    }
}

/// One row per knob: distinct ids, names and offsets, the offsets on word
/// boundaries inside both layouts, bounds in order, and a default inside
/// them.
pub proof fn law_the_table_is_consistent(a: Knob, b: Knob)
    ensures
        a.row().knob == a,
        a.row().id == b.row().id ==> a == b,
        a.row().name@ == b.row().name@ ==> a == b,
        a.row().record_at == b.row().record_at ==> a == b,
        a.row().wire_at == b.row().wire_at ==> a == b,
        a.row().record_at % 4 == 0,
        a.row().wire_at % 4 == 0,
        a.row().record_at + 4 <= crate::session::RECORD_LEN - 4,
        a.row().wire_at + 4 <= ble::SETTINGS_LEN,
        a.row().min <= a.row().max,
        a.row().zero matches Zero::Default(d) ==> a.row().min <= d <= a.row().max,
        exists|i: int| 0 <= i < 5 && #[trigger] KNOBS@[i] == a,
{
    if a.row().name@ == b.row().name@ {
        Knob::lemma_names_differ(a, b);
    }
    assert(KNOBS@[0] == Knob::SleepInterval);
    assert(KNOBS@[1] == Knob::AdvWindow);
    assert(KNOBS@[2] == Knob::BleOff);
    assert(KNOBS@[3] == Knob::IdleTimeout);
    assert(KNOBS@[4] == Knob::BleOn);
}

/// What a write stores is what a read means: a clamped value is inside the
/// bounds, or the zero of a knob that has an off, and it resolves to itself.
pub proof fn law_a_written_value_is_the_one_used(k: Knob, asked: u32)
    ensures
        k.kept(asked) == 0 ==> k.row().zero is Off && asked == 0,
        k.kept(asked) != 0 ==> k.row().min <= k.kept(asked) <= k.row().max,
        k.row().min <= asked <= k.row().max ==> k.kept(asked) == asked,
        k.meant(k.kept(asked)) == k.kept(asked),
        k.kept(k.kept(asked)) == k.kept(asked),
{
}

/// What each knob is called, written by and kept at, and since when.
pub proof fn law_where_a_knob_stands()
    ensures
        Knob::SleepInterval.row().id == 0x13 && Knob::AdvWindow.row().id == 0x14 && Knob::BleOff.row().id == 0x16
            && Knob::IdleTimeout.row().id == 0x18 && Knob::BleOn.row().id == 0x1A,
        Knob::SleepInterval.row().name@ == "sleep_interval_s"@ && Knob::AdvWindow.row().name@ == "adv_window_s"@
            && Knob::BleOff.row().name@ == "ble_off_s"@ && Knob::IdleTimeout.row().name@ == "idle_timeout_s"@
            && Knob::BleOn.row().name@ == "ble_on_s"@,
        Knob::SleepInterval.row().record_at == 8 && Knob::AdvWindow.row().record_at == 16 && Knob::BleOff.row().record_at
            == 20 && Knob::IdleTimeout.row().record_at == 28 && Knob::BleOn.row().record_at == 48,
        Knob::SleepInterval.row().wire_at == 4 && Knob::AdvWindow.row().wire_at == 12 && Knob::BleOff.row().wire_at == 16
            && Knob::IdleTimeout.row().wire_at == 20 && Knob::BleOn.row().wire_at == 24,
        Knob::SleepInterval.row().since == 2 && Knob::AdvWindow.row().since == 3 && Knob::BleOff.row().since == 4
            && Knob::IdleTimeout.row().since == 5 && Knob::BleOn.row().since == 7,
{
}

/// The id that writes a knob is the one its row names, and no other id writes
/// one.
pub proof fn law_an_id_writes_its_knob(id: u8, k: Knob)
    ensures
        Knob::of_id(id) == Some(k) <==> k.row().id == id,
        Knob::of_id(id) is Some <==> id == 0x13 || id == 0x14 || id == 0x16 || id == 0x18 || id == 0x1A,
{
}

/// What a write of each knob stores: the value asked for where the knob takes
/// it, the nearest one it takes where not, and nothing for a zero where
/// nothing is a setting.
pub proof fn law_what_a_knob_takes(asked: u32)
    ensures
        asked == 0 ==> Knob::SleepInterval.kept(asked) == 0 && Knob::BleOff.kept(asked) == 0 && Knob::IdleTimeout.kept(asked)
            == 0 && Knob::AdvWindow.kept(asked) == 1 && Knob::BleOn.kept(asked) == 1,
        1 <= asked <= 60 ==> Knob::AdvWindow.kept(asked) == asked && Knob::BleOn.kept(asked) == asked,
        asked >= 60 ==> Knob::AdvWindow.kept(asked) == 60 && Knob::BleOn.kept(asked) == 60,
        1 <= asked <= 5 ==> Knob::SleepInterval.kept(asked) == 5 && Knob::BleOff.kept(asked) == 5,
        5 <= asked <= 300 ==> Knob::SleepInterval.kept(asked) == asked && Knob::BleOff.kept(asked) == asked,
        asked >= 300 ==> Knob::SleepInterval.kept(asked) == 300 && Knob::BleOff.kept(asked) == 300,
        1 <= asked <= 10 ==> Knob::IdleTimeout.kept(asked) == 10,
        10 <= asked <= 3600 ==> Knob::IdleTimeout.kept(asked) == asked,
        asked >= 3600 ==> Knob::IdleTimeout.kept(asked) == 3600,
{
}

/// What a stored value means: itself, but for the zero of the two knobs that
/// cannot be off, which is a quarter of a minute.
pub proof fn law_what_a_stored_value_means(k: Knob, raw: u32)
    ensures
        raw != 0 ==> k.meant(raw) == raw,
        Knob::AdvWindow.meant(0) == 15 && Knob::BleOn.meant(0) == 15,
        Knob::SleepInterval.meant(0) == 0 && Knob::BleOff.meant(0) == 0 && Knob::IdleTimeout.meant(0) == 0,
{
}

/// A file may carry what a write would store as it stands, and a zero for
/// every knob.
pub proof fn law_a_file_carries_what_is_stored_as_it_stands(k: Knob, v: u32)
    ensures
        k.row().allows(0),
        v != 0 ==> (k.row().allows(v as int) <==> k.kept(v) == v),
        k.row().allows(k.kept(v) as int),
        forall|w: int| w > 3600 ==> !(#[trigger] k.row().allows(w)),
{
}

/// A knob of the settings blob is the field it names: what is put there is
/// read there, and nothing else moves.
pub proof fn law_a_knob_is_its_own_field(w: Settings, s: Stored, a: Knob, b: Knob, v: u32)
    ensures
        wire_value(wire_with(w, a, v), a) == v,
        a != b ==> wire_value(wire_with(w, a, v), b) == wire_value(w, b),
        wire_with(w, a, wire_value(w, a)) == w,
        wire_with(w, a, v).mode == w.mode && wire_with(w, a, v).notify_interval_ms == w.notify_interval_ms
            && wire_with(w, a, v).radio_standby == w.radio_standby && wire_with(w, a, v).gps_sleep == w.gps_sleep,
        s.with_raw(a, v).raw(a) == v,
        a != b ==> s.with_raw(a, v).raw(b) == s.raw(b),
        s.with_raw(a, s.raw(a)) == s,
        s.with_raw(a, v).mode == s.mode && s.with_raw(a, v).flags == s.flags && s.with_raw(a, v).name == s.name,
        s.raw(Knob::SleepInterval) == s.sleep_interval_s && s.raw(Knob::AdvWindow) == s.adv_window_s && s.raw(
            Knob::BleOff,
        ) == s.ble_off_s && s.raw(Knob::IdleTimeout) == s.idle_timeout_s && s.raw(Knob::BleOn) == s.ble_on_s,
        wire_value(w, Knob::SleepInterval) == w.sleep_interval_s && wire_value(w, Knob::AdvWindow) == w.adv_window_s
            && wire_value(w, Knob::BleOff) == w.ble_off_s && wire_value(w, Knob::IdleTimeout) == w.idle_timeout_s
            && wire_value(w, Knob::BleOn) == w.ble_on_s,
{
}

/// A row stores and means what its knob does.
pub proof fn law_a_row_is_its_knob(k: Knob, v: u32)
    ensures
        k.row().stores(v) == k.kept(v),
        k.row().means(v) == k.meant(v),
{
}

} // verus!
