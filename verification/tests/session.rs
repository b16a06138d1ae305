use midair_proto::ack::{Ack, AckStatus, Echo, Refusal};
use midair_proto::ble;
use midair_proto::ble::Mode;
use midair_proto::link;
use midair_proto::posture::Request;
use midair_proto::session;
use midair_proto::session::{
    boot_mode, dispatch, during_ble_down, Accepted, Action, Dispatch, Knob, Next, Outcome, Serve, ServeCommand, Step,
    Stored, Then, Window, Zero, BLE_ON_AT, CFG_UPDATE_INTERVAL_MS, KNOBS, LINGER_S, PFLAG_GPS_SLEEP,
    PFLAG_RADIO_STANDBY, RECORD_LEN, RECORD_MAGIC, RECORD_VERSION,
};

/// The position protocol's notify intervals, ms.
const UPDATE_INTERVAL_DEFAULT_MS: u32 = 1_000;
const UPDATE_INTERVAL_MIN_MS: u32 = 100;
const UPDATE_INTERVAL_MAX_MS: u32 = 60_000;

/// What the position protocol makes of a write that is not the board's own.
fn position_protocol(data: &[u8]) -> Result<u32, Refusal> {
    match data {
        [CFG_UPDATE_INTERVAL_MS, 4, a, b, c, d] => {
            Ok(u32::from_le_bytes([*a, *b, *c, *d]).clamp(UPDATE_INTERVAL_MIN_MS, UPDATE_INTERVAL_MAX_MS))
        }
        [] | [_] | [CFG_UPDATE_INTERVAL_MS, ..] => Err(Refusal::BadValue),
        _ => Err(Refusal::UnknownId),
    }
}

fn apply(stored: &mut Stored, data: &[u8]) -> Outcome {
    session::apply(stored, data, position_protocol(data))
}

/// Where each older layout put its crc: the length that version had.
const V2_CRC_AT: usize = 16;
const V3_CRC_AT: usize = 20;
const V4_CRC_AT: usize = 24;
const V5_CRC_AT: usize = 32;
const V6_CRC_AT: usize = BLE_ON_AT;

/// A config write in the wire format: `[id, len, value]`.
fn write(id: u8, value: &[u8]) -> Vec<u8> {
    let mut v = vec![id, value.len() as u8];
    v.extend_from_slice(value);
    v
}

fn u32_write(id: u8, v: u32) -> Vec<u8> {
    write(id, &v.to_le_bytes())
}

/// The applied `u32` an ack echoes back.
fn ack_u32(o: &Outcome) -> u32 {
    assert_eq!(o.ack.status, AckStatus::Applied, "ack is an error, not a value");
    match o.ack.echo {
        Echo::Word(v) => v,
        other => panic!("an ack that carries {other:?}"),
    }
}

fn ack_status(o: &Outcome) -> AckStatus {
    o.ack.status
}

fn ack_id(o: &Outcome) -> u8 {
    o.ack.id
}

/// A stored board on `interval_s`, i.e. what a wake check runs on.
fn cadence(interval_s: u32) -> Stored {
    Stored {
        sleep_interval_s: interval_s,
        mode: Mode::Stored,
        ..Stored::new()
    }
}

/// An idle board with a timeout set and `interval_s` to store itself
/// on. `0` is a board with deep sleep off, which stays idle however
/// long the timeout is: there is nowhere for it to send the board.
fn idle(interval_s: u32) -> Stored {
    Stored {
        sleep_interval_s: interval_s,
        idle_timeout_s: ble::IDLE_TIMEOUT_DEFAULT_S,
        mode: Mode::Idle,
        ..Stored::new()
    }
}

// -- settings ----------------------------------------------------------

/// A board that has never been configured powers its GPS, never sleeps
/// and advertises for the default window. Nothing stored may read as
/// "off", because a board is unconfigured exactly when nobody has been
/// able to tell it anything.
#[test]
fn an_unconfigured_board_is_awake_and_powered() {
    let s = Stored::new();
    assert_eq!(s, Stored::default());
    assert!(!s.radio_standby());
    assert!(!s.gps_sleep());
    assert_eq!(s.sleep_interval_s, 0);
    assert_eq!(s.adv_window(), ble::ESP_ADV_DEFAULT_S);
    assert_eq!(
        s.settings(UPDATE_INTERVAL_DEFAULT_MS),
        ble::Settings {
            radio_standby: false,
            gps_sleep: false,
            sleep_interval_s: 0,
            notify_interval_ms: UPDATE_INTERVAL_DEFAULT_MS,
            adv_window_s: ble::ESP_ADV_DEFAULT_S,
            ble_off_s: 0,
            mode: Mode::Stored,
            idle_timeout_s: 0,
            ble_on_s: ble::BLE_ON_DEFAULT_S,
        }
    );
}

/// The settings characteristic reports what is stored, over the wire an
/// app can read it back from.
#[test]
fn settings_report_the_stored_state() {
    let mut s = Stored::new();
    s.set_flag(PFLAG_RADIO_STANDBY, true);
    s.sleep_interval_s = 120;
    s.adv_window_s = 30;

    let settings = s.settings(2_000);
    assert!(settings.radio_standby);
    assert!(!settings.gps_sleep);
    assert_eq!(settings.sleep_interval_s, 120);
    assert_eq!(settings.notify_interval_ms, 2_000);
    assert_eq!(settings.adv_window_s, 30);
    assert_eq!(ble::Settings::decode(&settings.encode()), Some(settings));
}

/// The window an app reads back is the one the board will actually use,
/// never the "never configured" 0 - an app that echoed a 0 back would
/// otherwise be asking for a window nobody can connect in.
#[test]
fn an_unset_window_reports_as_the_default() {
    let s = Stored::new();
    assert_eq!(s.adv_window_s, 0);
    assert_eq!(s.settings(1_000).adv_window_s, ble::ESP_ADV_DEFAULT_S);
}


// -- config writes -----------------------------------------------------



/// The override flags are recorded as soon as they are asked for, before
/// the hardware loop has moved, because the settings characteristic has
/// to report what the app asked for.
#[test]
fn an_override_write_records_the_request_before_the_hardware_moves() {
    let mut s = Stored::new();
    let o = apply(&mut s, &write(ble::CFG_RADIO_STANDBY, &[1]));
    assert_eq!(o.action, Action::RadioStandby(true));
    assert!(s.radio_standby());
    assert_eq!(o.ack, Ack { id: ble::CFG_RADIO_STANDBY, status: AckStatus::Applied, echo: Echo::One(1) });

    let o = apply(&mut s, &write(ble::CFG_GPS_SLEEP, &[1]));
    assert_eq!(o.action, Action::GpsSleep(true));
    assert!(s.gps_sleep());

    // And clearing them again.
    apply(&mut s, &write(ble::CFG_RADIO_STANDBY, &[0]));
    apply(&mut s, &write(ble::CFG_GPS_SLEEP, &[0]));
    assert!(!s.radio_standby());
    assert!(!s.gps_sleep());
}

/// The two override flags are the settings that are not written to
/// flash: they are re-applied on the next tracking command, and a
/// board that cold-boots with its GPS running is the safer failure.
#[test]
fn only_the_reachability_settings_reach_flash() {
    let mut s = Stored::new();
    assert!(!apply(&mut s, &write(ble::CFG_RADIO_STANDBY, &[1])).save);
    assert!(!apply(&mut s, &write(ble::CFG_GPS_SLEEP, &[1])).save);
    assert!(apply(&mut s, &u32_write(ble::CFG_ESP_SLEEP_S, 60)).save);
    assert!(apply(&mut s, &u32_write(ble::CFG_ESP_ADV_WINDOW_S, 20)).save);
}

/// An interval the board cannot honor comes back as the one it will,
/// so the app displays the effective setting rather than the request.
#[test]
fn a_sleep_interval_is_clamped_and_echoed() {
    let mut s = Stored::new();
    for (asked, applied) in [
        (1, ble::ESP_SLEEP_MIN_S),
        (u32::MAX, ble::ESP_SLEEP_MAX_S),
        (60, 60),
        (ble::ESP_SLEEP_MIN_S, ble::ESP_SLEEP_MIN_S),
        (ble::ESP_SLEEP_MAX_S, ble::ESP_SLEEP_MAX_S),
    ] {
        let o = apply(&mut s, &u32_write(ble::CFG_ESP_SLEEP_S, asked));
        assert_eq!(o.action, Action::Knob(Knob::SleepInterval, applied), "asked {}", asked);
        assert_eq!(ack_u32(&o), applied);
        assert_eq!(s.sleep_interval_s, applied);
    }
}

/// Zero is the one interval that is not clamped up: it means sleep is
/// off, not "sleep as fast as you can".
#[test]
fn a_zero_sleep_interval_disables_sleep() {
    let mut s = Stored::new();
    apply(&mut s, &u32_write(ble::CFG_ESP_SLEEP_S, 300));
    let o = apply(&mut s, &u32_write(ble::CFG_ESP_SLEEP_S, 0));
    assert_eq!(o.action, Action::Knob(Knob::SleepInterval, 0));
    assert_eq!(ack_u32(&o), 0);
    assert_eq!(s.sleep_interval_s, 0);
}

/// The window is clamped in both directions including at zero, which is
/// not an "off": a board that woke to a zero-length window could not be
/// reached by anything short of a physical reset.
#[test]
fn an_advertising_window_is_always_clamped() {
    let mut s = Stored::new();
    for (asked, applied) in [
        (0, ble::ESP_ADV_MIN_S),
        (1, ble::ESP_ADV_MIN_S),
        (u32::MAX, ble::ESP_ADV_MAX_S),
        (20, 20),
    ] {
        let o = apply(&mut s, &u32_write(ble::CFG_ESP_ADV_WINDOW_S, asked));
        assert_eq!(o.action, Action::Knob(Knob::AdvWindow, applied), "asked {}", asked);
        assert_eq!(ack_u32(&o), applied);
        assert_eq!(s.adv_window(), applied);
    }
}

/// The two sleep settings are independent: setting a window must not
/// disturb the interval, or an app writing both would have to care
/// about the order.
#[test]
fn the_sleep_settings_do_not_disturb_each_other() {
    let mut s = Stored::new();
    apply(&mut s, &u32_write(ble::CFG_ESP_SLEEP_S, 90));
    apply(&mut s, &u32_write(ble::CFG_ESP_ADV_WINDOW_S, 30));
    apply(&mut s, &write(ble::CFG_RADIO_STANDBY, &[1]));
    assert_eq!(s.sleep_interval_s, 90);
    assert_eq!(s.adv_window(), 30);
    assert!(s.radio_standby());
}

/// 0 is off rather than a floor, because a board that never takes BLE
/// down is the reachable default and has to stay expressible.
#[test]
fn the_ble_off_period_clamps_but_keeps_zero() {
    let mut s = Stored::new();
    assert_eq!(s.ble_off_s, 0);
    for (asked, applied) in [
        (0u32, 0u32),
        (1, ble::BLE_OFF_MIN_S),
        (30, 30),
        (99_999, ble::BLE_OFF_MAX_S),
    ] {
        let o = apply(&mut s, &u32_write(ble::CFG_BLE_OFF_S, asked));
        assert_eq!(o.action, Action::Knob(Knob::BleOff, applied), "asked {}", asked);
        assert_eq!(s.ble_off_s, applied, "asked {}", asked);
        assert!(o.save);
    }
}

#[test]
fn a_malformed_value_is_rejected_and_changes_nothing() {
    let mut s = Stored::new();
    apply(&mut s, &u32_write(ble::CFG_ESP_SLEEP_S, 60));
    apply(&mut s, &u32_write(ble::CFG_ESP_ADV_WINDOW_S, 20));
    let before = s;

    for data in [
        write(ble::CFG_ESP_SLEEP_S, &[0, 0]),
        write(ble::CFG_ESP_ADV_WINDOW_S, &[1, 2, 3, 4, 5]),
        // A declared length that runs past the write itself.
        vec![ble::CFG_ESP_SLEEP_S, 4, 0, 0],
    ] {
        let o = apply(&mut s, &data);
        assert_eq!(o.action, Action::Nothing);
        assert_eq!(ack_status(&o), AckStatus::BadValue);
        assert!(!o.save);
        assert_eq!(s, before, "rejected write changed the settings");
    }
}

/// The board still speaks the position protocol it inherited, so the app
/// that predates it keeps working.
#[test]
fn a_gps_proto_write_still_works() {
    let mut s = Stored::new();
    let before = s;
    let o = apply(&mut s, &u32_write(CFG_UPDATE_INTERVAL_MS, 500));
    assert_eq!(o.action, Action::NotifyInterval(500));
    assert_eq!(ack_u32(&o), 500);
    assert!(!o.save, "the notify interval is per-session state");
    assert_eq!(s, before, "the notify interval is not a stored setting");

    // Clamped like any other value, and echoed as applied.
    let o = apply(&mut s, &u32_write(CFG_UPDATE_INTERVAL_MS, 1));
    assert_eq!(
        o.action,
        Action::NotifyInterval(UPDATE_INTERVAL_MIN_MS)
    );
    assert_eq!(ack_u32(&o), UPDATE_INTERVAL_MIN_MS);
}

/// An id from a newer app is refused by id, not ignored, so the app can
/// tell "this board is older" from "the write was lost".
#[test]
fn an_unknown_id_is_nacked_with_its_id() {
    let mut s = Stored::new();
    let before = s;
    let o = apply(&mut s, &u32_write(0x7F, 1));
    assert_eq!(o.action, Action::Nothing);
    assert_eq!(ack_id(&o), 0x7F);
    assert_eq!(ack_status(&o), AckStatus::UnknownId);
    assert_eq!(s, before);
}

#[test]
fn a_truncated_write_is_rejected() {
    let mut s = Stored::new();
    for data in [vec![], vec![ble::CFG_GPS_SLEEP]] {
        let o = apply(&mut s, &data);
        assert_eq!(o.action, Action::Nothing);
        assert_eq!(ack_status(&o), AckStatus::BadValue);
    }
    assert_eq!(s, Stored::new());
}

// -- the flash record --------------------------------------------------

#[test]
fn a_record_roundtrips() {
    let s = Stored {
        sleep_interval_s: 300,
        flags: PFLAG_GPS_SLEEP,
        adv_window_s: 45,
        ble_off_s: 90,
        mode: Mode::Tracking,
        idle_timeout_s: 900,
        ble_on_s: 20,
        name: *b"sky-1\0\0\0\0\0\0\0\0\0\0\0",
    };
    let rec = s.encode_record();
    assert_eq!(rec.len(), RECORD_LEN);
    assert_eq!(Stored::decode_record(&rec), Some(s));
}

/// A board updated in the field keeps the cadence it was left on: the
/// window was appended to the record, not inserted into it.
#[test]
fn a_version_2_record_still_reads() {
    let mut rec = [0xFFu8; RECORD_LEN]; // erased flash past the record
    rec[0..4].copy_from_slice(&RECORD_MAGIC.to_le_bytes());
    rec[4..8].copy_from_slice(&2u32.to_le_bytes());
    rec[8..12].copy_from_slice(&120u32.to_le_bytes());
    rec[12..16].copy_from_slice(&PFLAG_RADIO_STANDBY.to_le_bytes());
    let crc = link::crc32(&rec[0..V2_CRC_AT]);
    rec[V2_CRC_AT..V2_CRC_AT + 4].copy_from_slice(&crc.to_le_bytes());

    let s = Stored::decode_record(&rec).expect("a version 2 record still reads");
    assert_eq!(s.sleep_interval_s, 120);
    assert!(s.radio_standby());
    // No window in that layout, so the default applies.
    assert_eq!(s.adv_window_s, 0);
    assert_eq!(s.adv_window(), ble::ESP_ADV_DEFAULT_S);
    // Nor a BLE off period, which means the old behavior: never take
    // the controller down.
    assert_eq!(s.ble_off_s, 0);
}

/// The version this firmware replaced. A board updated in the field
/// keeps the cadence and window it was left on rather than coming back
/// unconfigured and advertising continuously.
#[test]
fn a_version_3_record_still_reads() {
    let mut rec = [0xFFu8; RECORD_LEN]; // erased flash past the record
    rec[0..4].copy_from_slice(&RECORD_MAGIC.to_le_bytes());
    rec[4..8].copy_from_slice(&3u32.to_le_bytes());
    rec[8..12].copy_from_slice(&120u32.to_le_bytes());
    rec[12..16].copy_from_slice(&PFLAG_RADIO_STANDBY.to_le_bytes());
    rec[16..20].copy_from_slice(&45u32.to_le_bytes());
    let crc = link::crc32(&rec[0..V3_CRC_AT]);
    rec[V3_CRC_AT..V3_CRC_AT + 4].copy_from_slice(&crc.to_le_bytes());

    let s = Stored::decode_record(&rec).expect("a version 3 record still reads");
    assert_eq!(s.sleep_interval_s, 120);
    assert!(s.radio_standby());
    assert_eq!(s.adv_window_s, 45);
    // The field that version predates reads as disabled, so an updated
    // board does not start going dark on its own.
    assert_eq!(s.ble_off_s, 0);
}

/// The version this mode work replaced. A board updated in the field
/// keeps its cadence, window and off period, and reads as a stored
/// board - which a cold boot then turns into the idle rescue window.
#[test]
fn a_version_4_record_still_reads() {
    let mut rec = [0xFFu8; RECORD_LEN]; // erased flash past the record
    rec[0..4].copy_from_slice(&RECORD_MAGIC.to_le_bytes());
    rec[4..8].copy_from_slice(&4u32.to_le_bytes());
    rec[8..12].copy_from_slice(&120u32.to_le_bytes());
    rec[12..16].copy_from_slice(&PFLAG_RADIO_STANDBY.to_le_bytes());
    rec[16..20].copy_from_slice(&45u32.to_le_bytes());
    rec[20..24].copy_from_slice(&30u32.to_le_bytes());
    let crc = link::crc32(&rec[0..V4_CRC_AT]);
    rec[V4_CRC_AT..V4_CRC_AT + 4].copy_from_slice(&crc.to_le_bytes());

    let s = Stored::decode_record(&rec).expect("a version 4 record still reads");
    assert_eq!(s.sleep_interval_s, 120);
    assert_eq!(s.adv_window_s, 45);
    assert_eq!(s.ble_off_s, 30);
    // No mode in that layout, and the safe one is what it reads as: an
    // updated board is reachable first and stores itself after.
    assert_eq!(s.mode, Mode::Stored);
    assert_eq!(s.idle_timeout_s, 0);
    assert_eq!(s.idle_timeout(), 0, "and it never stores itself out of idle");
    assert_eq!(boot_mode(s.mode, false), Mode::Idle);
}

/// A board updated in the field is unnamed rather than unreadable: the
/// name was appended, so a version 5 record still carries every setting
/// that decides reachability.
#[test]
fn a_version_5_record_still_reads() {
    let mut rec = [0xFFu8; RECORD_LEN]; // erased flash past the record
    rec[0..4].copy_from_slice(&RECORD_MAGIC.to_le_bytes());
    rec[4..8].copy_from_slice(&5u32.to_le_bytes());
    rec[8..12].copy_from_slice(&120u32.to_le_bytes());
    rec[12..16].copy_from_slice(&PFLAG_RADIO_STANDBY.to_le_bytes());
    rec[16..20].copy_from_slice(&45u32.to_le_bytes());
    rec[20..24].copy_from_slice(&30u32.to_le_bytes());
    rec[24..28].copy_from_slice(&(Mode::Tracking.as_wire() as u32).to_le_bytes());
    rec[28..32].copy_from_slice(&900u32.to_le_bytes());
    let crc = link::crc32(&rec[0..V5_CRC_AT]);
    rec[V5_CRC_AT..V5_CRC_AT + 4].copy_from_slice(&crc.to_le_bytes());

    let s = Stored::decode_record(&rec).expect("a version 5 record still reads");
    assert_eq!(s.sleep_interval_s, 120);
    assert_eq!(s.mode, Mode::Tracking);
    assert_eq!(s.idle_timeout_s, 900);
    // The erased bytes where the name now sits are not read as one.
    assert_eq!(s.label(), "");
    assert_eq!(s.name, [0; ble::NAME_FIELD_LEN]);
    assert_eq!(s.ble_on_s, 0);
}

/// A board updated in the field keeps its name and comes back on the
/// default on period, which is the window it used to share.
#[test]
fn a_version_6_record_still_reads() {
    let mut rec = [0xFFu8; RECORD_LEN]; // erased flash past the record
    rec[0..4].copy_from_slice(&RECORD_MAGIC.to_le_bytes());
    rec[4..8].copy_from_slice(&6u32.to_le_bytes());
    rec[8..12].copy_from_slice(&120u32.to_le_bytes());
    rec[12..16].copy_from_slice(&0u32.to_le_bytes());
    rec[16..20].copy_from_slice(&45u32.to_le_bytes());
    rec[20..24].copy_from_slice(&30u32.to_le_bytes());
    rec[24..28].copy_from_slice(&(Mode::Tracking.as_wire() as u32).to_le_bytes());
    rec[28..32].copy_from_slice(&0u32.to_le_bytes());
    let mut name = [0u8; ble::NAME_FIELD_LEN];
    name[..5].copy_from_slice(b"sky-1");
    rec[32..32 + ble::NAME_FIELD_LEN].copy_from_slice(&name);
    let crc = link::crc32(&rec[0..V6_CRC_AT]);
    rec[V6_CRC_AT..V6_CRC_AT + 4].copy_from_slice(&crc.to_le_bytes());

    let s = Stored::decode_record(&rec).expect("a version 6 record still reads");
    assert_eq!(s.label(), "sky-1");
    assert_eq!(s.adv_window_s, 45);
    assert_eq!(s.ble_on_s, 0);
    assert_eq!(s.ble_on(), ble::BLE_ON_DEFAULT_S);
    // Written back, it is a version 7 record that reads the same.
    let again = Stored::decode_record(&s.encode_record()).expect("round trip");
    assert_eq!(again, s);
}

// -- the name ----------------------------------------------------------

#[test]
fn a_name_write_stores_a_label() {
    let mut s = Stored::new();
    assert_eq!(s.label(), "");

    let o = apply(&mut s, &write(ble::CFG_NAME, b"sky-1"));
    assert_eq!(o.action, Action::Name);
    assert_eq!(s.label(), "sky-1");
    // The ack spends its value on the length: no name fits in one.
    assert_eq!(o.ack, Ack { id: ble::CFG_NAME, status: AckStatus::Applied, echo: Echo::One(5) });
    // A name has to survive a flat cell, so it is worth a flash write.
    assert!(o.save);
    assert_eq!(Stored::decode_record(&s.encode_record()), Some(s));
}

/// An empty value is the way back to an address-derived name, not a
/// rejected write.
#[test]
fn an_empty_name_write_clears_the_label() {
    let mut s = Stored::new();
    apply(&mut s, &write(ble::CFG_NAME, b"ground-1"));
    let o = apply(&mut s, &write(ble::CFG_NAME, b""));
    assert_eq!(o.action, Action::Name);
    assert_eq!(ack_status(&o), AckStatus::Applied);
    assert_eq!(o.ack, Ack { id: ble::CFG_NAME, status: AckStatus::Applied, echo: Echo::One(0) });
    assert_eq!(s.label(), "");
}

/// A label the board cannot advertise is refused, and refusing it
/// leaves the board under the name it already answered to.
#[test]
fn a_bad_label_leaves_the_old_name() {
    let mut s = Stored::new();
    apply(&mut s, &write(ble::CFG_NAME, b"sky-1"));
    for bad in [b"has space".as_slice(), b"quote\"", "caf\u{e9}".as_bytes()] {
        let o = apply(&mut s, &write(ble::CFG_NAME, bad));
        assert_eq!(o.action, Action::Nothing);
        assert_eq!(ack_status(&o), AckStatus::BadValue);
        assert!(!o.save);
        assert_eq!(s.label(), "sky-1");
    }
}

/// The longest label the record holds is one the board still reads
/// back: there is no terminator to lose when the padding runs out.
#[test]
fn a_full_length_label_survives_the_record() {
    let label = "x".repeat(ble::NAME_LABEL_MAX);
    let mut s = Stored::new();
    let o = apply(&mut s, &write(ble::CFG_NAME, label.as_bytes()));
    assert_eq!(o.action, Action::Name);
    assert_eq!(s.label(), label);
    let back = Stored::decode_record(&s.encode_record()).expect("record");
    assert_eq!(back.label(), label);

    // One byte more is refused by the policy rather than truncated.
    let o = apply(&mut s, &write(ble::CFG_NAME, "y".repeat(ble::NAME_LABEL_MAX + 1).as_bytes()));
    assert_eq!(ack_status(&o), AckStatus::BadValue);
    assert_eq!(s.label(), label);
}

/// A name is a settings change, not a command: nothing else about the
/// board moves with it.
#[test]
fn a_name_write_changes_nothing_else() {
    let mut s = Stored::new();
    apply(&mut s, &u32_write(ble::CFG_ESP_SLEEP_S, 120));
    let before = s;
    apply(&mut s, &write(ble::CFG_NAME, b"ground-1"));
    assert_eq!(
        Stored {
            name: before.name,
            ..s
        },
        before
    );
}

/// Idle never reaches flash. The RTC copy carries it - that is what the
/// settings characteristic reports and what the serve loop budgets on -
/// but a record that said idle would bring a board back at awake
/// current with nobody coming.
#[test]
fn a_record_never_says_idle() {
    let s = Stored {
        mode: Mode::Idle,
        ..Stored::new()
    };
    assert_eq!(s.mode, Mode::Idle, "the live copy keeps it");
    let back = Stored::decode_record(&s.encode_record()).expect("record reads back");
    assert_eq!(back.mode, Mode::Stored);

    // Tracking is the one mode that does survive, because a brownout on
    // the object is exactly when it must.
    let t = Stored {
        mode: Mode::Tracking,
        ..Stored::new()
    };
    let back = Stored::decode_record(&t.encode_record()).expect("record reads back");
    assert_eq!(back.mode, Mode::Tracking);
}

// -- modes -------------------------------------------------------------

/// The three boot flavors. Tracking survives any reset; a timer wake is
/// a wake check; every other cold boot gets the rescue window.
#[test]
fn a_boot_lands_in_the_right_mode() {
    assert_eq!(boot_mode(Mode::Tracking, true), Mode::Tracking);
    assert_eq!(boot_mode(Mode::Tracking, false), Mode::Tracking);
    assert_eq!(boot_mode(Mode::Stored, true), Mode::Stored);
    assert_eq!(boot_mode(Mode::Stored, false), Mode::Idle);
    // Idle cannot be persisted, but a garbled record that produced one
    // must still land somewhere sane.
    assert_eq!(boot_mode(Mode::Idle, false), Mode::Idle);
    assert_eq!(boot_mode(Mode::Idle, true), Mode::Stored);
}

/// A mode write is stored, acked with what it stored, and saved -
/// because it is the setting that decides what the board does when it
/// comes back from a flat cell.
#[test]
fn a_mode_write_persists_and_acts() {
    let mut s = Stored::new();
    let o = apply(&mut s, &write(ble::CFG_MODE, &[2]));
    assert_eq!(o.action, Action::SetMode(Mode::Tracking));
    assert!(o.save, "tracking must survive a brownout on the object");
    assert_eq!(s.mode, Mode::Tracking);
    assert_eq!(o.ack, Ack { id: ble::CFG_MODE, status: AckStatus::Applied, echo: Echo::One(2) });

    let o = apply(&mut s, &write(ble::CFG_MODE, &[1]));
    assert_eq!(o.action, Action::SetMode(Mode::Idle));
    assert_eq!(s.mode, Mode::Idle);

    let o = apply(&mut s, &write(ble::CFG_MODE, &[0]));
    assert_eq!(o.action, Action::SetMode(Mode::Stored));
    assert_eq!(s.mode, Mode::Stored);
}

/// A mode this firmware does not know is rejected rather than rounded:
/// each value is a different amount of the board switched off.
#[test]
fn an_unknown_mode_is_rejected() {
    let mut s = Stored {
        mode: Mode::Tracking,
        ..Stored::new()
    };
    for bad in [&[4u8][..], &[255][..], &[][..]] {
        let o = apply(&mut s, &write(ble::CFG_MODE, bad));
        assert_eq!(o.action, Action::Nothing);
        assert_eq!(ack_status(&o), AckStatus::BadValue);
        assert_eq!(s.mode, Mode::Tracking, "a rejected write changed nothing");
    }
}

/// The idle timeout is off by default and 0 is how it is turned off
/// again; a non-zero value clamps like every other interval.
#[test]
fn the_idle_timeout_is_off_by_default_and_clamps_when_set() {
    let mut s = Stored::new();
    assert_eq!(s.idle_timeout_s, 0);
    assert_eq!(s.idle_timeout(), 0);

    let o = apply(&mut s, &u32_write(ble::CFG_IDLE_TIMEOUT_S, 900));
    assert_eq!(o.action, Action::Knob(Knob::IdleTimeout, 900));
    assert!(o.save);
    assert_eq!(ack_u32(&o), 900);
    assert_eq!(s.idle_timeout(), 900);

    for (asked, applied) in [
        (1, ble::IDLE_TIMEOUT_MIN_S),
        (u32::MAX, ble::IDLE_TIMEOUT_MAX_S),
        (0, 0),
    ] {
        let o = apply(&mut s, &u32_write(ble::CFG_IDLE_TIMEOUT_S, asked));
        assert_eq!(ack_u32(&o), applied);
        assert_eq!(s.idle_timeout_s, applied);
    }

    // Off means off: an idle board with a cadence to sleep on still
    // keeps advertising however long it has been idle.
    let idle = Stored {
        mode: Mode::Idle,
        sleep_interval_s: 120,
        ..s
    };
    assert_eq!(idle.at_expiry(), Next::forever());
    assert_eq!(
        Window::new(0, idle.budget_s()).next(3_600_000, &idle),
        Next::forever()
    );
}

/// The tracker's on period is its own setting, so a wake check and a
/// tracker can want different lengths of window.
#[test]
fn the_ble_on_period_is_separate_from_the_advertising_window() {
    let mut s = Stored::new();
    assert_eq!(s.ble_on_s, 0);
    assert_eq!(s.ble_on(), ble::BLE_ON_DEFAULT_S);

    apply(&mut s, &u32_write(ble::CFG_ESP_ADV_WINDOW_S, 5));
    let o = apply(&mut s, &u32_write(ble::CFG_BLE_ON_S, 40));
    assert_eq!(o.action, Action::Knob(Knob::BleOn, 40));
    assert!(o.save);
    assert_eq!(ack_u32(&o), 40);
    assert_eq!(s.adv_window(), 5);
    assert_eq!(s.ble_on(), 40);
    assert_eq!(s.settings(1_000).ble_on_s, 40);

    for (asked, applied) in [
        (0, ble::BLE_ON_MIN_S),
        (u32::MAX, ble::BLE_ON_MAX_S),
    ] {
        let o = apply(&mut s, &u32_write(ble::CFG_BLE_ON_S, asked));
        assert_eq!(ack_u32(&o), applied);
    }

    // The wake check budgets on the window, the tracker on the on
    // period, and neither reads the other's.
    s.ble_on_s = 40;
    s.mode = Mode::Stored;
    assert_eq!(s.budget_s(), 5);
    s.mode = Mode::Tracking;
    assert_eq!(s.budget_s(), 40);
    // And the record carries it across a flat cell.
    let back = Stored::decode_record(&s.encode_record()).expect("round trip");
    assert_eq!(back.ble_on_s, 40);
}

/// Listening is the receiver half of a tracker for the node beside the
/// phone: it never duty-cycles, never stores itself, and comes back
/// listening after any reset.
#[test]
fn listening_never_expires_and_survives_a_reset() {
    let s = Stored {
        mode: Mode::Listening,
        sleep_interval_s: 120,
        ble_off_s: 30,
        idle_timeout_s: 60,
        ..Stored::new()
    };
    assert_eq!(s.at_expiry(), Next::forever());
    let w = Window::new(0, s.budget_s());
    assert_eq!(w.next(3_600_000, &s), Next::forever());
    assert_eq!(boot_mode(Mode::Listening, false), Mode::Listening);
    assert_eq!(boot_mode(Mode::Listening, true), Mode::Listening);
    let back = Stored::decode_record(&s.encode_record()).expect("round trip");
    assert_eq!(back.mode, Mode::Listening);

    let o = apply(&mut Stored::new(), &write(ble::CFG_MODE, &[Mode::Listening.as_wire()]));
    assert_eq!(o.action, Action::SetMode(Mode::Listening));
    assert!(o.save);
}

/// Which duty cycle applies is a property of the mode, not a race
/// between two settings. The regression: `ble_off_s` used to be dead
/// config on any board that had a wake-check cadence, because deep
/// sleep was tested first and always won.
#[test]
fn each_mode_has_its_own_duty_cycle() {
    let both = Stored {
        sleep_interval_s: 120,
        ble_off_s: 30,
        ..Stored::new()
    };

    // A wake check goes back down on the cadence and ignores the modem
    // period - there is no controller to duty-cycle for a board that is
    // about to lose the whole chip.
    let wake = Stored {
        mode: Mode::Stored,
        ..both
    };
    assert_eq!(wake.at_expiry(), Next::Sleep { interval_s: 120 });
    assert_eq!(wake.budget_s(), wake.adv_window());

    // Idle stores itself, on the same cadence but its own budget - once
    // it has been given a timeout at all.
    let idle = Stored {
        mode: Mode::Idle,
        idle_timeout_s: 600,
        ..both
    };
    assert_eq!(idle.at_expiry(), Next::Sleep { interval_s: 120 });
    assert_eq!(idle.budget_s(), idle.idle_timeout());

    // Tracking takes the modem down and never the whole chip: deep
    // sleep would stop the beacon, the logging and the listening.
    let tracking = Stored {
        mode: Mode::Tracking,
        ..both
    };
    assert_eq!(tracking.at_expiry(), Next::BleDown { off_s: 30 });
    assert_eq!(tracking.budget_s(), tracking.ble_on());
}

/// With no cadence there is nowhere for an idle timeout to send the
/// board, so it stays awake and reachable. That is the bench setting,
/// and it is what an unconfigured board does.
#[test]
fn no_cadence_means_the_board_never_stores_itself() {
    let s = Stored {
        mode: Mode::Idle,
        sleep_interval_s: 0,
        idle_timeout_s: 60,
        ..Stored::new()
    };
    assert_eq!(s.at_expiry(), Next::forever());
    let w = Window::new(0, s.budget_s());
    assert_eq!(w.next(60_000, &s), Next::forever());
}

/// Being *told* to store the board is different: somebody asked for it,
/// so a missing cadence is borrowed rather than read as a refusal.
/// Without this a board stored without a cadence would wake once and
/// then sit at awake current forever.
#[test]
fn a_stored_board_without_a_cadence_still_sleeps() {
    let s = Stored {
        mode: Mode::Stored,
        sleep_interval_s: 0,
        ..Stored::new()
    };
    assert_eq!(s.sleep_cadence(), ble::STORE_DEFAULT_S);
    assert_eq!(
        s.at_expiry(),
        Next::Sleep {
            interval_s: ble::STORE_DEFAULT_S
        }
    );
    assert_eq!(cadence(120).sleep_cadence(), 120);
    assert_eq!(
        cadence(120).at_expiry(),
        Next::Sleep { interval_s: 120 }
    );

    // And the way back out is the promotion, not the cadence: a wake
    // check that somebody connects to becomes idle, where a board with
    // no cadence stays.
    let promoted = Stored {
        mode: Mode::Idle,
        ..s
    };
    assert_eq!(promoted.at_expiry(), Next::forever());
}

/// A disconnect in idle re-arms the whole timeout rather than the five
/// second linger: the state exists to be reachable, and a phone that
/// has just been talking to the board is the best evidence anyone still
/// wants it.
#[test]
fn a_disconnect_in_idle_restarts_the_timeout() {
    let s = Stored {
        mode: Mode::Idle,
        sleep_interval_s: 120,
        idle_timeout_s: 600,
        ..Stored::new()
    };
    let mut w = Window::new(0, s.budget_s());
    let disconnected_at = 900_000;
    assert_eq!(
        w.next(disconnected_at, &s),
        Next::Sleep { interval_s: 120 },
        "the budget was already spent while connected"
    );
    w.after_disconnect(disconnected_at, &s);
    assert_eq!(w.remaining_ms(disconnected_at), 600_000);
    assert_eq!(
        w.next(disconnected_at + 600_000, &s),
        Next::Sleep { interval_s: 120 }
    );
}

/// A promotion: a wake check that somebody connected to becomes idle,
/// with the idle budget rather than what was left of the advertising
/// window. The connect itself is the doorbell.
#[test]
fn a_promotion_swaps_the_budget() {
    let mut s = Stored {
        sleep_interval_s: 300,
        adv_window_s: 15,
        idle_timeout_s: 600,
        ..Stored::new()
    };
    assert_eq!(boot_mode(s.mode, true), Mode::Stored);
    let w = Window::new(0, s.budget_s());
    assert_eq!(w.remaining_ms(0), 15_000);

    // Somebody connects at 8 s in.
    s.mode = Mode::Idle;
    let w = Window::new(8_000, s.budget_s());
    assert_eq!(w.remaining_ms(8_000), 600_000);
    assert_eq!(w.next(20_000, &s), Next::Advertise { bounded: true }, "the wake check would have slept");
    assert_eq!(
        w.next(608_000, &s),
        Next::Sleep { interval_s: 300 },
        "and then it stores itself"
    );
}

/// Anything that is not this firmware's record leaves the board
/// unconfigured rather than acting on someone else's bytes.
#[test]
fn a_record_that_is_not_ours_is_ignored() {
    let good = Stored {
        sleep_interval_s: 60,
        adv_window_s: 15,
        ..Stored::new()
    }
    .encode_record();

    // Erased flash, and a partition that holds something else.
    assert_eq!(Stored::decode_record(&[0xFF; RECORD_LEN]), None);
    assert_eq!(Stored::decode_record(&[0x00; RECORD_LEN]), None);
    let mut foreign = good;
    foreign[0] ^= 0x01;
    assert_eq!(Stored::decode_record(&foreign), None);

    // A short read is not a record either.
    assert_eq!(Stored::decode_record(&good[..RECORD_LEN - 1]), None);

    // A version this build cannot read, in both directions.
    for version in [0u32, 1, RECORD_VERSION + 1] {
        let mut rec = good;
        rec[4..8].copy_from_slice(&version.to_le_bytes());
        assert_eq!(Stored::decode_record(&rec), None, "version {}", version);
    }

    // A single flipped bit anywhere in the payload fails the crc.
    for byte in 0..RECORD_LEN {
        let mut rec = good;
        rec[byte] ^= 0x08;
        assert_eq!(Stored::decode_record(&rec), None, "byte {}", byte);
    }
}

// -- the wake / advertise / sleep cycle --------------------------------

/// With sleep off the board advertises indefinitely, whatever the
/// budget says. That is an idle board with nowhere to be sent - the
/// bench case, and the unconfigured one.
#[test]
fn sleep_off_means_the_board_never_sleeps() {
    let s = idle(0);
    let w = Window::new(0, 15);
    assert_eq!(w.next(0, &s), Next::forever());
    assert_eq!(w.next(15_000, &s), Next::forever());
    assert_eq!(w.next(u64::MAX, &s), Next::forever());
}

/// The wake advertises for the configured window and then sleeps for
/// the configured interval.
#[test]
fn a_spent_window_ends_in_deep_sleep() {
    let s = cadence(60);
    let w = Window::new(1_000, 15);
    assert_eq!(w.ends_ms(), 16_000);
    assert_eq!(w.next(1_000, &s), Next::Advertise { bounded: true });
    assert_eq!(w.remaining_ms(1_000), 15_000);
    assert_eq!(w.next(15_999, &s), Next::Advertise { bounded: true });
    assert_eq!(w.remaining_ms(15_999), 1);
    assert_eq!(w.next(16_000, &s), Next::Sleep { interval_s: 60 });
    assert_eq!(w.remaining_ms(16_000), 0);
    // A clock past the deadline is still a spent budget, not a wrap.
    assert_eq!(w.remaining_ms(u64::MAX), 0);
    assert_eq!(w.next(u64::MAX, &s), Next::Sleep { interval_s: 60 });
}

/// The regression the deadline exists for: a central that keeps failing
/// to connect must not be able to hold the board awake. Every retry
/// asks again, and the answer is still measured from the wake.
#[test]
fn retries_cannot_extend_the_window() {
    let s = cadence(30);
    let w = Window::new(0, 15);
    let mut now = 0;
    // A connect attempt that fails every 200 ms, as the firmware's
    // retry pause does.
    while w.next(now, &s).advertises() {
        now += 200;
        assert!(now <= 15_200, "the window never ended");
    }
    assert_eq!(w.next(now, &s), Next::Sleep { interval_s: 30 });
    assert_eq!(w.ends_ms(), 15_000, "the deadline moved");
}

/// A handshake that fizzled at the end of the window buys the same
/// short hold a disconnect does, so the retry lands on a board that is
/// still advertising rather than one that has gone down for a cadence.
#[test]
fn a_failed_attempt_holds_the_window_open() {
    let s = cadence(60);
    let mut w = Window::new(0, 15);
    // The phone tried at 14.9 s of a 15 s window and did not finish.
    let tried_at = 14_900;
    w.after_connect_attempt(tried_at);
    assert_eq!(w.next(tried_at, &s), Next::Advertise { bounded: true });
    assert_eq!(
        w.next(15_100, &s),
        Next::Advertise { bounded: true },
        "the window it tried in has expired, and it is still advertising"
    );
    assert_eq!(
        w.next(tried_at + LINGER_S * 1000, &s),
        Next::Sleep { interval_s: 60 },
        "and the hold is a hold, not a new window"
    );
}

/// The hold extends; it never shortens. An attempt in the first second
/// of a ten minute idle timeout must not cut it to five seconds.
#[test]
fn a_failed_attempt_cannot_shorten_a_longer_window() {
    let s = Stored {
        mode: Mode::Idle,
        idle_timeout_s: 600,
        ..Stored::new()
    };
    let mut w = Window::new(0, s.budget_s());
    w.after_connect_attempt(1_000);
    assert_eq!(w.ends_ms(), 600_000);
}

/// A disconnect buys a short linger, so the phone can come straight
/// back instead of waiting out a whole sleep interval.
#[test]
fn a_disconnect_lingers_then_sleeps() {
    let s = cadence(60);
    let mut w = Window::new(0, 15);
    // A session that outlasted the original window.
    let disconnected_at = 400_000;
    assert_eq!(
        w.next(disconnected_at, &s),
        Next::Sleep { interval_s: 60 },
        "the budget was already spent while connected"
    );
    w.after_disconnect(disconnected_at, &s);
    assert_eq!(w.next(disconnected_at, &s), Next::Advertise { bounded: true });
    assert_eq!(w.remaining_ms(disconnected_at), LINGER_S * 1000);
    assert_eq!(
        w.next(disconnected_at + LINGER_S * 1000, &s),
        Next::Sleep { interval_s: 60 }
    );
}

/// Sleep switched on mid-window takes effect at the next decision, not
/// at the next boot - the settings are asked for every time.
#[test]
fn enabling_sleep_takes_effect_within_the_window() {
    let w = Window::new(0, 15);
    assert_eq!(w.next(20_000, &idle(0)), Next::forever());
    assert_eq!(w.next(20_000, &idle(300)), Next::Sleep { interval_s: 300 });
}

/// The window a wake runs on is the one that was stored when it woke.
#[test]
fn the_window_comes_from_the_stored_setting() {
    let mut s = Stored::new();
    assert_eq!(
        Window::new(0, s.adv_window()).ends_ms(),
        ble::ESP_ADV_DEFAULT_S as u64 * 1000
    );
    apply(&mut s, &u32_write(ble::CFG_ESP_ADV_WINDOW_S, 45));
    assert_eq!(Window::new(0, s.adv_window()).ends_ms(), 45_000);
}

/// The whole cycle an unattended board runs: configured over BLE, woken
/// on the interval, advertising to nobody, back to sleep.
#[test]
fn an_unattended_board_keeps_its_cadence() {
    let mut s = Stored::new();
    apply(&mut s, &u32_write(ble::CFG_ESP_SLEEP_S, 120));
    apply(&mut s, &u32_write(ble::CFG_ESP_ADV_WINDOW_S, 10));

    // The settings survive the sleep by way of the flash record.
    let s = Stored::decode_record(&s.encode_record()).expect("record reads back");
    assert_eq!(s.sleep_interval_s, 120);

    // Reaching a wake check does not clear the interval, so the board
    // holds its cadence indefinitely rather than staying up after the
    // first visit.
    let mut now = 0;
    for _ in 0..3 {
        let w = Window::new(now, s.budget_s());
        assert_eq!(w.next(now, &s), Next::Advertise { bounded: true });
        now += 10_000;
        assert_eq!(w.next(now, &s), Next::Sleep { interval_s: 120 });
        now += 120_000;
    }
}

// -- sleep now ---------------------------------------------------------

/// The whole point of the command: it sleeps a board that is connected
/// and configured never to sleep, and it changes nothing about that
/// configuration.
#[test]
fn sleep_now_is_a_command_and_not_a_setting() {
    let mut s = Stored::new();
    assert_eq!(s.sleep_interval_s, 0, "sleep mode is off");

    let before = s;
    let o = apply(&mut s, &u32_write(ble::CFG_SLEEP_NOW, 30));

    assert_eq!(o.action, Action::SleepNow(30));
    assert_eq!(ack_u32(&o), 30, "the ack says how long the board is gone");
    assert_eq!(s, before, "a nap stores nothing, not even the duration");
    assert!(!o.save, "and so nothing needs to reach flash");
}

/// 0 borrows the wake-check cadence, which is what makes "Sleep now"
/// mean "start the next cycle early" on a board that already sleeps.
#[test]
fn sleep_now_zero_borrows_the_wake_check_interval() {
    let mut s = Stored::new();
    apply(&mut s, &u32_write(ble::CFG_ESP_SLEEP_S, 120));

    let o = apply(&mut s, &u32_write(ble::CFG_SLEEP_NOW, 0));
    assert_eq!(o.action, Action::SleepNow(120));
    assert_eq!(s.sleep_interval_s, 120, "and does not disturb it");
}

/// With no cadence to borrow there is still a defined answer, because
/// the alternative is a button that does nothing on exactly the boards
/// most likely to be sitting on a bench.
#[test]
fn sleep_now_zero_falls_back_when_sleep_mode_is_off() {
    let mut s = Stored::new();
    let o = apply(&mut s, &u32_write(ble::CFG_SLEEP_NOW, 0));
    assert_eq!(o.action, Action::SleepNow(ble::SLEEP_NOW_DEFAULT_S));
}

/// Clamped to the same range as the wake-check interval - including the
/// floor, which the interval itself exempts 0 from. Here 0 already
/// means something else, so nothing reaches the clamp as a zero.
#[test]
fn sleep_now_is_clamped_like_the_wake_check_interval() {
    let mut s = Stored::new();
    assert_eq!(
        apply(&mut s, &u32_write(ble::CFG_SLEEP_NOW, 1)).action,
        Action::SleepNow(ble::ESP_SLEEP_MIN_S)
    );
    assert_eq!(
        apply(&mut s, &u32_write(ble::CFG_SLEEP_NOW, 99_999)).action,
        Action::SleepNow(ble::ESP_SLEEP_MAX_S)
    );
}

/// A short write is rejected rather than read as some other duration.
#[test]
fn sleep_now_needs_a_full_u32() {
    let mut s = Stored::new();
    let o = apply(&mut s, &write(ble::CFG_SLEEP_NOW, &[30, 0]));
    assert_eq!(o.action, Action::Nothing);
    assert_eq!(ack_status(&o), AckStatus::BadValue);
    assert_eq!(ack_id(&o), ble::CFG_SLEEP_NOW);
}

/// The resolver the app shares with the firmware agrees with what
/// `apply` does, which is the only reason it is shared.
#[test]
fn the_app_can_predict_the_duration_before_the_ack() {
    for (asked, cadence) in [(0, 0), (0, 120), (30, 0), (1, 90), (99_999, 10)] {
        let mut s = Stored::new();
        s.sleep_interval_s = cadence;
        let predicted = ble::resolve_sleep_now(asked, cadence);
        assert_eq!(
            apply(&mut s, &u32_write(ble::CFG_SLEEP_NOW, asked)).action,
            Action::SleepNow(predicted),
            "asked {asked}, cadence {cadence}"
        );
    }
}

/// The file only speaks about what it mentions. A push that changes the
/// beacon interval must not reset a duty cycle set from the app, and the
/// no-change return is what keeps a board from rewriting the same flash
/// record on every boot.
#[test]
fn an_absent_power_key_leaves_the_live_value_alone() {
    let mut stored = Stored {
        sleep_interval_s: 60,
        adv_window_s: 10,
        ble_off_s: 45,
        ..Stored::new()
    };
    let before = stored;

    assert!(!stored.adopt_power(&midair_proto::radiocfg::PowerConfig::default()));
    assert_eq!(stored, before);

    // One key present changes that key and nothing else.
    let p = midair_proto::radiocfg::PowerConfig::default().with(Knob::BleOff, 30);
    assert!(stored.adopt_power(&p));
    assert_eq!(stored.ble_off_s, 30);
    assert_eq!(stored.sleep_interval_s, 60);
    assert_eq!(stored.adv_window_s, 10);

    // Adopting the same file again is a no-op, so no flash write.
    assert!(!stored.adopt_power(&p));
}

/// A file that explicitly asks for zero turns the duty cycle off, rather
/// than reading as "unset" - the distinction the `Option` exists for.
#[test]
fn an_explicit_zero_turns_the_duty_cycle_off() {
    let mut stored = Stored {
        ble_off_s: 45,
        ..Stored::new()
    };
    let p = midair_proto::radiocfg::PowerConfig::default().with(Knob::BleOff, 0);
    assert!(stored.adopt_power(&p));
    assert_eq!(stored.ble_off_s, 0);
}

// -- the serve loop ----------------------------------------------------

/// A tracker with an off period: the budget is the on period, expiry
/// drops the modem, and a disconnect lingers.
#[test]
fn serve_runs_a_tracker_s_duty_cycle() {
    let s = Stored {
        mode: Mode::Tracking,
        ble_off_s: 30,
        ble_on_s: 20,
        ..Stored::new()
    };
    let mut serve = Serve::new(0, &s);
    assert_eq!(serve.mode(), Mode::Tracking);
    assert_eq!(serve.pass(0, &s), (false, Next::Advertise { bounded: true }));
    assert_eq!(serve.remaining_ms(0), 20_000);
    assert_eq!(
        serve.on_accept(5_000, Accepted::Connected, &s),
        Step {
            promote: false,
            then: Then::Serve
        }
    );
    // The session outlasts the budget; the disconnect buys a linger.
    assert_eq!(serve.on_session_end(60_000, None, &s), Then::Continue);
    assert_eq!(serve.remaining_ms(60_000), LINGER_S * 1000);
    assert_eq!(serve.pass(60_000, &s), (false, Next::Advertise { bounded: true }));
    assert_eq!(serve.pass(65_000, &s), (false, Next::BleDown { off_s: 30 }));
    assert_eq!(during_ble_down(ServeCommand::SleepNow(9)), Then::Sleep(9));
    assert_eq!(during_ble_down(ServeCommand::ModeChanged), Then::Continue);
    // Expiry while advertising says the same thing.
    let mut serve = Serve::new(0, &s);
    assert_eq!(serve.on_accept(20_000, Accepted::Expired, &s).then, Then::BleDown(30));
}

/// A wake check: a connect attempt, completed or not, promotes it to
/// idle on the idle budget; nobody coming puts it back to sleep.
#[test]
fn serve_promotes_a_wake_check_on_the_attempt() {
    let s = Stored {
        mode: Mode::Stored,
        sleep_interval_s: 120,
        adv_window_s: 15,
        idle_timeout_s: 600,
        ..Stored::new()
    };
    for attempt in [Accepted::Connected, Accepted::Failed] {
        let mut serve = Serve::new(0, &s);
        let step = serve.on_accept(8_000, attempt, &s);
        assert!(step.promote, "{attempt:?}");
        assert_eq!(serve.mode(), Mode::Idle);
        assert_eq!(serve.remaining_ms(8_000), 600_000);
        // The firmware records the promotion; the next pass finds the
        // stored mode equal to the budgeted one and keeps the budget.
        let idle = Stored {
            mode: Mode::Idle,
            ..s
        };
        assert_eq!(serve.pass(20_000, &idle), (false, Next::Advertise { bounded: true }));
        assert_eq!(serve.pass(608_000, &idle), (false, Next::Sleep { interval_s: 120 }));
    }
    let mut serve = Serve::new(0, &s);
    assert_eq!(serve.on_accept(15_000, Accepted::Expired, &s).then, Then::Sleep(120));
    assert_eq!(serve.on_accept(3_000, Accepted::Command(ServeCommand::SleepNow(45)), &s).then, Then::Sleep(45));
}

/// A mode that moved under the loop re-budgets on its own terms.
#[test]
fn serve_rebudgets_when_the_mode_moves() {
    let mut s = Stored {
        mode: Mode::Idle,
        sleep_interval_s: 120,
        idle_timeout_s: 600,
        ..Stored::new()
    };
    let mut serve = Serve::new(0, &s);
    assert_eq!(serve.remaining_ms(0), 600_000);
    assert_eq!(serve.on_accept(1_000, Accepted::Command(ServeCommand::ModeChanged), &s).then, Then::Continue);
    s.mode = Mode::Tracking;
    let (rebudgeted, pass) = serve.pass(1_000, &s);
    assert!(rebudgeted);
    assert_eq!(pass, Next::Advertise { bounded: false });
    assert_eq!(serve.mode(), Mode::Tracking);
    assert_eq!(serve.remaining_ms(1_000), u64::from(ble::BLE_ON_DEFAULT_S) * 1000);
    // Listening never bounds its wait.
    s.mode = Mode::Listening;
    assert_eq!(serve.pass(1_000, &s).1, Next::Advertise { bounded: false });
}

/// A sleep asked for during the session is honored after it, and a
/// failed attempt holds the window without extending a long one.
#[test]
fn serve_sleeps_after_the_session_that_asked() {
    let s = Stored {
        mode: Mode::Idle,
        idle_timeout_s: 600,
        ..Stored::new()
    };
    let mut serve = Serve::new(0, &s);
    assert_eq!(serve.on_session_end(5_000, Some(90), &s), Then::Sleep(90));
    let mut serve = Serve::new(0, &s);
    assert_eq!(serve.on_accept(1_000, Accepted::Failed, &s).then, Then::Retry);
    assert_eq!(serve.window().ends_ms(), 600_000, "an early failure cannot shorten idle");
}

// -- dispatch ----------------------------------------------------------

/// Each action reaches the loop that owns it: overrides and modes to
/// the hardware loop, a nap and a store to the serve loop, and the
/// settings the loops read for themselves nowhere.
#[test]
fn dispatch_sends_each_action_to_the_loop_that_owns_it() {
    let s = Stored {
        sleep_interval_s: 120,
        ..Stored::new()
    };
    let none = Dispatch::default();
    assert_eq!(
        dispatch(Action::GpsSleep(true), &s),
        Dispatch {
            request: Some(Request::GpsSleep(true)),
            ..none
        }
    );
    assert_eq!(
        dispatch(Action::RadioStandby(false), &s),
        Dispatch {
            request: Some(Request::RadioStandby(false)),
            ..none
        }
    );
    assert_eq!(
        dispatch(Action::SetMode(Mode::Tracking), &s),
        Dispatch {
            request: Some(Request::Mode(Mode::Tracking)),
            command: Some(ServeCommand::ModeChanged),
            ..none
        }
    );
    // A store is a sleep on the cadence, not a hardware request: the
    // park happens on the way into the sleep.
    assert_eq!(
        dispatch(Action::SetMode(Mode::Stored), &s),
        Dispatch {
            command: Some(ServeCommand::SleepNow(120)),
            ..none
        }
    );
    assert_eq!(
        dispatch(Action::SetMode(Mode::Stored), &Stored::new()).command,
        Some(ServeCommand::SleepNow(ble::STORE_DEFAULT_S))
    );
    assert_eq!(
        dispatch(Action::SleepNow(30), &s),
        Dispatch {
            command: Some(ServeCommand::SleepNow(30)),
            ..none
        }
    );
    assert_eq!(
        dispatch(Action::NotifyInterval(500), &s),
        Dispatch {
            notify_interval_ms: Some(500),
            ..none
        }
    );
    for a in [
        Action::Knob(Knob::SleepInterval, 60),
        Action::Knob(Knob::AdvWindow, 10),
        Action::Knob(Knob::BleOff, 30),
        Action::Knob(Knob::BleOn, 20),
        Action::Knob(Knob::IdleTimeout, 0),
        Action::Name,
        Action::Nothing,
    ] {
        assert_eq!(dispatch(a, &s), none, "{a:?}");
    }
}

// -- the knob table ----------------------------------------------------

/// One row per knob, in the enum's order, with distinct ids and
/// distinct, word-aligned offsets in both layouts - and the resolve and
/// clamp rules the write path and the read path share.
#[test]
fn the_knob_table_is_consistent() {
    for (i, spec) in KNOBS.iter().map(|k| k.spec()).enumerate() {
        assert_eq!(spec.knob as usize, i, "{:?} is out of order", spec.knob);
        assert_eq!(Knob::ALL[i], spec.knob);
        assert_eq!(Knob::from_id(spec.id), Some(spec.knob));
        assert_eq!(Knob::from_name(spec.name), Some(spec.knob));
        assert_eq!(spec.record_at % 4, 0);
        assert_eq!(spec.wire_at % 4, 0);
        assert!(spec.record_at + 4 <= RECORD_LEN - 4);
        assert!(spec.wire_at + 4 <= ble::SETTINGS_LEN);
        assert!(spec.min <= spec.max);
        for other in KNOBS.iter().skip(i + 1).map(|k| k.spec()) {
            assert_ne!(spec.id, other.id);
            assert_ne!(spec.name, other.name);
            assert_ne!(spec.record_at, other.record_at);
            assert_ne!(spec.wire_at, other.wire_at);
        }
        // A write is clamped the way the zero rule says, and a read
        // resolves what a write could have stored.
        assert_eq!(spec.clamp(spec.max + 1), spec.max);
        assert_eq!(spec.clamp(spec.min), spec.min);
        match spec.zero {
            Zero::Off => {
                assert_eq!(spec.clamp(0), 0);
                assert_eq!(spec.resolve(0), 0);
                assert!(spec.accepts(0));
            }
            Zero::Default(d) => {
                assert_eq!(spec.clamp(0), spec.min);
                assert_eq!(spec.resolve(0), d);
                assert!((spec.min..=spec.max).contains(&d));
            }
        }
        assert!(!spec.accepts(u64::from(spec.max) + 1));
        // The accessors and the fields agree.
        let mut s = Stored::new();
        spec.set(&mut s, 42);
        assert_eq!(spec.get(&s), 42);
        assert_eq!(s.knob_raw(spec.knob), 42);
        let mut w = ble::Settings::default();
        spec.wire_set(&mut w, 7);
        assert_eq!(spec.wire_get(&w), 7);
    }
    // The fields the knobs sit beside in the record.
    assert_eq!(RECORD_LEN, 56);
}

/// Every knob is written by its id, echoed as clamped, and comes back
/// resolved from the settings and intact from the record.
#[test]
fn every_knob_writes_reads_and_persists() {
    for spec in KNOBS.iter().map(|k| k.spec()) {
        let mut s = Stored::new();
        let o = apply(&mut s, &u32_write(spec.id, spec.min + 1));
        assert_eq!(o.action, Action::Knob(spec.knob, spec.min + 1));
        assert!(o.save);
        assert_eq!(ack_u32(&o), spec.min + 1);
        assert_eq!(s.knob(spec.knob), spec.min + 1);
        assert_eq!(spec.wire_get(&s.settings(1_000)), spec.min + 1);
        let back = Stored::decode_record(&s.encode_record()).expect("record");
        assert_eq!(back.knob(spec.knob), spec.min + 1);
        // A short value is refused by id.
        let o = apply(&mut s, &write(spec.id, &[1, 2]));
        assert_eq!(ack_status(&o), AckStatus::BadValue);
        assert_eq!(ack_id(&o), spec.id);
    }
}

/// The rail this board does not have is refused as the unknown id it
/// now is, with nothing stored.
#[test]
fn the_old_rail_id_is_unknown() {
    let mut s = Stored::new();
    let o = apply(&mut s, &write(0x10, &[1]));
    assert_eq!(o.action, Action::Nothing);
    assert_eq!(ack_status(&o), AckStatus::UnknownId);
    assert_eq!(s, Stored::new());
}

/// Calling another node is a command: nothing is stored, and the ack names
/// what was called.
#[test]
fn a_wake_write_calls_a_node() {
    let mut s = Stored::new();
    let o = apply(&mut s, &write(ble::CFG_WAKE, &[7, 1]));
    assert_eq!(o.action, Action::WakeNode { target: 7, tracking: true });
    assert_eq!(o.ack.status, AckStatus::Applied);
    assert!(!o.save);
    assert_eq!(s, Stored::new());
    assert_eq!(dispatch(o.action, &s), Dispatch { wake: Some((7, true)), ..Dispatch::default() });
}

/// The position protocol's refusal is passed on as it is.
#[test]
fn a_foreign_refusal_is_passed_on() {
    let mut s = Stored::new();
    let o = session::apply(&mut s, &[0x7F, 1, 1], Err(Refusal::Other(9)));
    assert_eq!((o.action, o.ack.status, o.save), (Action::Nothing, AckStatus::Other(9), false));
    assert_eq!(o.ack.id, 0x7F);
}

/// The two overrides move independently of each other and of every other bit.
#[test]
fn flags_move_one_at_a_time() {
    let mut s = Stored { flags: 0xFFFF_FFFF, ..Stored::new() };
    s.set_flag(PFLAG_GPS_SLEEP, false);
    assert_eq!(s.flags, 0xFFFF_FFFB);
    assert!(s.radio_standby() && !s.gps_sleep());
    s.set_flag(PFLAG_RADIO_STANDBY, false);
    assert_eq!(s.flags, 0xFFFF_FFF9);
    s.set_flag(PFLAG_GPS_SLEEP, true);
    assert_eq!(s.flags, 0xFFFF_FFFD);
}

/// A budget a central spends is not given back by lingering on a longer one.
#[test]
fn a_linger_is_five_seconds_from_now() {
    let mut w = Window::new(0, 60);
    w.linger(1_000);
    assert_eq!(w.ends_ms(), 1_000 + LINGER_S * 1000);
}

/// A label that is not one is not stored.
#[test]
fn set_label_takes_labels_only() {
    let mut s = Stored::new();
    assert!(s.set_label(b"sky-1"));
    assert!(!s.set_label(b"sky 1"));
    assert_eq!(s.label(), "sky-1");
    assert!(s.set_label(b""));
    assert_eq!(s.label(), "");
}

/// A record with any one bit changed does not read. The version is left alone:
/// it says where the CRC is.
#[test]
fn a_record_with_any_bit_changed_is_refused() {
    let s = Stored { sleep_interval_s: 60, flags: 3, ble_on_s: 9, ..Stored::new() };
    let good = s.encode_record();
    assert_eq!(Stored::decode_record(&good), Some(s));
    for bit in 0..8 * RECORD_LEN {
        if bit / 8 == 4 {
            continue;
        }
        let mut rec = good;
        rec[bit / 8] ^= 1 << (bit % 8);
        assert_eq!(Stored::decode_record(&rec), None, "bit {bit}");
    }
}

/// Whatever the position protocol refuses a write with, it is not acked as
/// applied.
#[test]
fn a_refusal_is_never_acked_as_applied() {
    assert_eq!(Refusal::UnknownId.status(), AckStatus::UnknownId);
    assert_eq!(Refusal::BadValue.status(), AckStatus::BadValue);
    assert_eq!(Refusal::Other(0).status(), AckStatus::Other(0));
}
