use midair_proto::ble;

/// A GATT service is declared with const u128s; make sure the string forms
/// cannot drift from them.
#[test]
fn uuid_strings_match_u128() {
    fn to_u128(s: &str) -> u128 {
        s.bytes()
            .filter(|&b| b != b'-')
            .fold(0u128, |v, b| v << 4 | (b as char).to_digit(16).unwrap() as u128)
    }
    assert_eq!(to_u128(ble::TELEMETRY_UUID), ble::TELEMETRY_UUID_U128);
    assert_eq!(to_u128(ble::BULK_UUID), ble::BULK_UUID_U128);
    assert_eq!(to_u128(ble::REMOTE_UUID), ble::REMOTE_UUID_U128);
    assert_eq!(to_u128(ble::LOG_UUID), ble::LOG_UUID_U128);
    assert_eq!(to_u128(ble::SETTINGS_UUID), ble::SETTINGS_UUID_U128);
    assert_eq!(to_u128(ble::RADIO_CONFIG_UUID), ble::RADIO_CONFIG_UUID_U128);
    assert_eq!(to_u128(ble::NODE_PING_UUID), ble::NODE_PING_UUID_U128);
    assert_eq!(to_u128(ble::NAME_UUID), ble::NAME_UUID_U128);
    assert_eq!(to_u128(ble::NODE_ID_UUID), ble::NODE_ID_UUID_U128);
    // Same service as the C3 beacon, different characteristic ids.
    let service = "c3a10001-9f6e-4b2c-8f5a-2e32c3b1e5d0";
    for uuid in [ble::TELEMETRY_UUID, ble::BULK_UUID, ble::NODE_ID_UUID] {
        assert_ne!(uuid, service);
        assert_eq!(uuid[8..], service[8..]);
    }
}

/// The pairing an app records: this board is node 3, and node 3 is
/// called sky-1.
#[test]
fn node_id_round_trips() {
    let v = ble::node_id(3, "sky-1");
    assert_eq!(v.len(), ble::NODE_ID_LEN);
    assert_eq!(ble::parse_node_id(&v), Some((3, "sky-1")));
    // The padding a reader stops at is always there: the field is one
    // byte longer than the longest label.
    assert_eq!(v[ble::NODE_ID_LEN - 1], 0);

    let long = "a".repeat(ble::NAME_LABEL_MAX);
    let v = ble::node_id(255, &long);
    assert_eq!(ble::parse_node_id(&v), Some((255, long.as_str())));
}

/// A board that has never been named says so, and is not mistaken for
/// one called something unreadable. The app falls back to the address,
/// which it has either way.
#[test]
fn an_unnamed_board_has_a_node_id_with_no_label() {
    assert_eq!(ble::parse_node_id(&ble::node_id(3, "")), Some((3, "")));
    // Anything that is not a label a board would store reads as
    // unnamed rather than as itself, on the way out and on the way in.
    assert_eq!(ble::parse_node_id(&ble::node_id(3, "sky 1")), Some((3, "")));
    let mut v = ble::node_id(3, "sky-1");
    v[1] = b' ';
    assert_eq!(ble::parse_node_id(&v), Some((3, "")));
    v[1] = 0xFF;
    assert_eq!(ble::parse_node_id(&v), Some((3, "")));
}

/// Address 0 is not assignable, so it is what a board says before its
/// radio is configured - an app must not record a name against it.
#[test]
fn address_zero_is_a_board_that_cannot_say_yet() {
    assert_eq!(ble::parse_node_id(&ble::node_id(0, "sky-1")), Some((0, "sky-1")));
}

/// Short is refused; longer is not, so the value can grow later the
/// way the remote-position one did.
#[test]
fn node_id_tolerates_a_longer_value_and_refuses_a_short_one() {
    let v = ble::node_id(7, "sky-1");
    assert_eq!(ble::parse_node_id(&v[..ble::NODE_ID_LEN - 1]), None);
    assert_eq!(ble::parse_node_id(&[]), None);
    let mut longer = v.to_vec();
    longer.extend_from_slice(&[1, 2, 3]);
    assert_eq!(ble::parse_node_id(&longer), Some((7, "sky-1")));
}

/// The age field is appended, never inserted: everything a reader that
/// predates it knows about sits at the same offset, which is what lets
/// an old app read a new board.
#[test]
fn age_field_is_appended() {
    assert_eq!(ble::REMOTE_LEN, 23);
    assert_eq!(ble::REMOTE_LEN_V2, ble::REMOTE_LEN + 2);
    assert_eq!(ble::REMOTE_AGE_OFF, ble::REMOTE_LEN);
    assert_eq!(ble::NODE_PING_LEN, midair_proto::link::PING_LEN + 2);
    assert_eq!(ble::NODE_PING_AGE_OFF, midair_proto::link::PING_LEN);
}

#[test]
fn settings_roundtrip() {
    let s = ble::Settings {
        radio_standby: false,
        gps_sleep: true,
        sleep_interval_s: 300,
        notify_interval_ms: 1000,
        adv_window_s: 15,
        ble_off_s: 60,
        mode: ble::Mode::Tracking,
        idle_timeout_s: 600,
        ble_on_s: 20,
    };
    let bytes = s.encode();
    assert_eq!(bytes.len(), ble::SETTINGS_LEN);
    assert_eq!(ble::Settings::decode(&bytes), Some(s));
}

#[test]
fn settings_defaults_roundtrip() {
    let s = ble::Settings::default();
    assert_eq!(ble::Settings::decode(&s.encode()), Some(s));
}

#[test]
fn settings_rejects_short_and_wrong_version() {
    let good = ble::Settings::default().encode();
    assert!(ble::Settings::decode(&good[..ble::SETTINGS_LEN - 1]).is_none());
    let mut bad = good;
    bad[0] = ble::SETTINGS_VERSION + 1;
    assert!(ble::Settings::decode(&bad).is_none());
}

/// Every mode survives the blob, and the byte it travels in is the one
/// that used to be padding - so nothing else moved.
#[test]
fn settings_carry_the_mode() {
    for mode in [
        ble::Mode::Stored,
        ble::Mode::Idle,
        ble::Mode::Tracking,
        ble::Mode::Listening,
    ] {
        let s = ble::Settings {
            mode,
            ..Default::default()
        };
        let bytes = s.encode();
        assert_eq!(bytes[2], mode.as_wire());
        assert_eq!(ble::Settings::decode(&bytes), Some(s));
    }
}

/// The wire values are fixed: an app and a board disagreeing about
/// which number means "tracking" is a board that stores itself when it
/// was told to track.
#[test]
fn mode_wire_values_are_fixed() {
    assert_eq!(ble::Mode::Stored.as_wire(), 0);
    assert_eq!(ble::Mode::Idle.as_wire(), 1);
    assert_eq!(ble::Mode::Tracking.as_wire(), 2);
    assert_eq!(ble::Mode::Listening.as_wire(), 3);
    for m in [
        ble::Mode::Stored,
        ble::Mode::Idle,
        ble::Mode::Tracking,
        ble::Mode::Listening,
    ] {
        assert_eq!(ble::Mode::from_wire(m.as_wire()), Some(m));
    }
    assert_eq!(ble::Mode::from_wire(4), None);
    assert_eq!(ble::Mode::default(), ble::Mode::Stored);
}

/// Idle never reaches flash: a board that came back from a reset still
/// believing it was idle would sit at awake current with nobody coming.
/// The two commanded working modes do, so a brownout costs neither.
#[test]
fn idle_persists_as_stored() {
    assert_eq!(ble::Mode::Idle.persisted(), ble::Mode::Stored);
    assert_eq!(ble::Mode::Stored.persisted(), ble::Mode::Stored);
    assert_eq!(ble::Mode::Tracking.persisted(), ble::Mode::Tracking);
    assert_eq!(ble::Mode::Listening.persisted(), ble::Mode::Listening);
}

/// Listening raises what tracking raises and keys nothing up: it is
/// the receiver half of a tracker, for the node beside the phone.
#[test]
fn listening_raises_the_radio_but_never_transmits() {
    assert!(ble::Mode::Tracking.tracks());
    assert!(ble::Mode::Listening.tracks());
    assert!(!ble::Mode::Idle.tracks());
    assert!(!ble::Mode::Stored.tracks());
    assert!(ble::Mode::Tracking.transmits());
    assert!(!ble::Mode::Listening.transmits());
    assert!(!ble::Mode::Idle.transmits());
}

/// A named board is its label, an unnamed one is its address - and
/// both start with the prefix a scanner is searched by.
#[test]
fn advertised_name_covers_named_and_unnamed() {
    // LSB-first, i.e. FF:C6:A1:53:50:47 as a scanner prints it.
    let addr = [0x47, 0x50, 0x53, 0xA1, 0xC6, 0xFF];
    let mut buf = [0u8; ble::NAME_MAX];
    assert_eq!(ble::advertised_name("sky-1", &addr, &mut buf), "ws3gps-sky-1");
    // The two bytes are the two the address ends with, in that order.
    assert_eq!(ble::advertised_name("", &addr, &mut buf), "ws3gps-5047");
}

/// A rejected label does not leave the board nameless: the fallback is
/// the same one an unnamed board gets, not an empty string.
#[test]
fn advertised_name_falls_back_on_a_bad_label() {
    let addr = [0x01, 0x02, 0, 0, 0, 0];
    let mut buf = [0u8; ble::NAME_MAX];
    assert_eq!(ble::advertised_name("has space", &addr, &mut buf), "ws3gps-0201");
}

/// The longest label a board stores still fits everything the name has
/// to travel through.
#[test]
fn longest_name_fits_every_carrier() {
    let label = "x".repeat(ble::NAME_LABEL_MAX);
    let mut buf = [0u8; ble::NAME_MAX];
    let name = ble::advertised_name(&label, &[0; 6], &mut buf);
    assert_eq!(name.len(), ble::NAME_MAX);
    // A 31-byte scan response less the length and type bytes of the
    // complete-local-name AD structure.
    assert!(ble::NAME_MAX <= 29);
    // trouble-host's GAP device name, which is a fixed-size string: a
    // name past it does not truncate, it fails the server build.
    assert!(ble::NAME_MAX <= 22);
    // A full-length label still leaves the field zero-terminated.
    assert!(ble::NAME_LABEL_MAX < ble::NAME_FIELD_LEN);
}

#[test]
fn labels_are_ascii_word_characters() {
    for good in ["a", "sky-1", "ground_2", "A1"] {
        assert!(ble::valid_label(good.as_bytes()), "{good}");
    }
    for bad in ["", "has space", "quote\"", "caf\u{e9}", "a/b"] {
        assert!(!ble::valid_label(bad.as_bytes()), "{bad}");
    }
    let too_long = "x".repeat(ble::NAME_LABEL_MAX + 1);
    assert!(!ble::valid_label(too_long.as_bytes()));
    assert!(ble::valid_label(&too_long.as_bytes()[..ble::NAME_LABEL_MAX]));
}

/// The config characteristic has to be able to carry the longest
/// label, or a name write is truncated by the attribute layer before
/// the policy ever sees it.
#[test]
fn config_write_max_holds_a_full_label() {
    assert_eq!(ble::CONFIG_WRITE_MAX, 2 + ble::NAME_LABEL_MAX);
    assert!(ble::CONFIG_WRITE_MAX <= ble::WRITE_MAX);
}

/// A longer buffer must still decode: a future layout can only grow,
/// and byte 0 is what gates compatibility.
#[test]
fn settings_tolerates_trailing_bytes() {
    let good = ble::Settings::default().encode();
    let mut longer = [0u8; ble::SETTINGS_LEN + 4];
    longer[..ble::SETTINGS_LEN].copy_from_slice(&good);
    assert!(ble::Settings::decode(&longer).is_some());
}

/// The settings blob, byte by byte.
#[test]
fn settings_are_laid_out_as_documented() {
    let s = ble::Settings {
        radio_standby: true,
        gps_sleep: true,
        sleep_interval_s: 0x0102,
        notify_interval_ms: 1000,
        adv_window_s: 15,
        ble_off_s: 60,
        mode: ble::Mode::Tracking,
        idle_timeout_s: 600,
        ble_on_s: 20,
    };
    let b = s.encode();
    assert_eq!(&b[..8], &[ble::SETTINGS_VERSION, 6, 2, 0, 2, 1, 0, 0]);
    assert_eq!(&b[8..], &[0xE8, 3, 0, 0, 15, 0, 0, 0, 60, 0, 0, 0, 0x58, 2, 0, 0, 20, 0, 0, 0]);
}

/// A sleep that names no length takes the configured one, and one that is
/// not configured the default; what is asked for is brought into range.
#[test]
fn sleep_now_resolves_its_length() {
    assert_eq!(ble::resolve_sleep_now(0, 0), ble::SLEEP_NOW_DEFAULT_S);
    assert_eq!(ble::resolve_sleep_now(0, 120), 120);
    assert_eq!(ble::resolve_sleep_now(30, 120), 30);
    assert_eq!(ble::resolve_sleep_now(1, 120), ble::ESP_SLEEP_MIN_S);
    assert_eq!(ble::resolve_sleep_now(u32::MAX, 120), ble::ESP_SLEEP_MAX_S);
}

/// What a mode is called.
#[test]
fn modes_have_their_words() {
    assert_eq!(ble::Mode::Stored.as_str(), "stored");
    assert_eq!(ble::Mode::Idle.as_str(), "idle");
    assert_eq!(ble::Mode::Tracking.as_str(), "tracking");
    assert_eq!(ble::Mode::Listening.as_str(), "listening");
}
