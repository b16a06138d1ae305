use midair_proto::hop::Plan;
use midair_proto::lora;
use midair_proto::radiocfg::{
    key, key_at, parse, parse_bytes, section_at, write_example, ConfigError, DynModel, GpsConfig, Kind, PowerConfig,
    PowerMode, RadioConfig, Role, TcxoVolts, KEYS, MAX_HOPS_LIMIT, RADIO_CONFIG_LEN, RADIO_CONFIG_LEN_HOP,
    RADIO_CONFIG_LEN_PING, RADIO_CONFIG_LEN_V1, RADIO_CONFIG_VERSION, SECTIONS,
};
use midair_proto::session::Knob;

/// The reference file, as it is printed.
fn example_file() -> String {
    let mut out = String::new();
    write_example(&mut out);
    out
}

#[test]
fn defaults_when_empty() {
    assert_eq!(parse("").unwrap(), RadioConfig::default());
    assert_eq!(parse("# just a comment\n\n").unwrap(), RadioConfig::default());
}

/// The reference file states in its header that its values are the
/// firmware defaults. It is also what an app lays down for a board with no
/// config yet: since the app writes every key explicitly, a stale value
/// here is not corrected by the default it drifted from - it silently
/// becomes the board's setting.
#[test]
fn example_file_documents_the_real_defaults() {
    let example = example_file();
    assert_eq!(parse(&example).unwrap(), RadioConfig::default());
}

/// Why a reader must never hand this parser a truncated file.
///
/// Comments and blank lines are skipped, so any prefix that happens to end
/// on a line boundary parses clean - it is simply a file with fewer keys,
/// and every key it lost comes back as its default. There is nothing in the
/// result to say it was cut. The example file is the worst case of that:
/// its first 1024 bytes, the ceiling both transfer paths enforce, are all
/// header comment, so a truncated read of it succeeds and yields *every*
/// setting at its default - address included.
///
/// So the size check belongs at the reader - the flash record refuses a
/// text it cannot hold whole - and cannot be delegated to a parse failure.
#[test]
fn a_truncated_file_parses_as_a_shorter_one() {
    let example = example_file();
    // The head of the file up to its first key: comments and a section
    // header, which is the shape a 1024-byte cut of it takes.
    let first_key = example.find("\nfrequency_hz").expect("the example starts at the radio");
    let head = &example.as_bytes()[..first_key + 1];
    assert!(head.len() >= 1024, "the header is shorter than a config read");
    assert_eq!(parse_bytes(head), Ok(RadioConfig::default()));
    // Not a quirk of that one offset: a config cut after its first key
    // keeps that key and defaults the rest, silently.
    let cut = parse("address = 7\nspreading_factor = 9").unwrap();
    assert_eq!((cut.address, cut.spreading_factor), (7, 9));
    let truncated = parse("address = 7\n").unwrap();
    assert_eq!(truncated.address, 7);
    assert_eq!(truncated.spreading_factor, RadioConfig::default().spreading_factor);
}

#[test]
fn full_file() {
    let toml = r#"
        # telemetry-in-midair radio config
        [radio]
        frequency_hz = 915_000_000
        spreading_factor = 10
        bandwidth_khz = 125
        coding_rate = 8
        power_dbm = 14
        rx_boost = true

        [mesh]
        address = 3
        role = "repeater"
        max_hops = 2

        [beacon]
        interval_s = 30
    "#;
    let cfg = parse(toml).unwrap();
    assert_eq!(cfg.frequency_hz, 915_000_000);
    assert_eq!(cfg.spreading_factor, 10);
    assert_eq!(cfg.coding_rate, 8);
    assert_eq!(cfg.power_dbm, 14);
    assert!(cfg.rx_boost);
    assert_eq!(cfg.address, 3);
    assert_eq!(cfg.role, Role::Repeater);
    assert_eq!(cfg.max_hops, 2);
    assert_eq!(cfg.beacon_interval_s, 30);
    assert!(!cfg.ldro());
}

#[test]
fn role_defaults_to_leaf_with_one_repeat_allowed() {
    let cfg = RadioConfig::default();
    assert_eq!(cfg.role, Role::Leaf);
    assert_eq!(cfg.max_hops, 1);
    assert_eq!(parse("role = \"leaf\"").unwrap().role, Role::Leaf);
    assert_eq!(parse("max_hops = 0").unwrap().max_hops, 0);
    assert_eq!(parse("role = repeater").unwrap().role, Role::Repeater);
    assert_eq!(parse("role = \"gateway\""), Err(ConfigError::BadValue(1)));
    assert_eq!(parse("max_hops = 9"), Err(ConfigError::OutOfRange(1)));
}

#[test]
fn one_way_roles_parse() {
    assert_eq!(parse("role = \"tx_only\"").unwrap().role, Role::TxOnly);
    assert_eq!(parse("role = \"rx_only\"").unwrap().role, Role::RxOnly);
    // Near misses are typos, not a mode to guess at.
    assert_eq!(parse("role = \"tx\""), Err(ConfigError::BadValue(1)));
    assert_eq!(parse("role = \"txonly\""), Err(ConfigError::BadValue(1)));
}

/// Each role uses exactly the halves of the air interface it names, and
/// only a repeater forwards. These drive the radio's idle state and the
/// beacon gate, so getting one wrong is a node that is silently deaf or
/// silently mute.
#[test]
fn roles_use_the_halves_they_name() {
    for (role, tx, rx, repeats) in [
        (Role::Leaf, true, true, false),
        (Role::Repeater, true, true, true),
        (Role::TxOnly, true, false, false),
        (Role::RxOnly, false, true, false),
    ] {
        assert_eq!(role.transmits(), tx, "{role:?} transmits");
        assert_eq!(role.receives(), rx, "{role:?} receives");
        assert_eq!(role.repeats(), repeats, "{role:?} repeats");
    }
}

/// A repeater has to hear a frame before it can forward one, so no role
/// may repeat without receiving.
#[test]
fn repeating_implies_receiving() {
    for role in [Role::Leaf, Role::Repeater, Role::TxOnly, Role::RxOnly] {
        assert!(!role.repeats() || role.receives(), "{role:?}");
    }
}

#[test]
fn legacy_lifetime_maps_to_hop_count() {
    // The old key counted transmissions; 2 meant "one repeat".
    assert_eq!(parse("lifetime = 2").unwrap().max_hops, 1);
    assert_eq!(parse("lifetime = 1").unwrap().max_hops, 0);
    assert_eq!(parse("lifetime = 16").unwrap().max_hops, MAX_HOPS_LIMIT);
    assert_eq!(parse("lifetime = 0"), Err(ConfigError::OutOfRange(1)));
    // listen_ms is gone; an old card carrying it still parses.
    assert_eq!(parse("listen_ms = 900").unwrap(), RadioConfig::default());
}

/// The default is one channel with the slot clock running, and every
/// key of the plan is bounded. One channel is a plan, not the absence
/// of one: it still cuts slots into turns. Zero is the absence of one.
#[test]
fn the_default_is_one_channel_with_a_clock() {
    let cfg = RadioConfig::default();
    assert_eq!((cfg.hop_channels, cfg.hop_step_khz, cfg.hop_dwell_ms), (1, 500, 1000));
    let plan = Plan::from_config(&cfg).unwrap();
    // Nowhere to hop to: every slot is frequency_hz itself.
    assert_eq!(plan.span_hz(), (cfg.frequency_hz, cfg.frequency_hz));
    for slot in 0..8 {
        assert_eq!(plan.frequency_for_slot(slot), cfg.frequency_hz);
    }
    // But the turns are there, which is the point of keeping it.
    assert!(plan.sub_slots >= 2);

    // 0 was "no plan" once; the schedule is always on, so it reads as
    // the one-channel plan it is.
    assert_eq!(parse("hop_channels = 0").unwrap().hop_channels, 1);
    assert_eq!(parse("hop_channels = 0").unwrap(), RadioConfig::default());
    assert_eq!(parse("hop_channels = 50").unwrap().hop_channels, 50);

    assert_eq!(parse("hop_channels = 64").unwrap().hop_channels, 64);
    assert_eq!(parse("hop_channels = 256"), Err(ConfigError::OutOfRange(1)));
    assert_eq!(parse("hop_channels = many"), Err(ConfigError::BadValue(1)));
    assert_eq!(parse("hop_step_khz = 200").unwrap().hop_step_khz, 200);
    assert_eq!(parse("hop_step_khz = 24"), Err(ConfigError::OutOfRange(1)));
    assert_eq!(parse("hop_step_khz = 5001"), Err(ConfigError::OutOfRange(1)));
    assert_eq!(parse("hop_dwell_ms = 400").unwrap().hop_dwell_ms, 400);
    assert_eq!(parse("hop_dwell_ms = 99"), Err(ConfigError::OutOfRange(1)));
    assert_eq!(parse("hop_dwell_ms = 10001"), Err(ConfigError::OutOfRange(1)));
}

/// A plan has to fit the radio: fifty 5 MHz channels around 915 MHz
/// would put channels below 150 MHz and above 960. The error names the
/// last of the keys that shaped the plan, whatever order they came in.
#[test]
fn a_hop_plan_must_fit_the_radio() {
    assert_eq!(
        parse("hop_step_khz = 5000\nhop_channels = 200"),
        Err(ConfigError::OutOfRange(2))
    );
    assert_eq!(
        parse("hop_channels = 200\nhop_step_khz = 5000"),
        Err(ConfigError::OutOfRange(2))
    );
    // A plan at the band edge fits only while every carrier is in range:
    // 41 channels about 160 MHz put the lowest exactly on 150 MHz, and
    // one more puts it below.
    assert!(parse("frequency_hz = 160_000_000\nhop_channels = 41").is_ok());
    assert_eq!(
        parse("frequency_hz = 160_000_000\nhop_channels = 42"),
        Err(ConfigError::OutOfRange(2))
    );
    // One channel has no span to fail with, whatever the step.
    assert!(parse("hop_channels = 1\nhop_step_khz = 5000").is_ok());
}

/// The sync word is four bytes on every frame - every node is on the
/// schedule - so the frame overhead is the header and the word, on a
/// one-channel plan as much as on fifty.
#[test]
fn every_frame_carries_the_sync_word() {
    let on = RadioConfig::default();
    let wide = RadioConfig { hop_channels: 50, ..on };
    assert_eq!(on.frame_overhead(), lora::HEADER_SYNC_LEN);
    assert_eq!(wide.frame_overhead(), lora::HEADER_SYNC_LEN);
    assert_eq!(on.beacon_airtime_us(), wide.beacon_airtime_us());
    assert!(on.ping_airtime_us() < on.beacon_airtime_us());
    // At SF12/BW500 the four bytes ride in the same symbol block, so the
    // default beacon stays under 300 ms and well inside a 1 s slot.
    assert!(on.beacon_airtime_us() < 300_000, "{} us", on.beacon_airtime_us());
    let plan = Plan::from_config(&on).unwrap();
    assert!(plan.fits(on.beacon_airtime_us().div_ceil(1000)));
}

/// A position every second and a ping every five: the defaults, each
/// on its own key with the same bounds as the beacon interval.
#[test]
fn ping_has_its_own_slower_interval() {
    let cfg = RadioConfig::default();
    assert_eq!(cfg.beacon_interval_s, 1);
    assert_eq!(cfg.ping_interval_s, 5);
    assert_eq!(parse("ping_interval_s = 30").unwrap().ping_interval_s, 30);
    assert_eq!(parse("ping_interval_s = 0").unwrap().ping_interval_s, 0);
    assert_eq!(parse("ping_interval_s = 3601"), Err(ConfigError::OutOfRange(1)));
    assert_eq!(parse("ping_interval_s = soon"), Err(ConfigError::BadValue(1)));
    // The beacon key alone does not move the ping.
    assert_eq!(parse("interval_s = 20").unwrap().ping_interval_s, 5);
    // At a 1 s interval the id wraps in about four minutes, and the
    // dedup window still sits well inside that.
    assert!(u32::from(cfg.dedup_ttl_s) * 10 < 256 * u32::from(cfg.beacon_interval_s));
}

#[test]
fn dedup_ttl_parses_and_is_bounded() {
    assert_eq!(RadioConfig::default().dedup_ttl_s, 3);
    assert_eq!(parse("dedup_ttl_s = 120").unwrap().dedup_ttl_s, 120);
    assert_eq!(parse("dedup_ttl_s = 0"), Err(ConfigError::OutOfRange(1)));
    assert_eq!(parse("dedup_ttl_s = 3601"), Err(ConfigError::OutOfRange(1)));
    assert_eq!(parse("dedup_ttl_s = often"), Err(ConfigError::BadValue(1)));
}

/// Built from explicit modulation rather than from the default, which is
/// itself the slowest spreading factor and so has nothing to grow into.
#[test]
fn repeat_jitter_tracks_air_time() {
    let mut cfg = RadioConfig {
        spreading_factor: 7,
        bandwidth_khz: 125,
        ..RadioConfig::default()
    };
    let fast = cfg.repeat_jitter_ms();
    cfg.spreading_factor = 12;
    assert!(cfg.repeat_jitter_ms() > fast);
}

#[test]
fn ldro_and_timeouts_scale() {
    // SF7/BW125 is the scale's own reference point, so pin it here rather
    // than lean on the default (which is a slower modulation).
    let mut cfg = RadioConfig {
        spreading_factor: 7,
        bandwidth_khz: 125,
        ..RadioConfig::default()
    };
    assert!(!cfg.ldro());
    assert_eq!(cfg.airtime_scale(), 1);

    cfg.spreading_factor = 12;
    assert!(cfg.ldro());
    assert_eq!(cfg.airtime_scale(), 32);
    assert!(cfg.tx_poll_timeout_ms() > 4_000);
    assert!(cfg.tx_chip_timeout_ms() > cfg.tx_poll_timeout_ms());

    cfg.bandwidth_khz = 62;
    assert!(cfg.ldro());
    assert_eq!(cfg.airtime_scale(), 64);

    cfg.spreading_factor = 11;
    cfg.bandwidth_khz = 125;
    assert!(cfg.ldro());
    cfg.spreading_factor = 10;
    assert!(!cfg.ldro());
}

/// Time-on-air against values worked out by hand from the Semtech formula,
/// so a change to the arithmetic that shifts the result is caught. The
/// default beacon is the 46.3 ms figure the docs quote.
#[test]
fn time_on_air_matches_hand_calc() {
    // SF7, BW125, CR 4/5, with a header (3) + position lat/lon (10) =
    // 13-byte PHY payload: the 46.3 ms figure the docs quote. Every
    // frame carries the sync word as well, which makes the beacon 17
    // bytes and one more symbol block, 5.1 ms at this modulation.
    let mut cfg = RadioConfig {
        spreading_factor: 7,
        bandwidth_khz: 125,
        ..RadioConfig::default()
    };
    assert_eq!(cfg.time_on_air_us(13), 46_336);
    assert_eq!(cfg.time_on_air_us(17), 51_456);
    assert_eq!(cfg.beacon_airtime_us(), 51_456);

    // The shipped default (SF12/BW500) beacon: ~289 ms. Shorter than the
    // ~330 ms of the SF9/BW62.5 it replaced, despite the far higher
    // spreading factor, because 2^12/500 kHz and 2^9/62.5 kHz are the
    // same 8.192 ms symbol and SF12 needs fewer of them per byte.
    assert_eq!(RadioConfig::default().beacon_airtime_us(), 288_768);

    // The no-fix ping that goes out in the same slot: header + 4 bytes,
    // ~248 ms, so a node reporting a missing fix spends less air time
    // than one reporting a position.
    let ping = lora::HEADER_LEN + lora::PING_MSG_LEN;
    assert_eq!(RadioConfig::default().time_on_air_us(ping), 247_808);

    // The same ping with the sync word (11 bytes) rides in the same
    // symbol block, so hopping costs it nothing at this modulation.
    assert_eq!(RadioConfig::default().ping_airtime_us(), 247_808);

    // Slowest modulation the parser accepts, largest frame the firmware
    // sends: SF12 / BW62.5 / CR 4/8 with LDRO on, 39 bytes (header,
    // sync word and a full payload) -> ~5.5 s.
    cfg.spreading_factor = 12;
    cfg.bandwidth_khz = 62;
    cfg.coding_rate = 8;
    assert!(cfg.ldro());
    assert_eq!(cfg.time_on_air_us(lora::FRAME_MAX), 5_521_408);

    // Same frame at BW125 is exactly half the symbol time, so ~2.8 s.
    cfg.bandwidth_khz = 125;
    assert_eq!(cfg.time_on_air_us(lora::FRAME_MAX), 2_760_704);
}

/// A longer beacon payload costs more airtime, and airtime climbs steeply
/// with the spreading factor - the two levers a range-vs-limit trade pulls.
#[test]
fn beacon_airtime_grows_with_fields_and_sf() {
    // Fields are measured against the shipped default, since that is the
    // payload choice the default actually makes.
    let base = RadioConfig::default();
    let mut richer = base;
    richer.beacon_fields = lora::FIELDS_ALL;
    assert!(richer.beacon_airtime_us() > base.beacon_airtime_us());

    // The spreading factor needs a base with room above it: the default
    // is SF12, the slowest the parser accepts.
    let fast = RadioConfig {
        spreading_factor: 9,
        ..base
    };
    let mut slower = fast;
    slower.spreading_factor = 10;
    assert!(slower.beacon_airtime_us() > fast.beacon_airtime_us());
}

#[test]
fn beacon_fields_default_to_position_only() {
    let cfg = RadioConfig::default();
    assert_eq!(cfg.beacon_fields, lora::FIELD_LAT | lora::FIELD_LON);
    assert_eq!(lora::position_msg_len(cfg.beacon_fields), 10);
}

#[test]
fn beacon_fields_parse() {
    let mask = parse("fields = \"lat,lon,altitude,time\"").unwrap().beacon_fields;
    assert_eq!(
        mask,
        lora::FIELD_LAT | lora::FIELD_LON | lora::FIELD_ALT | lora::FIELD_TIME
    );
    // Whitespace, the short spellings and the aliased key all work.
    assert_eq!(
        parse("beacon_fields = \"lat, lon, alt\"").unwrap().beacon_fields,
        lora::FIELD_LAT | lora::FIELD_LON | lora::FIELD_ALT
    );
    assert_eq!(parse("fields = \"lat,lon\"").unwrap(), RadioConfig::default());
}

#[test]
fn beacon_fields_reject_nonsense() {
    // Unknown field name.
    assert_eq!(parse("fields = \"lat,lon,heading\""), Err(ConfigError::BadValue(1)));
    // A transmission without a position is not a position transmission.
    assert_eq!(parse("fields = \"altitude\""), Err(ConfigError::OutOfRange(1)));
    assert_eq!(parse("fields = \"lat\""), Err(ConfigError::OutOfRange(1)));
    assert_eq!(parse("fields = \"\""), Err(ConfigError::BadValue(1)));
}

#[test]
/// The defaults are the Wio-S3's hardware. `tcxo_volts` in particular
/// is not free: DIO3 supplies the SKY13453-385LF antenna switch as well
/// as the TCXO, and that part is specified 2.5 - 3.5 V, so the 1.8 V
/// this used to carry from the Wio-E5 left the switch undefined with
/// the PA transmitting into it.
fn tcxo_and_regulator_defaults_match_the_wio_s3() {
    let cfg = RadioConfig::default();
    assert!(cfg.dcdc_enabled);
    assert_eq!(cfg.tcxo_volts, TcxoVolts::V3_3);
    assert_eq!(cfg.tcxo_volts.trim(), 0x7);
    assert_eq!(cfg.tcxo_startup_ms, 10);
    // 0x5 is 2.7 V, the lowest trim at or above the switch's minimum.
    assert!(cfg.tcxo_volts.trim() >= 0x5);
}

#[test]
fn tcxo_and_regulator_parse() {
    assert!(!parse("dcdc_enabled = false").unwrap().dcdc_enabled);
    assert_eq!(parse("tcxo_volts = \"3.3\"").unwrap().tcxo_volts, TcxoVolts::V3_3);
    assert_eq!(parse("tcxo_volts = \"1.6\"").unwrap().tcxo_volts.trim(), 0x0);
    assert_eq!(parse("tcxo_startup_ms = 50").unwrap().tcxo_startup_ms, 50);
    // A voltage the chip has no trim setting for is a typo, not a
    // value to round to the nearest one.
    assert_eq!(parse("tcxo_volts = \"3.0V\""), Err(ConfigError::BadValue(1)));
    assert_eq!(parse("tcxo_volts = \"5.0\""), Err(ConfigError::BadValue(1)));
    assert_eq!(parse("tcxo_startup_ms = 0"), Err(ConfigError::OutOfRange(1)));
    assert_eq!(parse("tcxo_startup_ms = 2000"), Err(ConfigError::OutOfRange(1)));
}

/// The ESP has no copy of the config, so this key only reaches it as a
/// telemetry flag bit - see [`midair_proto::link::TELEM_FLAG_VERBOSE`].
#[test]
fn verbose_defaults_on_and_can_be_turned_off() {
    assert!(RadioConfig::default().verbose);
    assert!(!parse("verbose = false").unwrap().verbose);
    assert!(parse("verbose = true").unwrap().verbose);
    assert_eq!(parse("verbose = quiet"), Err(ConfigError::BadValue(1)));
}

/// A file written when the firmware still drove a card parses, and
/// the key changes nothing.
#[test]
fn the_retired_sd_key_is_accepted_and_ignored() {
    assert_eq!(parse("sd_enabled = false").unwrap(), RadioConfig::default());
    assert_eq!(parse("sd_enabled = yes"), Err(ConfigError::BadValue(1)));
}

#[test]
fn gps_defaults_when_section_absent() {
    assert_eq!(parse("frequency_hz = 915000000").unwrap().gps, GpsConfig::default());
}

#[test]
fn gps_section() {
    let toml = r#"
        [gps]
        gps_enabled = true
        glonass_enabled = true
        galileo_enabled = false
        beidou_enabled = false
        qzss_enabled = false
        sbas_enabled = false
        power_mode = "psmoo"
        meas_rate_ms = 500
        dynamic_model = "airborne2g"
    "#;
    let g = parse(toml).unwrap().gps;
    assert!(g.gps_enabled);
    assert!(g.glonass_enabled);
    assert!(!g.galileo_enabled);
    assert!(!g.sbas_enabled);
    assert_eq!(g.power_mode, PowerMode::PsmOnOff);
    assert_eq!(g.power_mode.operate_mode(), 1);
    assert_eq!(g.meas_rate_ms, 500);
    assert_eq!(g.dyn_model, DynModel::Airborne2g);
    assert_eq!(g.dyn_model.dynmodel(), 7);
}

#[test]
fn rejects_bad_gps_input() {
    assert_eq!(parse("gps_enabled = maybe"), Err(ConfigError::BadValue(1)));
    assert_eq!(parse("power_mode = \"turbo\""), Err(ConfigError::BadValue(1)));
    assert_eq!(parse("dynamic_model = spaceship"), Err(ConfigError::BadValue(1)));
    assert_eq!(parse("meas_rate_ms = 10"), Err(ConfigError::OutOfRange(1)));
    assert_eq!(parse("meas_rate_ms = 20000"), Err(ConfigError::OutOfRange(1)));
}

#[test]
fn rejects_bad_input() {
    assert_eq!(parse("frequency_hz = maybe"), Err(ConfigError::BadValue(1)));
    assert_eq!(parse("spreading_factor = 13"), Err(ConfigError::OutOfRange(1)));
    assert_eq!(parse("bandwidth_khz = 100"), Err(ConfigError::OutOfRange(1)));
    assert_eq!(parse("power_dbm = 23"), Err(ConfigError::OutOfRange(1)));
    assert_eq!(parse("address = 0"), Err(ConfigError::OutOfRange(1)));
    assert_eq!(parse("rx_boost = 1"), Err(ConfigError::BadValue(1)));
    assert_eq!(parse("\nnot a kv line"), Err(ConfigError::Syntax(2)));
    assert_eq!(parse_bytes(&[0xFF, 0xFE]), Err(ConfigError::Utf8));
    // Unknown keys pass through untouched.
    assert!(parse("future_knob = 42").is_ok());
}

#[test]
fn radio_config_blob_roundtrips() {
    // A config that differs from the defaults in every field type: an
    // integer, a signed value, each enum, the field mask and bools on
    // both flag bytes, so a swapped byte cannot pass unnoticed.
    let cfg = RadioConfig {
        frequency_hz: 868_100_000,
        spreading_factor: 12,
        bandwidth_khz: 250,
        coding_rate: 8,
        power_dbm: -9,
        rx_boost: false,
        hop_channels: 64,
        hop_step_khz: 200,
        hop_dwell_ms: 400,
        address: 200,
        role: Role::Repeater,
        max_hops: 3,
        dedup_ttl_s: 120,
        beacon_interval_s: 30,
        ping_interval_s: 7,
        beacon_fields: lora::FIELD_LAT | lora::FIELD_LON | lora::FIELD_ALT,
        verbose: false,
        dcdc_enabled: false,
        dio2_rf_switch: true,
        tcxo_volts: TcxoVolts::V3_3,
        tcxo_startup_ms: 250,
        wake_enabled: false,
        wake_rx_ms: 450,
        wake_sleep_ms: 7_500,
        wake_frequency_hz: 927_000_000,
        gps: GpsConfig {
            gps_enabled: true,
            glonass_enabled: true,
            galileo_enabled: false,
            beidou_enabled: false,
            qzss_enabled: true,
            sbas_enabled: false,
            power_mode: PowerMode::PsmCyclic,
            meas_rate_ms: 500,
            dyn_model: DynModel::Airborne4g,
        },
        // Left at the default: the blob does not carry the duty cycle,
        // so a non-default here would fail the round trip by design.
        power: PowerConfig::default(),
    };
    let bytes = cfg.encode();
    assert_eq!(bytes.len(), RADIO_CONFIG_LEN);
    assert_eq!(bytes[0], RADIO_CONFIG_VERSION);
    assert_eq!(RadioConfig::decode(&bytes), Some(cfg));
}

/// The antenna switch is a board property, and on the Wio-S3 it is
/// wired, so a card that says nothing about it must leave it on. The
/// key must also not ride on any of the flag byte's other bits: a board
/// that stops driving DIO2 ramps its PA into an isolated switch on
/// every transmission.
#[test]
fn dio2_rf_switch_is_on_unless_refused() {
    assert!(RadioConfig::default().dio2_rf_switch);
    let quiet = parse("rx_boost = true\ndcdc_enabled = true\n").unwrap();
    assert!(quiet.dio2_rf_switch);

    let off = parse("dio2_rf_switch = false\n").unwrap();
    assert!(!off.dio2_rf_switch);
    // and it did not disturb the other bools sharing the flag byte
    let d = RadioConfig::default();
    assert_eq!(off.rx_boost, d.rx_boost);
    assert_eq!(off.verbose, d.verbose);
    assert_eq!(off.dcdc_enabled, d.dcdc_enabled);

    assert!(!RadioConfig::decode(&off.encode()).unwrap().dio2_rf_switch);
    assert!(RadioConfig::decode(&d.encode()).unwrap().dio2_rf_switch);
}

#[test]
fn radio_config_blob_defaults_roundtrip() {
    let cfg = RadioConfig::default();
    assert_eq!(RadioConfig::decode(&cfg.encode()), Some(cfg));
}

#[test]
fn radio_config_blob_rejects_short_and_wrong_version() {
    let good = RadioConfig::default().encode();
    assert_eq!(RadioConfig::decode(&good[..RADIO_CONFIG_LEN_V1 - 1]), None);
    let mut bad = good;
    bad[0] = RADIO_CONFIG_VERSION + 1;
    assert_eq!(RadioConfig::decode(&bad), None);
}

/// A blob from a board that predates the hop plan is the first 28 bytes
/// of this one with a zero where `hop_channels` now sits. It decodes,
/// and it decodes as a board that does not hop - which is the truth
/// about that board. A blob cut anywhere inside the hop fields reads
/// the same way rather than half a plan.
#[test]
fn radio_config_blob_from_before_hopping_reads_as_one_channel() {
    let good = RadioConfig { beacon_interval_s: 20, ..RadioConfig::default() }.encode();
    let old = RadioConfig::decode(&good[..RADIO_CONFIG_LEN_V1]).unwrap();
    assert_eq!(old.hop_channels, 1);
    assert_eq!(old.hop_step_khz, RadioConfig::default().hop_step_khz);
    assert_eq!(old.hop_dwell_ms, RadioConfig::default().hop_dwell_ms);
    // Such a board pinged on its beacon interval, so that is what it
    // reads back as pinging on.
    assert_eq!(old.ping_interval_s, 20);
    // And it had no sentry: the flag byte's bit was never set, so it
    // reads as off rather than as the default that came later.
    assert!(!old.wake_enabled);
    assert_eq!(old.wake_rx_ms, RadioConfig::default().wake_rx_ms);
    assert_eq!(
        RadioConfig { ping_interval_s: 5, wake_enabled: true, ..old },
        RadioConfig { beacon_interval_s: 20, ..RadioConfig::default() }
    );
    // A blob with the plan but not the ping interval: hopping as sent,
    // ping on the beacon interval.
    let hop_only = RadioConfig::decode(&good[..RADIO_CONFIG_LEN_HOP]).unwrap();
    assert_eq!(hop_only.hop_channels, 1);
    assert_eq!(hop_only.ping_interval_s, 20);
    // Cut inside a field, the field is absent rather than half-read.
    let cut = RadioConfig::decode(&good[..RADIO_CONFIG_LEN - 1]).unwrap();
    assert_eq!(cut.wake_sleep_ms, RadioConfig::default().wake_sleep_ms);
    assert!(!cut.wake_enabled);
    assert_eq!(RadioConfig::decode(&good[..RADIO_CONFIG_LEN_PING - 1]).unwrap().ping_interval_s, 20);
    assert_eq!(RadioConfig::decode(&good[..RADIO_CONFIG_LEN_HOP - 1]).unwrap().hop_channels, 1);
}

/// A longer buffer must still decode: a future layout can only grow, and
/// byte 0 is what gates compatibility.
#[test]
fn radio_config_blob_tolerates_trailing_bytes() {
    let good = RadioConfig::default().encode();
    let mut longer = [0u8; RADIO_CONFIG_LEN + 4];
    longer[..RADIO_CONFIG_LEN].copy_from_slice(&good);
    assert!(RadioConfig::decode(&longer).is_some());
}

/// The blob has to survive both transports it rides: one UART link frame
/// (see [`midair_proto::link::MAX_PAYLOAD`]) and a single BLE read.
#[test]
fn radio_config_blob_fits_its_transports() {
    const { assert!(RADIO_CONFIG_LEN <= midair_proto::link::MAX_PAYLOAD) };
    // Conservative ATT_MTU-3 floor.
    const { assert!(RADIO_CONFIG_LEN <= 244) };
}

/// Every enum's string form has to parse back to the same variant, since
/// that round-trip is what lets a reader render the blob into TOML the
/// firmware then accepts.
#[test]
fn enum_strings_parse_back() {
    for role in [Role::Leaf, Role::Repeater, Role::TxOnly, Role::RxOnly] {
        assert_eq!(Role::from_wire(role.to_wire()), Some(role));
        let toml = format!("role = \"{}\"", role.as_str());
        assert_eq!(parse(&toml).unwrap().role, role);
    }
    for v in [TcxoVolts::V1_6, TcxoVolts::V1_8, TcxoVolts::V3_3] {
        assert_eq!(TcxoVolts::from_trim(v.trim()), Some(v));
        let toml = format!("tcxo_volts = \"{}\"", v.as_str());
        assert_eq!(parse(&toml).unwrap().tcxo_volts, v);
    }
    for pm in [PowerMode::Full, PowerMode::PsmOnOff, PowerMode::PsmCyclic] {
        assert_eq!(PowerMode::from_operate_mode(pm.operate_mode()), Some(pm));
        let toml = format!("power_mode = \"{}\"", pm.as_str());
        assert_eq!(parse(&toml).unwrap().gps.power_mode, pm);
    }
    for dm in [DynModel::Portable, DynModel::Sea, DynModel::Airborne4g] {
        assert_eq!(DynModel::from_dynmodel(dm.dynmodel()), Some(dm));
        let toml = format!("dynamic_model = \"{}\"", dm.as_str());
        assert_eq!(parse(&toml).unwrap().gps.dyn_model, dm);
    }
}
/// An absent `[power]` section must leave every field `None`, because
/// `None` is what the firmware reads as "do not touch the board's live
/// duty cycle". A default that was `Some(0)` would make every config
/// push silently disable the BLE off period.
#[test]
fn a_file_with_no_power_section_asks_for_nothing() {
    let cfg = parse("frequency_hz = 915000000").unwrap();
    assert_eq!(cfg.power, PowerConfig::default());
    assert!(cfg.power.is_empty());
    assert_eq!(cfg.power.get(Knob::BleOff), None);
}

/// A zero is a value, not an absence: writing `ble_off_s = 0` is how a
/// file says "keep BLE up", and it has to override a board that was left
/// duty-cycling.
#[test]
fn an_explicit_zero_is_still_a_request() {
    let cfg = parse("ble_off_s = 0\nsleep_interval_s = 0\nadv_window_s = 0").unwrap();
    assert_eq!(cfg.power.get(Knob::BleOff), Some(0));
    assert_eq!(cfg.power.get(Knob::SleepInterval), Some(0));
    assert_eq!(cfg.power.get(Knob::AdvWindow), Some(0));
    assert_eq!(cfg.power.get(Knob::BleOn), None);
}

#[test]
fn power_values_parse_and_range_check() {
    let cfg = parse(
        "[power]\nble_off_s = 30\nadv_window_s = 10\nsleep_interval_s = 120\nidle_timeout_s = 900\nble_on_s = 20",
    )
    .unwrap();
    assert_eq!(cfg.power.get(Knob::BleOff), Some(30));
    assert_eq!(cfg.power.get(Knob::AdvWindow), Some(10));
    assert_eq!(cfg.power.get(Knob::SleepInterval), Some(120));
    assert_eq!(cfg.power.get(Knob::IdleTimeout), Some(900));
    assert_eq!(cfg.power.get(Knob::BleOn), Some(20));

    // Below the floor but not zero, and above the ceiling, on each key.
    for bad in [
        "ble_off_s = 1",
        "ble_off_s = 301",
        "adv_window_s = 61",
        "sleep_interval_s = 1",
        "sleep_interval_s = 3601",
        "idle_timeout_s = 9",
        "idle_timeout_s = 3601",
        "ble_on_s = 61",
    ] {
        assert_eq!(
            parse(bad),
            Err(ConfigError::OutOfRange(1)),
            "{bad} should have been rejected"
        );
    }
}

// -- the key table -----------------------------------------------------

/// Every key in the table is one the parser accepts at its own default,
/// commented or not, and every section it names exists.
#[test]
fn every_key_in_the_table_parses_at_its_default() {
    let cfg = RadioConfig::default();
    for i in 0..KEYS.len() {
        let k = key_at(i);
        assert!((0..SECTIONS.len()).any(|j| section_at(j).name == k.section), "{} in no section", k.name);
        assert_eq!(key(k.name).map(|x| x.name), Some(k.name));
        let mut line = format!("{} = ", k.name);
        k.show(&cfg, &mut line);
        let parsed = parse(&line).unwrap_or_else(|e| panic!("{line}: {e:?}"));
        // A power key at 0 is a request, so the config differs by
        // exactly that; everything else is the default it printed.
        match Knob::from_name(k.name) {
            Some(knob) => assert_eq!(parsed.power.get(knob), Some(0)),
            None => assert_eq!(parsed, cfg, "{line}"),
        }
        // And a value past the bounds is refused with a line number.
        match k.kind {
            Kind::Int { max, .. } | Kind::IntOrZero { max, .. } => {
                let over = format!("{} = {}", k.name, max + 1);
                assert_eq!(parse(&over), Err(ConfigError::OutOfRange(1)), "{over}");
            }
            Kind::IntChoice(_) => {
                assert_eq!(parse(&format!("{} = 1", k.name)), Err(ConfigError::OutOfRange(1)));
            }
            Kind::Choice(_) => {
                let bad = format!("{} = \"nonsense\"", k.name);
                assert_eq!(parse(&bad), Err(ConfigError::BadValue(1)), "{bad}");
            }
            Kind::Bool => {
                assert_eq!(parse(&format!("{} = maybe", k.name)), Err(ConfigError::BadValue(1)));
            }
            Kind::Fields => {}
        }
    }
    // The aliases resolve to table keys.
    for alias in ["beacon_interval_s", "beacon_fields", "dyn_model"] {
        assert!(key(alias).is_some(), "{alias}");
    }
    assert!(key("no_such_key").is_none());
}

/// The dedup window has to sit inside the beacon id's wrap, and the
/// file is refused otherwise - against whichever line set it up.
#[test]
fn the_dedup_window_must_fit_the_id_wrap() {
    assert!(parse("dedup_ttl_s = 200").is_ok());
    assert_eq!(parse("dedup_ttl_s = 201"), Err(ConfigError::OutOfRange(1)));
    assert_eq!(parse("interval_s = 1\ndedup_ttl_s = 201"), Err(ConfigError::OutOfRange(2)));
    assert!(parse("interval_s = 2\ndedup_ttl_s = 400").is_ok());
    // A silenced node has no ids to wrap.
    assert!(parse("interval_s = 0\ndedup_ttl_s = 3600").is_ok());
    // The interval line takes the blame when the window was left at
    // its default and the interval moved under it.
    assert!(parse("dedup_ttl_s = 3").is_ok());
}

/// A key moves its own setting and leaves every other.
#[test]
fn a_key_moves_one_setting() {
    let d = RadioConfig::default();
    assert_eq!(parse("address = 9").unwrap(), RadioConfig { address: 9, ..d });
    assert_eq!(parse("power_dbm = -9").unwrap(), RadioConfig { power_dbm: -9, ..d });
    assert_eq!(
        parse("dynamic_model = \"sea\"").unwrap(),
        RadioConfig { gps: GpsConfig { dyn_model: DynModel::Sea, ..d.gps }, ..d }
    );
    assert_eq!(
        parse("ble_on_s = 7").unwrap(),
        RadioConfig { power: PowerConfig::default().with(Knob::BleOn, 7), ..d }
    );
}

/// The last line that sets a key wins, and an error is the first line's that
/// has one.
#[test]
fn a_file_reads_line_by_line() {
    assert_eq!(parse("address = 1\naddress = 2\n").unwrap().address, 2);
    assert_eq!(parse("address = 1\naddress = 0\nnonsense\n"), Err(ConfigError::OutOfRange(2)));
    assert_eq!(parse("\n\n[radio\n"), Err(ConfigError::Syntax(3)));
    assert_eq!(parse("address = 5 # five\r\n").unwrap().address, 5);
    assert_eq!(parse("address = "), Err(ConfigError::Syntax(1)));
    assert_eq!(parse("address = 1_0").unwrap().address, 10);
}

/// What is put in is what comes out, knob by knob.
#[test]
fn power_requests_are_kept_by_knob() {
    let mut p = PowerConfig::default();
    for (i, knob) in Knob::ALL.iter().enumerate() {
        assert_eq!(p.get(*knob), None);
        p.set(*knob, i as u32 + 1);
    }
    for (i, knob) in Knob::ALL.iter().enumerate() {
        assert_eq!(p.get(*knob), Some(i as u32 + 1));
    }
    assert!(!p.is_empty());
}

/// The blob's bytes at the default.
#[test]
fn the_default_blob_byte_by_byte() {
    let b = RadioConfig::default().encode();
    assert_eq!(b[0], RADIO_CONFIG_VERSION);
    assert_eq!(u32::from_le_bytes([b[4], b[5], b[6], b[7]]), 915_000_000);
    assert_eq!(b[8], 12);
    assert_eq!(u16::from_le_bytes([b[9], b[10]]), 500);
}

/// The wake carrier is the configured one, or the node's own.
#[test]
fn the_wake_carrier_defaults_to_the_frequency() {
    let d = RadioConfig::default();
    assert_eq!(RadioConfig { wake_frequency_hz: 0, ..d }.wake_carrier_hz(), d.frequency_hz);
    assert_eq!(RadioConfig { wake_frequency_hz: 927_000_000, ..d }.wake_carrier_hz(), 927_000_000);
}

/// The costs that follow from one airtime, at the reference modulation.
#[test]
fn timeouts_at_the_reference_modulation() {
    let cfg = RadioConfig { spreading_factor: 7, bandwidth_khz: 125, ..RadioConfig::default() };
    assert_eq!(cfg.symbol_time_us(), 1_024);
    assert_eq!(cfg.time_on_air_preamble_us(13, 8), 46_336);
    assert!(cfg.tx_worst_case_ms() >= cfg.tx_poll_timeout_ms());
    // 12.25 symbols of preamble and eight of header.
    assert_eq!(cfg.header_time_us(), 20_736);
    assert_eq!(RadioConfig::default().header_time_us(), 165_888);
}

/// A line that says nothing may stand anywhere: the file reads as it did, and
/// an error behind it is the same one a line further down.
#[test]
fn a_line_that_says_nothing_may_stand_anywhere() {
    let quiet = ["", "  \t", "# a comment", "[radio]", "  [any section]  # with a comment", "unheard_of = 7", "sd_enabled = true"];
    let good = ["spreading_factor = 7", "address = 9", "fields = \"lat,lon,time\""];
    let bad = ["spreading_factor = 7", "address = 900", "role = \"leaf\""];
    let read = parse(&good.join("\n"));
    assert!(read.is_ok());
    assert_eq!(parse(&bad.join("\n")), Err(ConfigError::OutOfRange(2)));
    for line in quiet {
        for at in 0..=3 {
            let mut lines = good.to_vec();
            lines.insert(at, line);
            assert_eq!(parse(&lines.join("\n")), read, "{line:?} at {at}");
            let mut lines = bad.to_vec();
            lines.insert(at, line);
            let named = if at <= 1 { 3 } else { 2 };
            assert_eq!(parse(&lines.join("\n")), Err(ConfigError::OutOfRange(named)), "{line:?} at {at}");
        }
    }
}
