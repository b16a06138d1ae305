use midair_proto::radiocfg::RadioConfig;
use midair_proto::sentry::{
    check, duty_steps_from_us, duty_us_from_steps, min_rx_us, plan, Refusal, Sentry, Step, Waker, DUTY_STEPS_MAX,
    WAKE_GAP_MS, WAKE_TRIES,
};

/// The shipped default: SF12, BW500, one channel, 300 ms every 3 s.
fn cfg() -> RadioConfig {
    RadioConfig::default()
}

#[test]
fn duty_steps_round_trip_at_the_step() {
    assert_eq!(duty_steps_from_us(125), 8);
    assert_eq!(duty_us_from_steps(8), 125);
    assert_eq!(duty_steps_from_us(1_000_000), 64_000);
    assert_eq!(duty_us_from_steps(64_000), 1_000_000);
    assert_eq!(duty_steps_from_us(u32::MAX), DUTY_STEPS_MAX);
}

/// The bench's five arms, against a 165-symbol preamble (1 351 680 us
/// at SF12/BW500). The three that woke on every frame are inside both
/// bounds; the one that lost a third of them is over the upper bound;
/// and the old arm, whose symbol timeout was the real fault, is not
/// something this model can express - it is what the model forbids.
#[test]
fn the_bounds_sort_the_bench_arms_as_measured() {
    let preamble = 165 * cfg().symbol_time_us();
    let inside = |rx_ms: u32, sleep_ms: u32| {
        let s = Sentry::new(&cfg(), rx_ms * 1000, sleep_ms * 1000);
        preamble >= s.preamble_min_us() && preamble <= s.preamble_max_us()
    };
    assert!(inside(300, 900), "100% (29 of 29)");
    assert!(inside(250, 950), "100% (29 of 29)");
    assert!(!inside(150, 1000), "62% (18 of 29): the hold is too short");
    let short = Sentry::new(&cfg(), 150_000, 1_000_000);
    assert!(preamble > short.preamble_max_us());
    assert!(preamble >= short.preamble_min_us());
}

#[test]
fn the_sleep_cancels_out_of_the_margin() {
    let a = Sentry::new(&cfg(), 300_000, 1_000_000);
    let b = Sentry::new(&cfg(), 300_000, 4_000_000);
    assert_eq!(a.margin_us(), b.margin_us());
    // 2 * 300 - 10 - 65.5 - 65.5 ms
    assert_eq!(a.margin_us(), 600_000 - 10_000 - 8 * 8_192 - 8 * 8_192);
    // And a longer window is the only thing that widens it.
    let c = Sentry::new(&cfg(), 400_000, 1_000_000);
    assert!(c.margin_us() > a.margin_us());
}

#[test]
fn the_default_config_is_feasible_with_room_for_drift() {
    let s = plan(&cfg(), 8).expect("the shipped default arms");
    assert!(s.feasible());
    let syms = s.preamble_symbols().unwrap();
    let us = syms * s.t_sym_us;
    assert!(us >= s.preamble_min_us() && us <= s.preamble_max_us());
    // A percent-level RC oscillator over a 3 s sleep is tens of ms;
    // the default tolerates several percent.
    assert!(s.drift_tolerance_ppm() >= 40_000, "{} ppm", s.drift_tolerance_ppm());
    // And the receiver is off most of the time.
    assert!(s.duty_permille() < 120, "{} permille", s.duty_permille());
}

#[test]
fn a_window_under_the_floor_admits_no_preamble() {
    let floor = min_rx_us(&cfg());
    let under = Sentry::new(&cfg(), floor - 1_000, 3_000_000);
    assert!(!under.feasible());
    assert_eq!(under.preamble_symbols(), None);
    let at = Sentry::new(&cfg(), floor, 3_000_000);
    assert!(at.feasible());
    let mut c = cfg();
    c.wake_rx_ms = ((floor - 1_000) / 1000) as u16;
    assert_eq!(plan(&c, 8), Err(Refusal::NoPreambleFits));
}

#[test]
fn refusals_name_their_cause() {
    let mut c = cfg();
    c.wake_enabled = false;
    assert_eq!(plan(&c, 8), Err(Refusal::Disabled));
    let mut c = cfg();
    c.hop_channels = 50;
    assert_eq!(plan(&c, 8), Err(Refusal::DwellExceeded));
    // Neither overflow is reachable from the config keys at the
    // default modulation - the periods top out at 65 s, the timer at
    // 262 s and the preamble at 536 s - so both are checked on
    // sentries built by hand.
    let huge = Sentry::new(&cfg(), 300_000_000, 300_000_000);
    assert_eq!(check(&cfg(), &huge, 8), Err(Refusal::PeriodTooLong));
    // At SF7 a symbol is 256 us, so 65535 of them is under 17 s and a
    // 40 s preamble does not fit the field.
    let mut fast = cfg();
    fast.spreading_factor = 7;
    let long = Sentry::new(&fast, 20_000_000, 20_000_000);
    assert_eq!(check(&fast, &long, 8), Err(Refusal::PreambleTooLong));
}

#[test]
fn a_waker_sends_listens_and_stops_on_the_first_answer() {
    let mut w = Waker::new(5, false, 1).with_shape(3, 1_000);
    assert_eq!(w.step(0), Step::Send);
    w.sent(0);
    assert_eq!(w.step(500), Step::Wait);
    w.heard(6);
    assert_eq!(w.step(600), Step::Wait, "someone else is not the answer");
    w.heard(5);
    assert_eq!(w.step(700), Step::Done { heard: true });
    assert!(w.is_done());
    assert_eq!(w.step(5_000), Step::Done { heard: true });
}

#[test]
fn a_waker_gives_up_after_its_tries() {
    let mut w = Waker::new(5, true, 1).with_shape(2, 1_000);
    assert_eq!(w.step(0), Step::Send);
    w.sent(0);
    assert_eq!(w.step(1_000), Step::Send);
    w.sent(1_000);
    assert_eq!(w.step(1_999), Step::Wait);
    assert_eq!(w.step(2_000), Step::Done { heard: false });
    w.heard(5);
    assert_eq!(w.step(2_001), Step::Done { heard: false }, "too late");
}

#[test]
fn a_broadcast_takes_any_answer() {
    let mut w = Waker::new(midair_proto::lora::WAKE_BROADCAST, false, 9);
    assert_eq!(w.step(0), Step::Send);
    w.sent(0);
    w.heard(42);
    assert_eq!(w.step(1), Step::Done { heard: true });
}

/// The exact numbers of the shipped default.
#[test]
fn the_default_sentry_in_numbers() {
    let s = Sentry::from_config(&cfg());
    assert_eq!(s, Sentry { rx_us: 300_000, sleep_us: 3_000_000, tcxo_us: 10_000, t_sym_us: 8_192 });
    assert_eq!(s.cycle_us(), 3_310_000);
    assert_eq!(s.hold_us(), 3_600_000);
    assert_eq!(s.preamble_min_us(), 3_075_536);
    assert_eq!(s.preamble_max_us(), 3_534_464);
    assert_eq!(s.margin_us(), 458_928);
    assert_eq!(s.preamble_symbols(), Some(403));
    assert_eq!(s.drift_tolerance_ppm(), 76_488);
    assert_eq!(s.duty_permille(), 90);
    assert_eq!((s.rx_steps(), s.sleep_steps()), (19_200, 192_000));
    assert_eq!(min_rx_us(&cfg()), 70_536);
    assert_eq!(s.wake_airtime_us(&cfg(), 8), Some(cfg().time_on_air_preamble_us(8, 403)));
}

/// Every count of steps survives the trip to microseconds and back.
#[test]
fn steps_survive_the_trip() {
    for steps in [0, 1, 7, 63, 64, 65, 12_345, DUTY_STEPS_MAX - 1, DUTY_STEPS_MAX] {
        assert_eq!(duty_steps_from_us(duty_us_from_steps(steps)), steps);
    }
}

/// The periods stop at a word rather than wrapping.
#[test]
fn long_periods_saturate() {
    let s = Sentry { rx_us: u32::MAX, sleep_us: u32::MAX, tcxo_us: u32::MAX, t_sym_us: 1_000 };
    assert_eq!(s.cycle_us(), u32::MAX);
    assert_eq!(s.hold_us(), u32::MAX);
    assert_eq!(s.preamble_min_us(), u32::MAX);
    assert!(!s.feasible());
    assert_eq!(s.margin_us(), 0);
    assert_eq!(s.duty_permille(), 1_000);
    let asleep = Sentry { rx_us: 0, sleep_us: 0, tcxo_us: 0, t_sym_us: 1_000 };
    assert_eq!((asleep.duty_permille(), asleep.drift_tolerance_ppm()), (0, 0));
}

/// Each refusal says what to do about it.
#[test]
fn refusals_have_their_sentences() {
    assert_eq!(Refusal::Disabled.as_str(), "wake_enabled is off");
    assert_eq!(Refusal::NoPreambleFits.as_str(), "no preamble fits - lengthen wake_rx_ms");
    assert_eq!(Refusal::PreambleTooLong.as_str(), "the preamble does not fit the packet parameters");
    assert_eq!(Refusal::PeriodTooLong.as_str(), "a period overflows the chip's timer");
    assert_eq!(Refusal::DwellExceeded.as_str(), "hopping - a wake frame would hold one channel too long");
}

/// The usual burst: three frames, four seconds apart, and then it is over
/// whatever still arrives.
#[test]
fn the_usual_burst_is_three_frames() {
    let mut w = Waker::new(9, false, 1);
    let mut now = 0;
    for _ in 0..WAKE_TRIES {
        assert_eq!(w.step(now), Step::Send);
        w.sent(now);
        now += u64::from(WAKE_GAP_MS);
        assert_eq!(w.step(now - 1), Step::Wait);
    }
    assert_eq!(w.step(now), Step::Done { heard: false });
    w.sent(now);
    assert_eq!(w.step(now + 1), Step::Done { heard: false });
    assert!(w.is_done());
}

/// The middle of the window rounds down, unless that is under the bound and
/// the next symbol up is inside it.
#[test]
fn the_preamble_rounds_into_the_window() {
    let s = Sentry::new(&cfg(), 74_000, 3_000_000);
    assert_eq!((s.preamble_min_us(), s.preamble_max_us()), (3_075_536, 3_082_464));
    assert_eq!(s.preamble_symbols(), Some(376));
    assert!(375 * s.t_sym_us < s.preamble_min_us());
    assert!((s.preamble_min_us()..=s.preamble_max_us()).contains(&(376 * s.t_sym_us)));
    // A window no whole symbol falls into keeps the middle as it is.
    let s = Sentry::new(&cfg(), 72_000, 3_000_000);
    assert_eq!((s.preamble_min_us(), s.preamble_max_us()), (3_075_536, 3_078_464));
    assert_eq!(s.preamble_symbols(), Some(375));
    assert!(376 * s.t_sym_us > s.preamble_max_us());
}

/// However often it is asked, a burst sends its tries and no more, is heard
/// only once the node it wakes has answered, and stays over.
#[test]
fn a_burst_never_sends_more_than_its_tries() {
    for answer_at in [None, Some(0), Some(1_500), Some(9_000)] {
        let mut w = Waker::new(5, false, 1).with_shape(3, 1_000);
        let mut sends = 0;
        let mut answered = false;
        let mut over = None;
        for now in (0..10_000).step_by(100) {
            w.heard(6);
            if answer_at.is_some_and(|at| now >= at) && !answered {
                w.heard(5);
                answered = true;
            }
            match w.step(now) {
                Step::Send => {
                    sends += 1;
                    w.sent(now);
                    assert_eq!(over, None, "a burst that was over sent again");
                }
                Step::Wait => assert_eq!(over, None, "a burst that was over waits again"),
                Step::Done { heard } => {
                    assert!(!heard || answered);
                    assert_eq!(*over.get_or_insert(heard), heard);
                }
            }
        }
        assert!(sends <= 3);
        assert_eq!(over, Some(answer_at.is_some_and(|at| at < 3_000)));
    }
}

/// An answer between a send and its report ends the burst like any other, and
/// the report costs nothing.
#[test]
fn an_answer_before_the_frame_is_reported_ends_the_burst() {
    let mut w = Waker::new(5, false, 1).with_shape(3, 1_000);
    assert_eq!(w.step(0), Step::Send);
    w.heard(5);
    w.sent(20);
    assert_eq!(w.step(30), Step::Done { heard: true });
    w.sent(40);
    assert_eq!(w.step(5_000), Step::Done { heard: true });
    assert!(w.is_done());
}
