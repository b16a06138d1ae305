use midair_proto::ble::Mode;
use midair_proto::posture::{
    on_air, Config, Effect, Effects, Gps, OnAir, Posture, Radio, Request, Requests,
};
use midair_proto::radiocfg::Role;
use midair_proto::session::{Stored, PFLAG_GPS_SLEEP, PFLAG_RADIO_STANDBY};

fn flags(f: u32) -> Stored {
    Stored {
        flags: f,
        ..Stored::new()
    }
}

fn fx(e: Effects) -> Vec<Effect> {
    e.iter().copied().collect()
}

// -- the request set ---------------------------------------------------

/// One slot per kind: a newer mode replaces the older, a repeated park
/// is one park, and nothing is ever refused.
#[test]
fn requests_coalesce_by_kind_and_never_overflow() {
    let mut q = Requests::new();
    assert!(q.is_empty());
    for _ in 0..100 {
        q.push(Request::Mode(Mode::Tracking));
        q.push(Request::Mode(Mode::Idle));
        q.push(Request::PrepareSleep);
        q.push(Request::GpsSleep(true));
        q.push(Request::GpsSleep(false));
    }
    assert!(q.sleep_pending());
    assert_eq!(q.take(), Some(Request::Mode(Mode::Idle)));
    assert_eq!(q.take(), Some(Request::GpsSleep(false)));
    assert_eq!(q.take(), Some(Request::PrepareSleep));
    assert_eq!(q.take(), None);
    assert!(q.is_empty());
    assert!(!q.sleep_pending());
}

/// The drain order is fixed, whatever the arrival order: mode, the
/// two overrides, config, park, reboot.
#[test]
fn requests_drain_in_a_fixed_order() {
    let all = [
        Request::Reboot,
        Request::PrepareSleep,
        Request::ApplyConfig,
        Request::RadioStandby(true),
        Request::GpsSleep(true),
        Request::Mode(Mode::Tracking),
    ];
    let mut q = Requests::new();
    for r in all {
        q.push(r);
    }
    let mut out = Vec::new();
    while let Some(r) = q.take() {
        out.push(r);
    }
    assert_eq!(
        out,
        vec![
            Request::Mode(Mode::Tracking),
            Request::GpsSleep(true),
            Request::RadioStandby(true),
            Request::ApplyConfig,
            Request::PrepareSleep,
            Request::Reboot,
        ]
    );
}

// -- boot ---------------------------------------------------------------

#[test]
fn a_wake_check_raises_nothing_and_reads_no_config() {
    let (p, e) = Posture::at_boot(Mode::Stored, &Stored::new());
    assert_eq!(fx(e), vec![Effect::GpsAssumeParked]);
    assert_eq!(p.config, Config::Unread);
    assert!(!p.busy());
    assert_eq!(p.consistent(&Stored::new()), Ok(()));
}

#[test]
fn idle_reads_the_config_and_parks_the_rest() {
    let (p, e) = Posture::at_boot(Mode::Idle, &Stored::new());
    assert_eq!(fx(e), vec![Effect::LoadConfig, Effect::GpsPark, Effect::RadioSleep]);
    assert_eq!((p.radio, p.gps, p.config), (Radio::Asleep, Gps::Parked, Config::Read));
    assert!(!p.busy());
}

/// Tracking raises everything, then honors each override flag the way
/// the boot path always did.
#[test]
fn tracking_raises_everything_then_honors_the_overrides() {
    let (p, e) = Posture::at_boot(Mode::Tracking, &Stored::new());
    assert_eq!(fx(e), vec![Effect::LoadConfig, Effect::RadioInit, Effect::GpsUp]);
    assert!(p.radio_up() && p.gps_awake());

    let s = flags(PFLAG_GPS_SLEEP | PFLAG_RADIO_STANDBY);
    let (p, e) = Posture::at_boot(Mode::Listening, &s);
    assert_eq!(
        fx(e),
        vec![
            Effect::LoadConfig,
            Effect::RadioInit,
            Effect::GpsUp,
            Effect::GpsPark,
            Effect::RadioStandby
        ]
    );
    assert_eq!((p.radio, p.gps), (Radio::Standby, Gps::Parked));
    assert_eq!(p.consistent(&s), Ok(()));
    assert!(!p.busy());
}

// -- requests ----------------------------------------------------------

/// The regression the flags exposed: a mode commanded on top of an
/// override must leave the hardware where the settings say it is, or
/// the app shows "GPS in backup" beside a receiver that is acquiring.
#[test]
fn a_mode_change_lands_on_the_flags() {
    let s = flags(PFLAG_GPS_SLEEP);
    let (mut p, _) = Posture::at_boot(Mode::Idle, &s);
    let e = p.on(Request::Mode(Mode::Tracking), &s);
    assert_eq!(fx(e), vec![Effect::RadioInit]);
    assert_eq!(p.gps, Gps::Parked, "the flag keeps it parked");
    assert_eq!(p.consistent(&s), Ok(()));

    let e = p.on(Request::Mode(Mode::Idle), &s);
    assert_eq!(fx(e), vec![Effect::RadioSleep]);
    assert_eq!(p.consistent(&s), Ok(()));
}

/// The other regression: waking the GPS while the radio is in standby
/// used to leave a receiver acquiring that nothing polled.
#[test]
fn the_overrides_are_independent_inside_tracking() {
    let s = Stored::new();
    let (mut p, _) = Posture::at_boot(Mode::Tracking, &s);
    assert_eq!(fx(p.on(Request::RadioStandby(true), &s)), vec![Effect::RadioStandby]);
    assert!(!p.radio_up() && p.gps_awake() && p.busy());
    assert_eq!(fx(p.on(Request::GpsSleep(true), &s)), vec![Effect::GpsPark]);
    assert!(!p.busy());
    assert_eq!(fx(p.on(Request::GpsSleep(false), &s)), vec![Effect::GpsUp]);
    assert!(p.gps_awake() && !p.radio_up());
    assert_eq!(fx(p.on(Request::RadioStandby(false), &s)), vec![Effect::RadioInit]);
    assert!(p.radio_up());
    // Asked for what it already has: nothing to do.
    assert!(p.on(Request::RadioStandby(false), &s).is_empty());
    assert!(p.on(Request::GpsSleep(false), &s).is_empty());
}

/// Outside a tracking posture the overrides touch nothing: idle is
/// idle, and a wake check stays dark.
#[test]
fn the_overrides_do_nothing_outside_tracking() {
    let s = Stored::new();
    for boot in [Mode::Stored, Mode::Idle] {
        let (mut p, _) = Posture::at_boot(boot, &s);
        let before = p;
        for r in [
            Request::GpsSleep(false),
            Request::GpsSleep(true),
            Request::RadioStandby(false),
            Request::RadioStandby(true),
        ] {
            assert!(p.on(r, &s).is_empty(), "{boot:?} {r:?}");
            assert_eq!(p, before);
        }
    }
}

/// A promotion reads the config the wake check left unread, and only
/// that.
#[test]
fn a_promotion_reads_the_unread_config() {
    let s = Stored::new();
    let (mut p, _) = Posture::at_boot(Mode::Stored, &s);
    assert_eq!(fx(p.on(Request::Mode(Mode::Idle), &s)), vec![Effect::LoadConfig]);
    assert_eq!(p.config, Config::Read);
    assert_eq!(p.consistent(&s), Ok(()));
    // And a tracking command straight from a wake check raises the lot.
    let (mut p, _) = Posture::at_boot(Mode::Stored, &s);
    assert_eq!(
        fx(p.on(Request::Mode(Mode::Tracking), &s)),
        vec![Effect::LoadConfig, Effect::GpsUp, Effect::RadioInit]
    );
    assert_eq!(p.consistent(&s), Ok(()));
}

/// A config apply brings the radio up as a side effect, so the posture
/// puts it back where it was.
#[test]
fn a_config_apply_puts_the_radio_back() {
    let s = Stored::new();
    let (mut p, _) = Posture::at_boot(Mode::Idle, &s);
    assert_eq!(fx(p.on(Request::ApplyConfig, &s)), vec![Effect::ApplyConfig, Effect::RadioSleep]);
    let (mut p, _) = Posture::at_boot(Mode::Tracking, &s);
    assert_eq!(fx(p.on(Request::ApplyConfig, &s)), vec![Effect::ApplyConfig]);
    let st = flags(PFLAG_RADIO_STANDBY);
    let (mut p, _) = Posture::at_boot(Mode::Tracking, &st);
    assert_eq!(fx(p.on(Request::ApplyConfig, &st)), vec![Effect::ApplyConfig, Effect::RadioStandby]);
    // On a wake check the stored config is read first, so the apply
    // lands on a node that knows what it had.
    let (mut p, _) = Posture::at_boot(Mode::Stored, &s);
    assert_eq!(
        fx(p.on(Request::ApplyConfig, &s)),
        vec![Effect::LoadConfig, Effect::ApplyConfig, Effect::RadioSleep]
    );
}

/// A park takes everything down in the order that loses the least, and
/// ends by saying so.
#[test]
fn a_park_lowers_everything_and_signals() {
    let s = Stored::new();
    let (mut p, _) = Posture::at_boot(Mode::Tracking, &s);
    p.set_sentry(false);
    assert_eq!(
        fx(p.on(Request::PrepareSleep, &s)),
        vec![
            Effect::GpsPark,
            Effect::RadioSleep,
            Effect::PanelBlank,
            Effect::SleepReady
        ]
    );
    assert!(p.parked);
    assert_eq!(p.consistent(&s), Ok(()));
    // A receiver that should already be parked is probed first.
    let (mut p, _) = Posture::at_boot(Mode::Stored, &s);
    p.set_sentry(false);
    let e = p.on(Request::PrepareSleep, &s);
    assert_eq!(e.iter().next(), Some(&Effect::CheckParkHeld));
    assert_eq!(e.len(), 5);
}

/// With the config asking for one, a park arms the radio as a sentry
/// instead of sleeping it - from a radio that is up, directly; from a
/// wake check that has read nothing, after reading the config and
/// initializing the radio from it.
#[test]
fn a_park_arms_a_sentry_when_the_config_asks() {
    let s = Stored::new();
    let (mut p, _) = Posture::at_boot(Mode::Tracking, &s);
    assert_eq!(
        fx(p.on(Request::PrepareSleep, &s)),
        vec![
            Effect::GpsPark,
            Effect::RadioSentry,
            Effect::PanelBlank,
            Effect::SleepReady
        ]
    );
    assert!(p.parked);
    assert_eq!(p.radio, Radio::Sentry);
    assert_eq!(p.consistent(&s), Ok(()));

    let (mut p, _) = Posture::at_boot(Mode::Stored, &s);
    assert_eq!(
        fx(p.on(Request::PrepareSleep, &s)),
        vec![
            Effect::CheckParkHeld,
            Effect::GpsPark,
            Effect::LoadConfig,
            Effect::RadioInit,
            Effect::RadioSentry,
            Effect::PanelBlank,
            Effect::SleepReady
        ]
    );
    assert_eq!(p.consistent(&s), Ok(()));

    // A radio parked in standby is configured already.
    let (mut p, _) = Posture::at_boot(Mode::Tracking, &s);
    p.on(Request::RadioStandby(true), &s);
    let e = fx(p.on(Request::PrepareSleep, &s));
    assert!(!e.contains(&Effect::RadioInit), "{e:?}");
    assert!(e.contains(&Effect::RadioSentry));
}

/// A sentry belongs to a park and nowhere else.
#[test]
fn a_sentry_outside_a_park_is_inconsistent() {
    let s = Stored::new();
    let (mut p, _) = Posture::at_boot(Mode::Idle, &s);
    p.radio = Radio::Sentry;
    assert!(p.consistent(&s).is_err());
    p.parked = true;
    assert_eq!(p.consistent(&s), Ok(()));
    // Never from a config that was not read: the arm needs one.
    p.config = Config::Unread;
    assert!(p.consistent(&s).is_err());
}

#[test]
fn a_reboot_is_only_a_reboot() {
    let s = Stored::new();
    let (mut p, _) = Posture::at_boot(Mode::Tracking, &s);
    assert_eq!(fx(p.on(Request::Reboot, &s)), vec![Effect::Reboot]);
    assert!(!p.parked);
}

#[test]
fn transmit_needs_a_transmitting_mode_and_a_free_board() {
    let s = Stored::new();
    let (p, _) = Posture::at_boot(Mode::Tracking, &s);
    assert!(p.may_transmit(Role::Leaf, false, false));
    assert!(!p.may_transmit(Role::RxOnly, false, false));
    assert!(!p.may_transmit(Role::Leaf, true, false));
    assert!(!p.may_transmit(Role::Leaf, false, true));
    let (p, _) = Posture::at_boot(Mode::Listening, &s);
    assert!(!p.may_transmit(Role::Leaf, false, false));
    let (mut p, _) = Posture::at_boot(Mode::Tracking, &s);
    p.on(Request::RadioStandby(true), &s);
    assert!(!p.may_transmit(Role::Leaf, false, false));
}

/// Once parked for a sleep, a board stays parked: a mode that arrives
/// in the window before the chip goes down must not raise anything
/// for the sleep to happen over.
#[test]
fn a_parked_board_ignores_what_would_raise_it() {
    let s = Stored::new();
    let (mut p, _) = Posture::at_boot(Mode::Tracking, &s);
    p.on(Request::PrepareSleep, &s);
    for r in [
        Request::Mode(Mode::Tracking),
        Request::Mode(Mode::Idle),
        Request::GpsSleep(false),
        Request::RadioStandby(false),
        Request::ApplyConfig,
    ] {
        assert!(p.on(r, &s).is_empty(), "{r:?}");
        assert_eq!(p.consistent(&s), Ok(()), "{r:?}");
    }
    assert!(p.parked);
}

/// The whole mode x role matrix, written down: each half of the air is
/// used only when both words allow it, and a repeat needs the right to
/// transmit.
#[test]
fn the_mode_and_the_role_are_anded() {
    let roles = [Role::Leaf, Role::Repeater, Role::TxOnly, Role::RxOnly];
    for role in roles {
        for mode in [Mode::Stored, Mode::Idle] {
            assert_eq!(
                on_air(mode, role),
                OnAir { transmits: false, receives: false, repeats: false },
                "{mode:?} {role:?}"
            );
        }
        let t = on_air(Mode::Tracking, role);
        assert_eq!(t.transmits, role.transmits(), "{role:?}");
        assert_eq!(t.receives, role.receives(), "{role:?}");
        assert_eq!(t.repeats, role.repeats(), "{role:?}");
        let l = on_air(Mode::Listening, role);
        assert!(!l.transmits && !l.repeats, "{role:?} listening");
        assert_eq!(l.receives, role.receives(), "{role:?} listening");
    }
    // The two ways to say "do not transmit" agree.
    assert_eq!(on_air(Mode::Listening, Role::Leaf), on_air(Mode::Tracking, Role::RxOnly));
}

/// Whatever is asked in whatever order, from every boot, the posture stays
/// one the settings allow.
#[test]
fn every_posture_reached_is_consistent() {
    let requests = [
        Request::Mode(Mode::Tracking),
        Request::Mode(Mode::Listening),
        Request::Mode(Mode::Idle),
        Request::ApplyConfig,
        Request::PrepareSleep,
        Request::Reboot,
    ];
    for f in [0, PFLAG_GPS_SLEEP, PFLAG_RADIO_STANDBY, PFLAG_GPS_SLEEP | PFLAG_RADIO_STANDBY] {
        let s = flags(f);
        for boot in [Mode::Stored, Mode::Idle, Mode::Tracking, Mode::Listening] {
            for a in requests {
                for b in requests {
                    let (mut p, _) = Posture::at_boot(boot, &s);
                    assert_eq!(p.consistent(&s), Ok(()));
                    p.on(a, &s);
                    assert_eq!(p.consistent(&s), Ok(()), "{boot:?} {a:?}");
                    p.on(b, &s);
                    assert_eq!(p.consistent(&s), Ok(()), "{boot:?} {a:?} {b:?}");
                }
            }
        }
    }
}

/// The effects hold what was pushed, and say so.
#[test]
fn effects_are_counted_and_searched() {
    let (_, e) = Posture::at_boot(Mode::Idle, &Stored::new());
    assert_eq!(e.len(), 3);
    assert!(!e.is_empty());
    assert!(e.contains(Effect::GpsPark));
    assert!(!e.contains(Effect::Reboot));
}
