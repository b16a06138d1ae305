use midair_proto::rxgate::{Irq, RxGate, Seen, Stage, LATE_POLL_MS};

/// The default modulation's numbers, as the driver computes them:
/// 166 ms preamble plus header with 20 ms of slack, 452 ms longest
/// frame.
fn gate() -> RxGate {
    RxGate::new(186, 452)
}

fn preamble() -> Irq {
    Irq {
        preamble: true,
        ..Irq::default()
    }
}

fn header() -> Irq {
    Irq {
        header_valid: true,
        ..Irq::default()
    }
}

fn done(crc_ok: bool) -> Irq {
    Irq {
        rx_done: true,
        crc_err: !crc_ok,
        ..Irq::default()
    }
}

#[test]
fn a_preamble_is_held_for_a_header_time_and_no_longer() {
    let mut g = gate();
    assert_eq!(g.observe(1_000, preamble()), Seen::Arriving);
    assert_eq!(g.stage(), Some(Stage::Preamble));
    assert!(g.in_progress(1_185));
    assert!(!g.in_progress(1_186));
    // A re-fire on noise does not extend the hold.
    assert_eq!(g.observe(1_100, preamble()), Seen::Arriving);
    assert!(!g.in_progress(1_186));
    // After the lapse, nothing is arriving.
    assert_eq!(g.observe(1_200, Irq::default()), Seen::Nothing);
}

#[test]
fn a_header_lifts_the_hold_to_a_frame_from_the_preamble() {
    let mut g = gate();
    g.observe(1_000, preamble());
    assert_eq!(g.observe(1_170, header()), Seen::Arriving);
    assert_eq!(g.stage(), Some(Stage::Header));
    assert!(g.in_progress(1_451));
    assert!(!g.in_progress(1_452));
}

/// The trap: a preamble that was noise, then a real frame whose
/// preamble and header bits arrive in one read. The hold must run
/// from the header, not from the stale preamble.
#[test]
fn a_header_after_a_lapsed_preamble_starts_a_fresh_hold() {
    let mut g = gate();
    g.observe(1_000, preamble());
    let both = Irq {
        preamble: true,
        header_valid: true,
        ..Irq::default()
    };
    assert_eq!(g.observe(1_400, both), Seen::Arriving);
    assert!(g.in_progress(1_400 + 451));
    assert!(!g.in_progress(1_400 + 452));
}

#[test]
fn a_packet_end_clears_the_hold_and_says_whether_the_crc_passed() {
    let mut g = gate();
    g.observe(1_000, preamble());
    g.observe(1_170, header());
    assert_eq!(g.observe(1_300, done(true)), Seen::Packet { crc_ok: true });
    assert!(!g.in_progress(1_300));
    assert_eq!(g.stage(), None);
    g.observe(2_000, header());
    assert_eq!(g.observe(2_100, done(false)), Seen::Packet { crc_ok: false });
    assert!(!g.in_progress(2_100));
}

#[test]
fn a_header_error_gives_the_frame_up() {
    let mut g = gate();
    g.observe(1_000, preamble());
    let err = Irq {
        header_err: true,
        ..Irq::default()
    };
    assert_eq!(g.observe(1_100, err), Seen::Nothing);
    assert!(!g.in_progress(1_100));
}

/// The hop waits for a frame in progress and no longer than a slot,
/// and leaving clears what it was waiting for.
#[test]
fn a_hop_waits_for_the_hold_and_at_most_a_slot() {
    let mut g = gate();
    g.observe(1_000, header());
    assert!(!g.may_leave(1_100, 1_000));
    assert!(g.may_leave(1_452, 1_000));
    assert_eq!(g.stage(), None);
    // A hold longer than the slot is cut to the slot.
    let mut g = RxGate::new(186, 3_000);
    g.observe(1_000, header());
    assert!(!g.may_leave(1_999, 1_000));
    assert!(g.may_leave(2_000, 1_000));
    // Nothing arriving: free to go.
    assert!(gate().may_leave(0, 1_000));
}

#[test]
fn a_late_poll_is_noticed() {
    let mut g = gate();
    assert!(!g.begin_poll(0));
    assert!(!g.begin_poll(LATE_POLL_MS));
    assert!(g.begin_poll(2 * LATE_POLL_MS + 1));
    assert!(g.poll_late());
    assert!(!g.begin_poll(2 * LATE_POLL_MS + 11));
}

#[test]
fn a_retime_forgets_the_old_modulation_s_frame() {
    let mut g = gate();
    g.observe(1_000, header());
    g.retime(100, 200);
    assert!(!g.in_progress(1_000));
    g.observe(2_000, preamble());
    assert!(g.in_progress(2_099));
    assert!(!g.in_progress(2_100));
}

/// Whatever was seen, the longer hold is the last moment of it.
#[test]
fn a_hold_ends() {
    let mut g = gate();
    g.observe(1_000, header());
    assert_eq!(g.hold_ms(), 452);
    assert!(g.in_progress(1_451));
    assert!(!g.in_progress(1_452));
    g.clear();
    assert_eq!(g.stage(), None);
    g.observe(2_000, preamble());
    assert_eq!(g.hold_ms(), 186);
}
