use midair_proto::hop::{
    permutation, Clock, Offer, Plan, SyncWord, AGE_STEP_MS, SLOT_MASK, STRATUM_GPS, STRATUM_MAX,
};
use midair_proto::radiocfg::RadioConfig;

fn plan() -> Plan {
    let cfg = RadioConfig { hop_channels: 50, ..RadioConfig::default() };
    Plan::from_config(&cfg).expect("fifty channels hop")
}

/// The default plan fills the 902-928 MHz band with fifty 500 kHz
/// channels about 915 MHz, every carrier a whole channel inside the
/// band edges.
#[test]
fn default_plan_covers_the_us_band() {
    let p = plan();
    assert_eq!(p.channels, 50);
    assert_eq!(p.dwell_ms, 1000);
    let (lo, hi) = p.span_hz();
    assert_eq!(lo, 902_750_000);
    assert_eq!(hi, 927_250_000);
    // Symmetric about the center, and evenly spaced.
    assert_eq!(hi - 915_000_000, 915_000_000 - lo);
    for i in 1..p.channels {
        assert_eq!(p.channel_hz(i) - p.channel_hz(i - 1), 500_000);
    }
    // An index past the end is the last channel, never past the band.
    assert_eq!(p.channel_hz(200), hi);
}

/// An odd count puts a channel on the center itself.
#[test]
fn odd_count_has_a_channel_on_the_center() {
    let p = Plan { channels: 51, ..plan() };
    assert_eq!(p.channel_hz(25), 915_000_000);
}

/// Every cycle uses every channel exactly once, and consecutive cycles
/// use them in different orders.
#[test]
fn each_cycle_is_a_fresh_permutation() {
    let p = plan();
    let n = p.cycle();
    let mut orders = alloc_orders(&p, 0..4);
    for order in &orders {
        let mut seen = [false; 256];
        for &c in order {
            assert!(!seen[c as usize], "channel {c} twice in a cycle");
            seen[c as usize] = true;
        }
        assert_eq!(order.len() as u32, n);
    }
    let first = orders.remove(0);
    assert!(orders.iter().all(|o| *o != first));
}

fn alloc_orders(p: &Plan, cycles: core::ops::Range<u32>) -> std::vec::Vec<std::vec::Vec<u8>> {
    cycles
        .map(|c| (0..p.cycle()).map(|i| p.index_for_slot(c * p.cycle() + i)).collect())
        .collect()
}

/// A node that transmits every k-th slot must still spread across the
/// channels over time. With a fixed order and k sharing a factor with n
/// it would cycle through a handful; reshuffling each cycle fixes that.
#[test]
fn a_periodic_sender_uses_every_channel() {
    let p = plan();
    let mut hit = [false; 256];
    for k in 0..2_000u32 {
        hit[p.index_for_slot(k * 20) as usize] = true;
    }
    assert!(hit[..p.channels as usize].iter().all(|&h| h));
}

/// The order is a function of the cycle alone, so two nodes that agree
/// on the slot number agree on the channel.
#[test]
fn permutation_is_deterministic() {
    let mut a = [0u8; 256];
    let mut b = [0u8; 256];
    permutation(1234, 50, &mut a);
    permutation(1234, 50, &mut b);
    assert_eq!(a, b);
    permutation(1235, 50, &mut b);
    assert_ne!(a, b);
}

#[test]
fn sync_word_roundtrip() {
    let w = SyncWord { slot: 0xABCDE, stratum: 9, phase: 200 };
    assert_eq!(SyncWord::from_bytes(w.to_bytes()), w);
    // The slot is masked to its width on the way in.
    let wide = SyncWord { slot: 0xFFF_FFFF, stratum: 3, phase: 0 };
    assert_eq!(SyncWord::from_u32(wide.to_u32()).slot, SLOT_MASK);
    assert_eq!(SyncWord::from_u32(0), SyncWord::default());
}

/// The guard is a fifth of a short slot and capped for a long one, and
/// the default beacon fits the default slot with room to jitter.
#[test]
fn guard_and_window() {
    let p = plan();
    assert_eq!(p.guard_ms(), 100);
    assert_eq!(p.window_ms(), 800);
    assert!(p.fits(289));
    assert!(!p.fits(801));
    let short = Plan { dwell_ms: 200, ..p };
    assert_eq!(short.guard_ms(), 40);
    // The start range leaves the frame ending before the far guard...
    assert_eq!(p.start_range_ms(300), (100, 600));
    // ...and collapses to the near guard for a frame that cannot.
    assert_eq!(p.start_range_ms(900), (100, 100));
}

/// GPS time maps straight onto slots: seconds into the day at the
/// default dwell, with the phase taken from the fraction.
#[test]
fn gps_disciplines_to_time_of_day() {
    let mut c = Clock::new(1000, 5_000, 7);
    assert_eq!(c.stratum(5_000), STRATUM_MAX);
    assert!(!c.synced());
    // 12:34:56.250, parsed at local 5000 ms.
    c.discipline_gps(45_296_250, 5_000);
    assert_eq!(c.slot(5_000), 45_296);
    assert_eq!(c.phase_ms(5_000), 250);
    assert_eq!(c.slot(5_750), 45_297);
    assert_eq!(c.stratum(5_000), STRATUM_GPS);
    assert!(c.from_gps(5_000));
    // A report parsed before the slot began, in local time, still lands.
    let mut early = Clock::new(1000, 0, 1);
    early.discipline_gps(900, 100);
    assert_eq!(early.slot(100), 0);
    assert_eq!(early.phase_ms(100), 900);
    assert_eq!(early.slot(200), 1);
}

/// A follower that hears a frame ends up on the sender's slot and phase
/// to within the sync word's resolution, one stratum below.
#[test]
fn a_heard_frame_aligns_a_follower() {
    let mut a = Clock::new(1000, 0, 1);
    a.discipline_gps(1_000_000, 10_000);
    // A transmits 300 ms into some slot.
    let tx = 20_300;
    let word = a.word_at(tx);
    assert_eq!(word.stratum, 0);
    assert_eq!(word.slot, a.slot(tx));

    // B free-runs on an unrelated count until it hears A. Its own local
    // clock is offset from A's - the frame started at B's 77_300.
    let mut b = Clock::new(1000, 3, 2);
    let rx_start = 77_300;
    assert_eq!(b.offer(word, 1, 2, rx_start, rx_start + 289), Offer::Adopted(1));
    assert_eq!(b.slot(rx_start), a.slot(tx));
    let err = b.phase_ms(rx_start) as i32 - a.phase_ms(tx) as i32;
    assert!(err.abs() <= 1000 / 256 + 1, "phase error {err} ms");
    assert_eq!(b.stratum(rx_start + 289), 1);
    // And B's own word now says so.
    assert_eq!(b.word_at(rx_start + 500).stratum, 1);
}

/// Who adopts whom: a better stratum always, an equal one only from a
/// lower address, and a GPS clock never.
#[test]
fn adoption_rules() {
    let word = |stratum| SyncWord { slot: 100, stratum, phase: 0 };
    let mut c = Clock::new(1000, 0, 9);
    // Free-running (15) adopts an equal 15 from a lower address...
    assert_eq!(c.offer(word(15), 3, 9, 1_000, 1_000), Offer::Adopted(15));
    // ...but not from a higher one.
    let mut d = Clock::new(1000, 0, 2);
    assert_eq!(d.offer(word(15), 3, 2, 1_000, 1_000), Offer::Kept);
    // A follower at 1 ignores a 1 from a higher address and a 2.
    let mut f = Clock::new(1000, 0, 5);
    assert_eq!(f.offer(word(0), 1, 5, 1_000, 1_000), Offer::Adopted(1));
    assert_eq!(f.offer(word(1), 7, 5, 2_000, 2_000), Offer::Kept);
    assert_eq!(f.offer(word(2), 1, 5, 2_000, 2_000), Offer::Kept);
    // ...and takes a 1 from a lower address, becoming 2.
    assert_eq!(f.offer(word(1), 4, 5, 3_000, 3_000), Offer::Adopted(2));
    // Own GPS outranks everything.
    let mut g = Clock::new(1000, 0, 200);
    g.discipline_gps(0, 1_000);
    assert_eq!(g.offer(word(0), 1, 200, 1_500, 1_500), Offer::Kept);
}

/// A clock nobody refreshes gets worse one stratum per step, so a lost
/// reference is eventually replaceable - and a GPS clock that lost its
/// fix stops outranking the network.
#[test]
fn stratum_ages_without_a_reference() {
    let mut c = Clock::new(1000, 0, 1);
    c.discipline_gps(0, 1_000);
    assert_eq!(c.stratum(1_000 + AGE_STEP_MS - 1), 0);
    assert_eq!(c.stratum(1_000 + AGE_STEP_MS), 1);
    assert_eq!(c.stratum(1_000 + 3 * AGE_STEP_MS), 3);
    assert_eq!(c.stratum(1_000 + 100 * AGE_STEP_MS), STRATUM_MAX);
    // Aged past 0, it will take a frame from a stratum-0 node again.
    let later = 1_000 + AGE_STEP_MS;
    let word = SyncWord { slot: 5, stratum: 0, phase: 0 };
    assert_eq!(c.offer(word, 2, 1, later, later), Offer::Adopted(1));
    // Aging does not move the mapping, only the trust in it.
    assert_eq!(c.slot(later), 5);
}

/// Planned transmissions land inside the window of a slot, spread
/// across it, and never before the guard.
#[test]
fn tx_start_lands_in_the_window() {
    let p = plan();
    let mut c = Clock::new(1000, 0, 4);
    c.discipline_gps(0, 0);
    let mut phases = std::vec::Vec::new();
    for i in 0..200u64 {
        let now = 10_000 + i * 37;
        let start = c.tx_start(&p, now, 289);
        assert!(start >= now);
        let phase = c.phase_ms(start);
        assert!((100..=611).contains(&phase), "phase {phase}");
        phases.push(phase);
    }
    let min = *phases.iter().min().unwrap();
    let max = *phases.iter().max().unwrap();
    assert!(max - min > 300, "no spread: {min}..{max}");
    // Already inside the window, ready to go: no wait.
    assert_eq!(c.wait_for_window_ms(&p, 10_300, 289), 0);
    // Before the guard: wait for it.
    assert_eq!(c.wait_for_window_ms(&p, 10_020, 289), 80);
    // Too late for the frame to end in this slot: wait for the next.
    assert_eq!(c.wait_for_window_ms(&p, 10_700, 289), 400);
}

/// An interval is a count of slots: one second at the default dwell is
/// every slot, five seconds every fifth, and the interval is up at the
/// slot boundary rather than a phase later.
#[test]
fn intervals_are_counted_in_slots() {
    let mut c = Clock::new(1000, 0, 1);
    c.discipline_gps(0, 0);
    assert_eq!(c.slots_for(1000), 1);
    assert_eq!(c.slots_for(1001), 2);
    assert_eq!(c.slots_for(5000), 5);
    assert_eq!(c.slots_for(0), 1);
    // Last transmission 300 ms into slot 10.
    let last = 10_300;
    assert!(!c.interval_elapsed(last, 1000, 10_900));
    assert!(c.interval_elapsed(last, 1000, 11_000));
    assert!(c.interval_elapsed(last, 1000, 11_050));
    assert!(!c.interval_elapsed(last, 5000, 14_999));
    assert!(c.interval_elapsed(last, 5000, 15_000));
    // Long past is still elapsed, not wrapped around to "not yet".
    assert!(c.interval_elapsed(last, 1000, 400_000));
    assert_eq!(c.next_slot_start_ms(10_300), 11_000);
    assert_eq!(c.next_slot_start_ms(11_000), 12_000);
}

/// The channel a slot maps to is the same on every node that agrees
/// on the slot, whatever their local clocks read.
#[test]
fn synced_nodes_share_a_channel() {
    let p = plan();
    let mut a = Clock::new(1000, 0, 1);
    a.discipline_gps(3_600_000, 500);
    let mut b = Clock::new(1000, 0, 2);
    b.discipline_gps(3_600_000, 90_500);
    for t in 0..50u64 {
        let sa = a.slot(500 + t * 1000);
        let sb = b.slot(90_500 + t * 1000);
        assert_eq!(sa, sb);
        assert_eq!(p.frequency_for_slot(sa), p.frequency_for_slot(sb));
    }
}

/// Two free-running clocks with an unrelated offset still coincide on
/// a channel now and then - which is how they find each other at all.
#[test]
fn unsynced_nodes_coincide_sometimes() {
    let p = plan();
    let a = Clock::new(1000, 0, 11);
    let b = Clock::new(1000, 0, 12);
    let hits = (0..5_000u64)
        .filter(|&t| {
            let now = t * 1000 + 500;
            p.index_for_slot(a.slot(now)) == p.index_for_slot(b.slot(now))
        })
        .count();
    // About one slot in fifty; anything in a wide band around that.
    assert!((30..300).contains(&hits), "{hits} coincidences in 5000 slots");
}

/// The order of a cycle uses every index below the count and no other.
#[test]
fn a_permutation_is_one_at_every_size() {
    for n in [1u8, 2, 3, 50, 255] {
        let mut out = [0u8; 256];
        permutation(77, n, &mut out);
        let mut seen: Vec<u8> = out[..n as usize].to_vec();
        seen.sort_unstable();
        assert_eq!(seen, (0..n).collect::<Vec<u8>>());
    }
}

/// A sync word's bits: slot, then stratum, then phase.
#[test]
fn a_sync_word_is_packed_as_documented() {
    let w = SyncWord { slot: 0xABCDE, stratum: 9, phase: 200 };
    assert_eq!(w.to_u32(), 0xABCD_E9C8);
    assert_eq!(SyncWord::from_u32(0xABCD_E9C8), w);
}

/// Two nodes with different turns never have overlapping start ranges.
#[test]
fn turns_do_not_overlap() {
    let p = plan();
    for a in 1..=6u8 {
        for b in 1..=6u8 {
            let same = p.turn_slot(a, 5) == p.turn_slot(b, 5) && p.sub_slot_of(a, 5) == p.sub_slot_of(b, 5);
            if same || p.turn_slot(a, 5) != p.turn_slot(b, 5) {
                continue;
            }
            let (lo_a, hi_a) = p.start_range_for(a, 5, 100);
            let (lo_b, hi_b) = p.start_range_for(b, 5, 100);
            assert!(hi_a + 100 <= lo_b || hi_b + 100 <= lo_a, "{a} and {b}");
        }
    }
}

/// A turn is started inside itself, and an early one waits for its slot.
#[test]
fn a_turn_lands_in_the_turn() {
    let p = plan();
    let mut c = Clock::new(1000, 0, 4);
    c.discipline_gps(0, 0);
    for i in 0..50u64 {
        let from = 10_000 + i * 131;
        let at = c.turn_start(&p, 3, 5_000, from, 289);
        assert!(at >= from);
        assert!(c.in_turn(&p, 3, 5_000, at, 289), "at {at}");
        assert_eq!(c.slot(at) % 5, p.turn_slot(3, 5));
    }
    assert_eq!(c.dwell_ms(), 1000);
    assert!(c.turn_due(&p, 3, None, 5_000, 12_500));
    assert!(!c.turn_due(&p, 3, None, 5_000, 13_500));
    assert!(!c.turn_due(&p, 3, Some(12_100), 5_000, 12_500));
}

/// A sender waits out its turn: the rest of the slot, nothing at all, or the
/// slots of the others, and never longer than it has to.
#[test]
fn waiting_reaches_the_turn() {
    let p = plan();
    let mut c = Clock::new(1000, 5_000, 7);
    c.discipline_gps(45_296_250, 5_000);
    assert_eq!((c.slot(10_300), c.phase_ms(10_300)), (45_301, 550));
    assert_eq!(c.wait_for_turn_ms(&p, 1, 1000, 10_300, 289), 550);
    assert_eq!(c.wait_for_turn_ms(&p, 2, 1000, 10_300, 289), 0);
    assert_eq!(c.wait_for_turn_ms(&p, 2, 5000, 10_300, 289), 4_550);
    assert_eq!(c.wait_for_turn_ms(&p, 7, 5000, 10_300, 289), 0);
    for address in 1..=12 {
        for now in (10_000..16_000).step_by(97) {
            let wait = c.wait_for_turn_ms(&p, address, 5_000, now, 289);
            assert!(c.in_turn(&p, address, 5_000, now + wait, 289), "{address} at {now}");
            assert!((now..now + wait).step_by(10).all(|t| !c.in_turn(&p, address, 5_000, t, 289)), "{address} at {now}");
        }
    }
}
