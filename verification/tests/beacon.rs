use midair_proto::beacon::{Planner, Step};
use midair_proto::hop::{Clock, Plan};
use midair_proto::radiocfg::RadioConfig;

fn setup() -> (Clock, Plan) {
    let cfg = RadioConfig::default();
    let plan = Plan::from_config(&cfg).unwrap();
    let mut clock = Clock::new(plan.dwell_ms, 0, 1);
    clock.discipline_gps(0, 0);
    (clock, plan)
}

/// The ordinary second: owed at the slot boundary, planned into the
/// turn, sent when the instant arrives, then not again in the slot.
#[test]
fn a_beacon_is_planned_into_the_turn_and_sent_once_a_slot() {
    let (mut clock, plan) = setup();
    let mut p = Planner::new(0);
    let mut sent_at = None;
    for t in (10_000..12_000).step_by(10) {
        if p.pass(t, true, false, &mut clock, &plan, 1, 1000, 289) == Step::Send {
            sent_at = Some(t);
            p.sent((t, t + 289));
            break;
        }
    }
    let t = sent_at.expect("a beacon went out");
    let phase = clock.phase_ms(t);
    assert!((100..=165).contains(&phase), "phase {phase}");
    // Not again in this slot.
    for t2 in (t..11_000).step_by(10) {
        assert_eq!(p.pass(t2, true, false, &mut clock, &plan, 1, 1000, 289), Step::Hold);
    }
    assert!(p.planned().is_none());
}

/// The regression: on a five-slot interval a pass that comes late in
/// the node's slot plans the node's next slot, and the plan survives
/// the passes in between rather than being dropped on the first slot
/// that is nobody's turn.
#[test]
fn a_late_pass_costs_a_slot_not_an_interval() {
    let (mut clock, plan) = setup();
    let mut p = Planner::new(0);
    // Node 1 owns slots 0 mod 5. Its first pass in slot 10 lands at
    // phase 300, past its turn.
    assert_eq!(p.pass(10_300, true, false, &mut clock, &plan, 1, 5_000, 289), Step::Hold);
    let at = p.planned().expect("planned");
    assert_eq!(clock.slot(at) % 5, 0, "planned for the node's own slot");
    assert!(at >= 15_000 && at < 16_000, "{at}");
    // Passes through slots 11-14: nothing owed, plan kept.
    for t in (10_400..15_000).step_by(100) {
        assert_eq!(p.pass(t, true, false, &mut clock, &plan, 1, 5_000, 289), Step::Hold);
        assert_eq!(p.planned(), Some(at), "at {t}");
    }
    // And it goes out in slot 15 at the planned instant.
    let mut sent = None;
    for t in (15_000..16_000).step_by(10) {
        if p.pass(t, true, false, &mut clock, &plan, 1, 5_000, 289) == Step::Send {
            sent = Some(t);
            break;
        }
    }
    assert!(sent.is_some_and(|t| t >= at && t < at + 10), "{sent:?} for {at}");
}

/// A frame arriving holds the transmit; once it has passed the turn,
/// the plan is remade rather than waited for inside the transmit.
#[test]
fn a_frame_arriving_holds_and_a_stale_plan_is_remade() {
    let (mut clock, plan) = setup();
    let mut p = Planner::new(0);
    p.pass(10_000, true, false, &mut clock, &plan, 1, 1000, 289);
    let at = p.planned().unwrap();
    // Held through its instant by a frame on the air.
    for t in (at..at + 200).step_by(10) {
        assert_eq!(p.pass(t, true, true, &mut clock, &plan, 1, 1000, 289), Step::Hold);
    }
    // The frame is gone but the turn is too: re-planned, not sent.
    let t = at + 200;
    assert_eq!(p.pass(t, true, false, &mut clock, &plan, 1, 1000, 289), Step::Hold);
    let again = p.planned().unwrap();
    assert!(again > t, "{again} > {t}");
    assert_eq!(clock.slot(again), clock.slot(t) + 1);
}

/// Nothing before the first-beacon stagger, nothing when not allowed,
/// nothing at interval zero.
#[test]
fn the_gates_hold() {
    let (mut clock, plan) = setup();
    let mut p = Planner::new(20_000);
    for t in (10_000..20_000).step_by(100) {
        assert_eq!(p.pass(t, true, false, &mut clock, &plan, 1, 1000, 289), Step::Hold);
    }
    let mut p = Planner::new(0);
    for t in (10_000..12_000).step_by(100) {
        assert_eq!(p.pass(t, false, false, &mut clock, &plan, 1, 1000, 289), Step::Hold);
        assert_eq!(p.pass(t, true, false, &mut clock, &plan, 1, 0, 289), Step::Hold);
    }
    assert!(p.planned().is_none());
}

/// A plan still ahead is kept through a pass that may not transmit, and is
/// gone once its instant has passed unused.
#[test]
fn a_plan_is_dropped_only_once_it_is_past() {
    let (mut clock, plan) = setup();
    let mut p = Planner::new(0);
    assert_eq!(p.last(), None);
    p.pass(10_000, true, false, &mut clock, &plan, 1, 1000, 289);
    let at = p.planned().unwrap();
    assert_eq!(p.pass(at - 1, false, false, &mut clock, &plan, 1, 1000, 289), Step::Hold);
    assert_eq!(p.planned(), Some(at));
    assert_eq!(p.pass(at, false, false, &mut clock, &plan, 1, 1000, 289), Step::Hold);
    assert_eq!(p.planned(), None);
    p.sent((at, at + 289));
    assert_eq!(p.last(), Some((at, at + 289)));
}

/// A pass that plans nothing takes any instant the clock can have.
#[test]
fn a_held_pass_needs_no_horizon() {
    let (mut clock, plan) = setup();
    let mut p = Planner::new(u64::MAX);
    assert_eq!(p.pass(u64::MAX - 1, true, false, &mut clock, &plan, 1, 1000, 289), Step::Hold);
    let mut p = Planner::new(0);
    assert_eq!(p.pass(u64::MAX, false, false, &mut clock, &plan, 1, 1000, 289), Step::Hold);
    assert_eq!(p.pass(u64::MAX, true, false, &mut clock, &plan, 1, 0, 289), Step::Hold);
    assert_eq!(p.planned(), None);
}
