//! When the next beacon goes out.
//!
//! The hardware loop asks this once a pass. A beacon is owed when the node's
//! turn comes up, one transmission per slot; it is then planned for a random
//! instant inside the node's turn, and sent when that instant arrives and
//! nothing is arriving on the air. The wait is the loop's, not the
//! transmit's.
//!
//! A plan can go stale before its instant - the clock re-anchored on a frame
//! heard since, or a frame arriving held the transmit past its turn - and
//! then it is remade. A plan that is still ahead is kept across passes in
//! slots that are not the node's.

use vstd::prelude::*;
use crate::hop;
use crate::hop::{Clock, Plan, Ticking};

verus! {

/// What the loop does this pass.
#[derive(Clone, Copy, Debug, PartialEq, Eq, Structural)]
pub enum Step {
    /// Nothing, or not yet.
    Hold,
    /// Transmit now.
    Send,
}

/// How far ahead of a pass a plan can lie, ms: longer than the ring of slots
/// at the longest dwell.
pub const HORIZON_MS: u64 = 0x20_0000_0000;

/// The planner: what was last sent, what is planned next.
#[derive(Clone, Copy, Debug, PartialEq, Eq, Hash)]
pub struct Planner {
    /// No beacon before this instant: a fleet powered up together must not
    /// transmit as one.
    first_at_ms: u64,
    /// Local `(start, end)` of the last transmission, as the radio timed it.
    /// Recorded for a failed transmit too, so a radio that will not key up
    /// is retried on the interval rather than on every pass.
    last: Option<(u64, u64)>,
    /// The instant the owed beacon is planned for, once the interval has run
    /// out; `None` while none is.
    at: Option<u64>,
}

/// A planner, as its contracts speak of it.
pub struct Planning {
    pub first_at_ms: u64,
    pub last: Option<(u64, u64)>,
    pub at: Option<u64>,
}

impl View for Planner {
    type V = Planning;

    closed spec fn view(&self) -> Planning {
        Planning { first_at_ms: self.first_at_ms, last: self.last, at: self.at }
    }
}

/// What a pass has to work with besides the planner and the clock.
pub struct Pass {
    pub now_ms: u64,
    pub allowed: bool,
    pub rx_in_progress: bool,
    pub plan: Plan,
    pub address: u8,
    pub interval_ms: u32,
    pub airtime_ms: u32,
}

impl Planning {
    /// When the last transmission started.
    pub open spec fn last_start(self) -> Option<u64> {
        match self.last {
            Some((start, _)) => Some(start),
            None => None,
        }
    }

    /// Whether a pass looks at the clock at all.
    pub open spec fn asks(self, p: Pass) -> bool {
        p.allowed && p.interval_ms != 0 && p.now_ms >= self.first_at_ms
    }

    /// Whether a beacon is owed.
    pub open spec fn owed(self, clock: Ticking, p: Pass) -> bool {
        &&& self.asks(p)
        &&& clock.owes(p.address, self.last_start(), p.interval_ms, p.now_ms)
    }

    /// Whether a pass plans a turn: one is owed and nothing is planned, or
    /// what was planned has come and is out of its turn.
    pub open spec fn plans(self, clock: Ticking, p: Pass) -> bool {
        &&& self.owed(clock, p)
        &&& self.at matches Some(at) ==> at <= p.now_ms && !p.rx_in_progress && !clock.within_turn(
            p.plan,
            p.address,
            p.interval_ms,
            p.now_ms,
            p.airtime_ms,
        )
    }

    /// Whether the clock reaches every instant a pass computes with: now and
    /// the last transmission where it asks, the whole horizon where it plans.
    pub open spec fn within(self, clock: Ticking, p: Pass) -> bool {
        &&& clock.wf()
        &&& self.asks(p) ==> clock.reaches(p.now_ms)
        &&& self.asks(p) ==> (self.last_start() matches Some(t) ==> clock.reaches(t))
        &&& self.plans(clock, p) ==> in_reach(clock, p.now_ms)
    }

    /// The instant to plan for.
    pub open spec fn planned_for(self, clock: Ticking, p: Pass) -> u64 {
        plan_start(self.last, clock, p.plan, p.address, p.interval_ms, p.now_ms, p.airtime_ms)
    }

    /// The planner and the clock after a pass, and what the loop does.
    pub open spec fn passed(self, clock: Ticking, p: Pass) -> (Planning, Ticking, Step) {
        if !self.owed(clock, p) {
            let stale = self.at matches Some(at) && p.now_ms >= at;
            (if stale { Planning { at: None, ..self } } else { self }, clock, Step::Hold)
        } else {
            let (at, c) = match self.at {
                Some(at) => (at, clock),
                None => (self.planned_for(clock, p), spun(clock)),
            };
            if p.now_ms < at || p.rx_in_progress {
                (Planning { at: Some(at), ..self }, c, Step::Hold)
            } else if !c.within_turn(p.plan, p.address, p.interval_ms, p.now_ms, p.airtime_ms) {
                (Planning { at: Some(self.planned_for(c, p)), ..self }, spun(c), Step::Hold)
            } else {
                (Planning { at: None, ..self }, c, Step::Send)
            }
        }
    }
}

/// Where planning starts from: now, or the next slot when something has gone
/// out in this one.
pub open spec fn plans_from(last: Option<(u64, u64)>, clock: Ticking, now_ms: u64) -> u64 {
    if last matches Some((start, _)) && clock.slot_at(start) == clock.slot_at(now_ms) {
        (now_ms + clock.dwell - clock.phase_at(now_ms)) as u64
    } else {
        now_ms
    }
}

/// The instant a transmission is planned for.
pub open spec fn plan_start(
    last: Option<(u64, u64)>,
    clock: Ticking,
    plan: Plan,
    address: u8,
    interval_ms: u32,
    now_ms: u64,
    airtime_ms: u32,
) -> u64 {
    clock.turn_at(plan, address, interval_ms, plans_from(last, clock, now_ms), airtime_ms) as u64
}

/// A clock whose generator has been drawn from once.
pub open spec fn spun(c: Ticking) -> Ticking {
    Ticking { rng: hop::stepped(c.rng), ..c }
}

/// The instants a turn is planned with stay inside the clock's reach.
pub open spec fn in_reach(clock: Ticking, now_ms: u64) -> bool {
    &&& clock.wf()
    &&& now_ms + HORIZON_MS <= i64::MAX
    &&& clock.reaches(now_ms)
    &&& clock.reaches((now_ms + HORIZON_MS) as u64)
}

impl Planner {
    /// A planner whose first beacon may go out at `first_at_ms`.
    pub fn new(first_at_ms: u64) -> (r: Self)
        ensures
            r@ == (Planning { first_at_ms, last: None, at: None }),
    {
        Self { first_at_ms, last: None, at: None }
    }

    /// Record a transmission's span, whatever it carried and whether or not
    /// it succeeded.
    pub fn sent(&mut self, span: (u64, u64))
        ensures
            final(self)@ == (Planning { last: Some(span), ..old(self)@ }),
    {
        self.last = Some(span);
    }

    /// The last transmission's span.
    pub fn last(&self) -> (r: Option<(u64, u64)>)
        ensures
            r == self@.last,
    {
        self.last
    }

    /// The instant the next beacon is planned for, if one is.
    pub fn planned(&self) -> (r: Option<u64>)
        ensures
            r == self@.at,
    {
        self.at
    }

    /// One pass. `allowed` is whether the node may transmit at all right now
    /// - mode, role, radio, transfer and sleep gates - and `rx_in_progress`
    /// whether a frame is arriving. `interval_ms` is the beacon's period (0
    /// silences it), `airtime_ms` the frame's time on air; the clock and the
    /// plan are the node's own.
    pub fn pass(
        &mut self,
        now_ms: u64,
        allowed: bool,
        rx_in_progress: bool,
        clock: &mut Clock,
        plan: &Plan,
        address: u8,
        interval_ms: u32,
        airtime_ms: u32,
    ) -> (r: Step)
        requires
            old(self)@.within(
                old(clock)@,
                (Pass { now_ms, allowed, rx_in_progress, plan: *plan, address, interval_ms, airtime_ms }),
            ),
        ensures
            (final(self)@, final(clock)@, r) == old(self)@.passed(
                old(clock)@,
                (Pass { now_ms, allowed, rx_in_progress, plan: *plan, address, interval_ms, airtime_ms }),
            ),
    {
        let last_start: Option<u64> = match self.last {
            Some((start, _)) => Some(start),
            None => None,
        };
        let owed: bool = allowed && interval_ms != 0 && now_ms >= self.first_at_ms && clock.turn_due(
            plan,
            address,
            last_start,
            interval_ms,
            now_ms,
        );
        if !owed {
            // A turn that passed while something held the transmit is gone;
            // the next one is planned afresh when it comes. A plan still
            // ahead is kept: it names the node's own next slot.
            if let Some(at) = self.at {
                if now_ms >= at {
                    self.at = None;
                }
            }
            return Step::Hold;
        }
        let at: u64 = match self.at {
            Some(at) => at,
            None => {
                let at: u64 = self.start(now_ms, clock, plan, address, interval_ms, airtime_ms);
                self.at = Some(at);
                at
            },
        };
        if now_ms < at || rx_in_progress {
            return Step::Hold;
        }
        // The plan can be stale by the time its instant arrives. A fresh one
        // costs nothing.
        if !clock.in_turn(plan, address, interval_ms, now_ms, airtime_ms) {
            self.at = Some(self.start(now_ms, clock, plan, address, interval_ms, airtime_ms));
            return Step::Hold;
        }
        self.at = None;
        Step::Send
    }

    /// The instant to plan for from `now_ms`: a random point in the node's
    /// turn, of this slot if it is the node's and nothing has gone out in it
    /// yet, else of the next slot that is. One transmission per slot,
    /// whatever it carries.
    fn start(
        &self,
        now_ms: u64,
        clock: &mut Clock,
        plan: &Plan,
        address: u8,
        interval_ms: u32,
        airtime_ms: u32,
    ) -> (r: u64)
        requires
            in_reach(old(clock)@, now_ms),
            self@.last_start() matches Some(t) ==> old(clock)@.reaches(t),
        ensures
            final(clock)@ == spun(old(clock)@),
            r == plan_start(self@.last, old(clock)@, *plan, address, interval_ms, now_ms, airtime_ms),
    {
        proof {
            clock@.lemma_ranges(now_ms);
        }
        let from: u64 = match self.last {
            Some((start, _)) => if clock.slot(start) == clock.slot(now_ms) {
                clock.next_slot_start_ms(now_ms)
            } else {
                now_ms
            },
            None => now_ms,
        };
        proof {
            lemma_plans_within_horizon(clock@, *plan, address, interval_ms, now_ms, from, airtime_ms);
        }
        clock.turn_start(plan, address, interval_ms, from, airtime_ms)
    }
}

proof fn lemma_plans_within_horizon(
    c: Ticking,
    plan: Plan,
    address: u8,
    interval_ms: u32,
    now_ms: u64,
    from_ms: u64,
    airtime_ms: u32,
)
    requires
        in_reach(c, now_ms),
        now_ms <= from_ms <= now_ms + 65_535,
    ensures
        c.reaches(from_ms),
        c.turn_at(plan, address, interval_ms, from_ms, airtime_ms) <= now_ms + HORIZON_MS,
{
    let n = c.slots_in(interval_ms);
    let turn = Plan::turn_slot_of(address, n);
    c.lemma_ranges(from_ms);
    plan.lemma_turn_in_window(address, n, airtime_ms);
    vstd::arithmetic::div_mod::lemma_mod_bound(Plan::seat(address), n);
    vstd::arithmetic::div_mod::lemma_mod_decreases(Plan::seat(address) as nat, n as nat);
    let lo = plan.turn_begins(address, n);
    let hi = plan.turn_latest(address, n, airtime_ms);
    vstd::arithmetic::div_mod::lemma_mod_bound(hop::stepped(c.rng) as int, (hi - lo) / 2 + 1);
    hop::lemma_slots_ahead(c.slot_at(from_ms), n, turn);
    let k = Ticking::slots_ahead(c.slot_at(from_ms), n, turn);
    let d = c.dwell;
    assert(k * d <= 0x10_00FE * 65_535) by (nonlinear_arith)
        requires
            1 <= k <= 0x10_00FE,
            1 <= d <= 65_535,
    ;
}

/// A transmission goes out only when the node may transmit, nothing is
/// arriving, the stagger has passed, and the instant is inside the node's own
/// turn.
pub proof fn law_a_beacon_goes_out_in_its_turn(s: Planning, c: Ticking, p: Pass)
    requires
        s.passed(c, p).2 is Send,
    ensures
        p.allowed,
        !p.rx_in_progress,
        p.interval_ms != 0,
        p.now_ms >= s.first_at_ms,
        c.within_turn(p.plan, p.address, p.interval_ms, p.now_ms, p.airtime_ms),
{
}

/// One transmission per slot: after a transmission, whatever it carried,
/// nothing more goes out in the slot it started in.
pub proof fn law_one_transmission_per_slot(s: Planning, c: Ticking, p: Pass, span: (u64, u64))
    requires
        c.slot_at(span.0) == c.slot_at(p.now_ms),
    ensures
        (Planning { last: Some(span), ..s }).passed(c, p).2 is Hold,
{
}

/// A plan still ahead survives every pass that does not remake it: in slots
/// that are not the node's, and while the node may not transmit.
pub proof fn law_a_plan_ahead_is_kept(s: Planning, c: Ticking, p: Pass, at: u64)
    requires
        s.at == Some(at),
        p.now_ms < at,
    ensures
        s.passed(c, p).0 == s,
        s.passed(c, p).2 is Hold,
{
}

/// What a pass plans lies in the node's own turn, and not in the past.
pub proof fn law_plans_land_in_the_turn(s: Planning, c: Ticking, p: Pass)
    requires
        in_reach(c, p.now_ms),
        c.dwell == p.plan.dwell_ms,
        p.plan.guard() > 0,
        s.at is None,
        s.owed(c, p),
    ensures
        ({
            let at = s.planned_for(c, p);
            &&& p.now_ms <= at
            &&& c.within_turn(p.plan, p.address, p.interval_ms, at, p.airtime_ms)
            &&& (s.passed(c, p).2 is Hold ==> s.passed(c, p).0.at is Some)
        }),
{
    lemma_plans_within_horizon(c, p.plan, p.address, p.interval_ms, p.now_ms, p.now_ms, p.airtime_ms);
    hop::law_a_turn_lands_in_the_turn(c, p.plan, p.address, p.interval_ms, p.now_ms, p.airtime_ms);
}

/// A beacon that is owed, planned and due goes out: in its turn, with nothing
/// arriving. It leaves nothing planned, and draws nothing from the clock.
pub proof fn law_a_beacon_due_goes_out(s: Planning, c: Ticking, p: Pass, at: u64)
    requires
        p.allowed,
        p.interval_ms != 0,
        p.now_ms >= s.first_at_ms,
        s.at == Some(at),
        at <= p.now_ms,
        !p.rx_in_progress,
        c.owes(p.address, s.last_start(), p.interval_ms, p.now_ms),
        c.within_turn(p.plan, p.address, p.interval_ms, p.now_ms, p.airtime_ms),
    ensures
        s.passed(c, p).2 is Send,
        s.passed(c, p).0.at is None,
        s.passed(c, p).0.last == s.last,
        s.passed(c, p).1 == c,
{
}

/// A pass with nothing owed does nothing but forget a plan whose instant has
/// come.
pub proof fn law_a_pass_with_nothing_owed_only_forgets(s: Planning, c: Ticking, p: Pass)
    requires
        !p.allowed || p.interval_ms == 0 || p.now_ms < s.first_at_ms || !c.owes(
            p.address,
            s.last_start(),
            p.interval_ms,
            p.now_ms,
        ),
    ensures
        s.passed(c, p).2 is Hold,
        s.passed(c, p).1 == c,
        s.passed(c, p).0.last == s.last && s.passed(c, p).0.first_at_ms == s.first_at_ms,
        s.at matches Some(at) ==> s.passed(c, p).0.at == (if p.now_ms >= at {
            None
        } else {
            s.at
        }),
        s.at is None ==> s.passed(c, p).0.at is None,
{
}

/// A plan out of its turn when its instant comes is remade, and one that
/// something arriving holds up is kept for the pass after.
pub proof fn law_a_plan_out_of_turn_is_remade(s: Planning, c: Ticking, p: Pass, at: u64)
    requires
        s.owed(c, p),
        s.at == Some(at),
        at <= p.now_ms,
    ensures
        p.rx_in_progress ==> s.passed(c, p) == (s, c, Step::Hold),
        !p.rx_in_progress && !c.within_turn(p.plan, p.address, p.interval_ms, p.now_ms, p.airtime_ms) ==> s.passed(c, p).2
            is Hold && s.passed(c, p).0.at == Some(s.planned_for(c, p)) && s.passed(c, p).1.rng == hop::stepped(c.rng),
{
}

/// A beacon is planned from now where nothing has gone out in this slot, and
/// from the start of the next one where something has.
pub proof fn law_planning_starts_in_a_free_slot(last: Option<(u64, u64)>, c: Ticking, now_ms: u64)
    requires
        in_reach(c, now_ms),
    ensures
        last is None ==> plans_from(last, c, now_ms) == now_ms,
        last matches Some(span) && c.slot_at(span.0) != c.slot_at(now_ms) ==> plans_from(last, c, now_ms) == now_ms,
        last matches Some(span) && c.slot_at(span.0) == c.slot_at(now_ms) ==> now_ms < plans_from(last, c, now_ms) <= now_ms
            + c.dwell && plans_from(last, c, now_ms) - now_ms + c.phase_at(now_ms) == c.dwell,
{
    c.lemma_ranges(now_ms);
}

/// Drawing from a clock moves its generator and nothing else.
pub proof fn law_a_draw_leaves_the_clock(c: Ticking, now_ms: u64)
    ensures
        spun(c).rng == hop::stepped(c.rng),
        spun(c).slot_at(now_ms) == c.slot_at(now_ms) && spun(c).phase_at(now_ms) == c.phase_at(now_ms),
        spun(c) == (Ticking { rng: spun(c).rng, ..c }),
{
}

} // verus!
