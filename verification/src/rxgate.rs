//! What the receiver has seen of a frame that is arriving, and whether the
//! radio may be disturbed.
//!
//! Between a preamble interrupt and the packet-done interrupt a transmit, or
//! a retune to the next hop channel, would trample a frame that is mid-air -
//! so both wait. A preamble is a weak claim and is held only for as long as
//! a header would take to follow it; a valid header is a frame, held for the
//! longest one the modulation allows.
//!
//! Two things are always true, and are proved below: a hold ends, and a
//! valid header is never left unprotected because a stale preamble was still
//! on the books.

use vstd::prelude::*;
use crate::time;

verus! {

/// The longest gap between two receive polls after which what the second one
/// reads is not trusted to set a clock, ms.
pub const LATE_POLL_MS: u64 = 40;

/// How much of an arriving frame has been seen.
#[derive(Clone, Copy, Debug, PartialEq, Eq, Hash, Structural)]
pub enum Stage {
    /// A preamble, which may be noise.
    Preamble,
    /// A header that passed its check: a frame is on its way.
    Header,
}

/// The interrupt bits a poll read, as far as a hold depends on them.
#[derive(Clone, Copy, Debug, PartialEq, Eq, Hash, Structural)]
pub struct Irq {
    pub preamble: bool,
    pub header_valid: bool,
    pub header_err: bool,
    pub rx_done: bool,
    pub crc_err: bool,
}

impl Default for Irq {
    fn default() -> (r: Self)
        ensures
            r == (Irq { preamble: false, header_valid: false, header_err: false, rx_done: false, crc_err: false }),
    {
        Irq { preamble: false, header_valid: false, header_err: false, rx_done: false, crc_err: false }
    }
}

/// What a poll's interrupts amounted to.
#[derive(Clone, Copy, Debug, PartialEq, Eq, Structural)]
pub enum Seen {
    /// Nothing is arriving.
    Nothing,
    /// A frame may be arriving; the hold is on.
    Arriving,
    /// A packet landed. Its payload is in the radio's buffer whether or not
    /// the CRC passed, so the caller drops a failed one there.
    Packet { crc_ok: bool },
}

/// The receiver's view of the air.
#[derive(Clone, Copy, Debug, PartialEq, Eq, Hash, Structural)]
pub struct RxGate {
    /// How long a preamble that never became a header is held, ms.
    header_ms: u32,
    /// How long a header that never became a packet is held, ms.
    max_frame_ms: u32,
    /// When a preamble or header was first seen with no packet end since.
    busy_since: Option<u64>,
    stage: Option<Stage>,
    prev_poll_ms: u64,
    poll_late: bool,
}

/// A gate, as its contracts speak of it.
pub struct Gate {
    pub header_ms: u32,
    pub max_frame_ms: u32,
    pub busy_since: Option<u64>,
    pub stage: Option<Stage>,
    pub prev_poll_ms: u64,
    pub poll_late: bool,
}

impl View for RxGate {
    type V = Gate;

    closed spec fn view(&self) -> Gate {
        Gate {
            header_ms: self.header_ms,
            max_frame_ms: self.max_frame_ms,
            busy_since: self.busy_since,
            stage: self.stage,
            prev_poll_ms: self.prev_poll_ms,
            poll_late: self.poll_late,
        }
    }
}

impl Gate {
    /// How long the frame being received is held.
    pub open spec fn hold(self) -> u32 {
        if self.stage == Some(Stage::Preamble) {
            self.header_ms
        } else {
            self.max_frame_ms
        }
    }

    /// Whether something was seen and its hold has not lapsed.
    pub open spec fn busy(self, now_ms: u64) -> bool {
        match self.busy_since {
            Some(since) => time::elapsed(since, now_ms) < self.hold(),
            None => false,
        }
    }

    /// With whatever was arriving forgotten.
    pub open spec fn cleared(self) -> Gate {
        Gate { busy_since: None, stage: None, ..self }
    }

    /// Once a poll's preamble and header bits are folded in.
    pub open spec fn noted(self, now_ms: u64, irq: Irq) -> Gate {
        if irq.header_valid {
            Gate {
                stage: Some(Stage::Header),
                busy_since: if self.busy(now_ms) { self.busy_since } else { Some(now_ms) },
                ..self
            }
        } else if irq.preamble && !self.busy(now_ms) {
            Gate { stage: Some(Stage::Preamble), busy_since: Some(now_ms), ..self }
        } else {
            self
        }
    }

    /// After a hop has asked to leave.
    pub open spec fn after_hop(self, now_ms: u64, cap_ms: u32) -> Self {
        if self.leaves(now_ms, cap_ms) && self.busy_since is Some {
            self.cleared()
        } else {
            self
        }
    }

    /// Whether the receiver may leave its channel at `now_ms`, having held it
    /// for no more than `cap_ms`.
    pub open spec fn leaves(self, now_ms: u64, cap_ms: u32) -> bool {
        !(self.busy_since matches Some(since) && {
            time::elapsed(since, now_ms) < time::least(self.hold() as int, cap_ms as int)
        })
    }

    /// Whether a poll at `now_ms` comes too late after the last.
    pub open spec fn late(self, now_ms: u64) -> bool {
        time::elapsed(self.prev_poll_ms, now_ms) > LATE_POLL_MS
    }

    /// After a poll, and what the poll amounted to.
    pub open spec fn observed(self, now_ms: u64, irq: Irq) -> (Gate, Seen) {
        if irq.rx_done {
            (self.cleared(), Seen::Packet { crc_ok: !irq.crc_err })
        } else {
            let g = if irq.header_err {
                self.noted(now_ms, irq).cleared()
            } else {
                self.noted(now_ms, irq)
            };
            (g, if g.busy(now_ms) { Seen::Arriving } else { Seen::Nothing })
        }
    }
}

impl RxGate {
    /// A gate that has seen nothing.
    pub fn new(header_ms: u32, max_frame_ms: u32) -> (r: Self)
        ensures
            r@ == (Gate {
                header_ms,
                max_frame_ms,
                busy_since: None,
                stage: None,
                prev_poll_ms: 0,
                poll_late: false,
            }),
    {
        Self { header_ms, max_frame_ms, busy_since: None, stage: None, prev_poll_ms: 0, poll_late: false }
    }

    /// New timings after a re-init: the modulation may have changed, and
    /// whatever was arriving on the old one is gone with it.
    pub fn retime(&mut self, header_ms: u32, max_frame_ms: u32)
        ensures
            final(self)@ == (Gate { header_ms, max_frame_ms, ..old(self)@.cleared() }),
    {
        self.header_ms = header_ms;
        self.max_frame_ms = max_frame_ms;
        self.clear();
    }

    /// Note a poll at `now_ms`, and say whether it came so long after the
    /// last that its timestamps cannot place anything.
    pub fn begin_poll(&mut self, now_ms: u64) -> (r: bool)
        ensures
            r == old(self)@.late(now_ms),
            final(self)@ == (Gate { prev_poll_ms: now_ms, poll_late: r, ..old(self)@ }),
    {
        self.poll_late = now_ms.saturating_sub(self.prev_poll_ms) > LATE_POLL_MS;
        self.prev_poll_ms = now_ms;
        self.poll_late
    }

    /// Whether the latest poll was late.
    pub fn poll_late(&self) -> (r: bool)
        ensures
            r == self@.poll_late,
    {
        self.poll_late
    }

    /// Fold the interrupts a poll read at `now_ms` into what is known.
    ///
    /// The time a frame was first seen is what its hold runs from - a
    /// preamble detector re-firing on noise must not extend it - and a
    /// header lifts the hold from the header time to a whole frame. A header
    /// that failed its check means the radio has given the frame up. A
    /// preamble or header seen after the previous hold has lapsed is a new
    /// frame, and its hold starts now.
    pub fn observe(&mut self, now_ms: u64, irq: Irq) -> (r: Seen)
        ensures
            (final(self)@, r) == old(self)@.observed(now_ms, irq),
    {
        if irq.rx_done {
            self.clear();
            return Seen::Packet { crc_ok: !irq.crc_err };
        }
        if irq.header_valid {
            if !self.in_progress(now_ms) {
                self.busy_since = Some(now_ms);
            }
            self.stage = Some(Stage::Header);
        } else if irq.preamble && !self.in_progress(now_ms) {
            self.busy_since = Some(now_ms);
            self.stage = Some(Stage::Preamble);
        }
        if irq.header_err {
            self.clear();
        }
        if self.in_progress(now_ms) {
            Seen::Arriving
        } else {
            Seen::Nothing
        }
    }

    /// How long the receiver is held for the frame it is mid-way through.
    pub fn hold_ms(&self) -> (r: u32)
        ensures
            r == self@.hold(),
    {
        match self.stage {
            Some(Stage::Preamble) => self.header_ms,
            _ => self.max_frame_ms,
        }
    }

    /// Whether a frame may be arriving: something was seen and its hold has
    /// not lapsed. A transmit started now would trample it, and on a hopping
    /// network the retune waits for it too.
    pub fn in_progress(&self, now_ms: u64) -> (r: bool)
        ensures
            r == self@.busy(now_ms),
    {
        match self.busy_since {
            Some(since) => now_ms.saturating_sub(since) < self.hold_ms() as u64,
            None => false,
        }
    }

    /// Whether the receiver may leave the channel it is on, for a hop: yes
    /// if nothing is arriving or the hold has run out, bounded by `cap_ms`
    /// (one slot) so a preamble that was noise cannot pin the receiver on a
    /// channel the network has left. Clears the hold on the way out.
    pub fn may_leave(&mut self, now_ms: u64, cap_ms: u32) -> (r: bool)
        ensures
            r == old(self)@.leaves(now_ms, cap_ms),
            final(self)@ == old(self)@.after_hop(now_ms, cap_ms),
    {
        if let Some(since) = self.busy_since {
            let hold: u32 = self.hold_ms();
            let cap: u64 = if hold < cap_ms { hold as u64 } else { cap_ms as u64 };
            if now_ms.saturating_sub(since) < cap {
                return false;
            }
            self.clear();
        }
        true
    }

    /// What has been seen, if anything.
    pub fn stage(&self) -> (r: Option<Stage>)
        ensures
            r == self@.stage,
    {
        self.stage
    }

    /// Forget whatever was arriving: a packet landed, a transmit went out,
    /// the radio was re-initialized.
    pub fn clear(&mut self)
        ensures
            final(self)@ == old(self)@.cleared(),
    {
        self.busy_since = None;
        self.stage = None;
    }
}

/// A hold ends: whatever a gate has seen, nothing is held once the longer of
/// its two holds has passed since it was first seen.
pub proof fn law_a_hold_ends(g: Gate, since: u64, now_ms: u64)
    requires
        g.busy_since == Some(since),
        now_ms >= since + g.header_ms,
        now_ms >= since + g.max_frame_ms,
    ensures
        !g.busy(now_ms),
{
}

/// A valid header is never left unprotected by a stale preamble: whatever
/// was on the books, a header that arrives is held from now or from a hold
/// that had not lapsed, and for a whole frame; and where the old hold had
/// lapsed, for a whole frame from now.
pub proof fn law_a_header_is_protected(g: Gate, now_ms: u64, irq: Irq, later_ms: u64)
    requires
        irq.header_valid,
        !irq.header_err,
        !irq.rx_done,
        now_ms <= later_ms,
    ensures
        ({
            let h = g.observed(now_ms, irq).0;
            &&& h.stage == Some(Stage::Header)
            &&& h.hold() == g.max_frame_ms
            &&& (g.header_ms <= g.max_frame_ms && 0 < g.max_frame_ms ==> h.busy(now_ms))
            &&& (!g.busy(now_ms) && later_ms < now_ms + g.max_frame_ms ==> h.busy(later_ms))
        }),
{
}

/// A preamble detector re-firing on noise does not extend the hold.
pub proof fn law_a_refire_does_not_extend(g: Gate, now_ms: u64, irq: Irq)
    requires
        g.busy(now_ms),
        irq.preamble,
        !irq.header_valid,
        !irq.header_err,
        !irq.rx_done,
    ensures
        g.observed(now_ms, irq).0 == g,
{
}

/// A fresh preamble holds the receiver for the header's time from when it was
/// seen, and a fresh header for a whole frame's.
pub proof fn law_a_fresh_hold_runs_from_now(g: Gate, now_ms: u64, irq: Irq, later_ms: u64)
    requires
        !g.busy(now_ms),
        !irq.header_err,
        !irq.rx_done,
        irq.preamble || irq.header_valid,
        now_ms <= later_ms,
    ensures
        ({
            let (h, seen) = g.observed(now_ms, irq);
            let hold = if irq.header_valid { g.max_frame_ms } else { g.header_ms };
            &&& h.busy(later_ms) <==> later_ms < now_ms + hold
            &&& hold > 0 ==> seen is Arriving
            &&& h.stage == Some(if irq.header_valid { Stage::Header } else { Stage::Preamble })
        }),
{
}

/// A header lifts a running hold to a whole frame from when the frame was
/// first seen.
pub proof fn law_a_header_lifts_a_running_hold(g: Gate, since: u64, now_ms: u64, irq: Irq, later_ms: u64)
    requires
        g.busy_since == Some(since),
        g.busy(now_ms),
        irq.header_valid,
        !irq.header_err,
        !irq.rx_done,
        since <= later_ms,
    ensures
        g.observed(now_ms, irq).0.busy(later_ms) <==> later_ms < since + g.max_frame_ms,
{
}

/// A packet's end and a failed header both end the hold, whatever else was
/// seen with them; the packet is good exactly where its CRC did not fail.
pub proof fn law_an_end_clears_the_hold(g: Gate, now_ms: u64, irq: Irq, later_ms: u64)
    requires
        irq.rx_done || irq.header_err,
    ensures
        !g.observed(now_ms, irq).0.busy(later_ms),
        g.observed(now_ms, irq).0.leaves(later_ms, u32::MAX),
        irq.rx_done ==> g.observed(now_ms, irq).1 == (Seen::Packet { crc_ok: !irq.crc_err }),
        !irq.rx_done ==> g.observed(now_ms, irq).1 is Nothing,
{
}

/// A poll that saw nothing changes nothing, and says whether a hold still
/// runs. No poll changes the timings.
pub proof fn law_a_quiet_poll_changes_nothing(g: Gate, now_ms: u64, irq: Irq)
    ensures
        !irq.preamble && !irq.header_valid && !irq.header_err && !irq.rx_done ==> g.observed(now_ms, irq).0 == g,
        !irq.preamble && !irq.header_valid && !irq.header_err && !irq.rx_done ==> g.observed(now_ms, irq).1 == (
        if g.busy(now_ms) { Seen::Arriving } else { Seen::Nothing }),
        g.observed(now_ms, irq).0.header_ms == g.header_ms,
        g.observed(now_ms, irq).0.max_frame_ms == g.max_frame_ms,
{
}

/// The receiver may leave once its hold has run out or it has held a slot, and
/// not before either, and at once where nothing was seen.
pub proof fn law_a_hop_waits_for_the_hold_and_at_most_a_slot(g: Gate, now_ms: u64, cap_ms: u32)
    ensures
        g.busy_since is None ==> g.leaves(now_ms, cap_ms),
        g.busy_since matches Some(since) && since <= now_ms ==> (g.leaves(now_ms, cap_ms) <==> !g.busy(now_ms) || now_ms
            >= g.busy_since->0 + cap_ms),
        !g.busy(now_ms) ==> g.leaves(now_ms, cap_ms),
{
}

/// A poll is late more than 40 ms after the last.
pub proof fn law_a_late_poll_is_noticed(g: Gate, now_ms: u64)
    ensures
        g.late(now_ms) <==> now_ms > g.prev_poll_ms + 40,
{
}

/// A hop that may go lifts the hold it went through, and one that may not
/// leaves it.
pub proof fn law_a_hop_that_goes_lifts_the_hold(g: Gate, now_ms: u64, cap_ms: u32)
    ensures
        g.leaves(now_ms, cap_ms) ==> g.after_hop(now_ms, cap_ms).busy_since is None,
        !g.leaves(now_ms, cap_ms) ==> g.after_hop(now_ms, cap_ms) == g,
        g.busy_since is None ==> g.after_hop(now_ms, cap_ms) == g,
{
}

} // verus!
