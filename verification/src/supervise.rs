//! Who is alive, and what is written down when something stops.
//!
//! The firmware is two loops on two cores, and nothing in either can see the
//! other stop. Each supervised task beats - at the top of every pass, and
//! from inside any wait long enough to look like a stop
//! ([`Supervisor::beat`]); a monitor reads the beats on a period and decides
//! whether every task is inside its bound ([`Supervisor::check`]); and a
//! hardware watchdog, fed only while every task is, catches the monitor
//! itself.
//!
//! Everything here is pure. The firmware supplies the clock and the atomics
//! the heartbeats live in.

use vstd::prelude::*;

verus! {

/// A task the monitor watches.
#[derive(Clone, Copy, Debug, PartialEq, Eq, Hash, Structural)]
pub enum Task {
    /// The hardware loop: radio, GPS, card and panel, on the second core.
    Loop,
    /// The BLE serve loop: advertising, the session, the duty cycle and the
    /// deep sleep, on the first core.
    Serve,
}

impl Task {
    /// Every task, in the order they are checked.
    pub const ALL: [Task; 2] = [Task::Loop, Task::Serve];

    /// The byte a stall record names the task by.
    pub open spec fn wire(self) -> u8 {
        match self {
            Task::Loop => 1,
            Task::Serve => 2,
        }
    }

    /// What the task is called.
    pub open spec fn words(self) -> Seq<char> {
        match self {
            Task::Loop => "hardware loop"@,
            Task::Serve => "ble serve loop"@,
        }
    }

    /// The task's heartbeat bound.
    pub open spec fn bound(self) -> u32 {
        match self {
            Task::Loop => 15_000,
            Task::Serve => 20_000,
        }
    }

    /// How long the task may go without a heartbeat before it is a stall.
    ///
    /// Each bound is set by the longest thing the task does *between*
    /// heartbeats, with room on top, not by how fast it normally runs.
    pub fn bound_ms(self) -> (r: u32)
        ensures
            r == self.bound(),
    {
        match self {
            Task::Loop => 15_000,
            Task::Serve => 20_000,
        }
    }

    /// What a reader calls the task.
    pub fn as_str(self) -> (r: &'static str)
        ensures
            r@ == self.words(),
    {
        match self {
            Task::Loop => "hardware loop",
            Task::Serve => "ble serve loop",
        }
    }

    /// The byte a stall record names the task by.
    pub fn as_wire(self) -> (r: u8)
        ensures
            r == self.wire(),
    {
        match self {
            Task::Loop => 1,
            Task::Serve => 2,
        }
    }

    /// The task a byte names, if it names one.
    pub fn from_wire(v: u8) -> (r: Option<Self>)
        ensures
            forall|t: Task| r == Some(t) <==> t.wire() == v,
            r is None <==> (forall|t: Task| t.wire() != v),
    {
        let r: Option<Task> = match v {
            1 => Some(Task::Loop),
            2 => Some(Task::Serve),
            _ => None,
        };
        proof {
            assert(Task::Loop.wire() == 1 && Task::Serve.wire() == 2);
        }
        r
    }
}

/// What a task was doing when it last spoke. One flat set for both tasks, so
/// a stall record carries one byte and a reader needs one table.
#[derive(Clone, Copy, Debug, PartialEq, Eq, Hash, Structural)]
pub enum Phase {
    /// Nothing recorded yet.
    Boot,
    /// Draining the request queue and carrying out the effects.
    Requests,
    /// The receiver: sentences, settings, the hop clock.
    Gps,
    /// Deciding whether a beacon is due.
    Beacon,
    /// Inside a transmit, waiting for the radio to finish.
    TxSend,
    /// Polling the radio for a frame.
    Receive,
    /// The J5 panel and the magnetometer.
    Panel,
    /// The status line.
    Status,
    /// Bringing the radio up from its config.
    RadioInit,
    /// Parking the receiver, or waking it, or waiting for its ack.
    GpsCtl,
    /// Reading a stored config and adopting it.
    ConfigLoad,
    /// Applying a pushed config.
    ConfigApply,
    /// Bringing the BLE controller and host up.
    BleInit,
    /// Advertising, waiting for a central or the budget.
    Advertise,
    /// A central connected; the attribute server is attaching.
    Attach,
    /// A session is running.
    Session,
    /// A config or bulk write is being applied for a central.
    Write,
    /// The modem is down for the tracker's off period.
    BleDown,
    /// Waiting for the hardware loop to park before a deep sleep.
    Park,
    /// Entering deep sleep.
    Sleep,
}

impl Default for Phase {
    fn default() -> (r: Self)
        ensures
            r is Boot,
    {
        Phase::Boot
    }
}

impl Phase {
    /// The byte a stall record names the phase by. 6 is retired.
    pub open spec fn wire(self) -> u8 {
        match self {
            Phase::Boot => 0,
            Phase::Requests => 1,
            Phase::Gps => 2,
            Phase::Beacon => 3,
            Phase::TxSend => 4,
            Phase::Receive => 5,
            Phase::Panel => 7,
            Phase::Status => 8,
            Phase::RadioInit => 9,
            Phase::GpsCtl => 10,
            Phase::ConfigLoad => 11,
            Phase::ConfigApply => 12,
            Phase::BleInit => 13,
            Phase::Advertise => 14,
            Phase::Attach => 15,
            Phase::Session => 16,
            Phase::Write => 17,
            Phase::BleDown => 18,
            Phase::Park => 19,
            Phase::Sleep => 20,
        }
    }

    /// What a reader calls the phase.
    pub open spec fn words(self) -> Seq<char> {
        match self {
            Phase::Boot => "boot"@,
            Phase::Requests => "requests"@,
            Phase::Gps => "gps"@,
            Phase::Beacon => "beacon"@,
            Phase::TxSend => "tx send"@,
            Phase::Receive => "receive"@,
            Phase::Panel => "panel"@,
            Phase::Status => "status"@,
            Phase::RadioInit => "radio init"@,
            Phase::GpsCtl => "gps control"@,
            Phase::ConfigLoad => "config load"@,
            Phase::ConfigApply => "config apply"@,
            Phase::BleInit => "ble init"@,
            Phase::Advertise => "advertise"@,
            Phase::Attach => "attach"@,
            Phase::Session => "session"@,
            Phase::Write => "write"@,
            Phase::BleDown => "ble down"@,
            Phase::Park => "park"@,
            Phase::Sleep => "sleep"@,
        }
    }

    /// What a reader calls the phase.
    pub fn as_str(self) -> (r: &'static str)
        ensures
            r@ == self.words(),
    {
        match self {
            Phase::Boot => "boot",
            Phase::Requests => "requests",
            Phase::Gps => "gps",
            Phase::Beacon => "beacon",
            Phase::TxSend => "tx send",
            Phase::Receive => "receive",
            Phase::Panel => "panel",
            Phase::Status => "status",
            Phase::RadioInit => "radio init",
            Phase::GpsCtl => "gps control",
            Phase::ConfigLoad => "config load",
            Phase::ConfigApply => "config apply",
            Phase::BleInit => "ble init",
            Phase::Advertise => "advertise",
            Phase::Attach => "attach",
            Phase::Session => "session",
            Phase::Write => "write",
            Phase::BleDown => "ble down",
            Phase::Park => "park",
            Phase::Sleep => "sleep",
        }
    }

    /// The byte a stall record names the phase by.
    pub fn as_wire(self) -> (r: u8)
        ensures
            r == self.wire(),
    {
        match self {
            Phase::Boot => 0,
            Phase::Requests => 1,
            Phase::Gps => 2,
            Phase::Beacon => 3,
            Phase::TxSend => 4,
            Phase::Receive => 5,
            Phase::Panel => 7,
            Phase::Status => 8,
            Phase::RadioInit => 9,
            Phase::GpsCtl => 10,
            Phase::ConfigLoad => 11,
            Phase::ConfigApply => 12,
            Phase::BleInit => 13,
            Phase::Advertise => 14,
            Phase::Attach => 15,
            Phase::Session => 16,
            Phase::Write => 17,
            Phase::BleDown => 18,
            Phase::Park => 19,
            Phase::Sleep => 20,
        }
    }

    /// The phase a byte names, if it names one.
    pub fn from_wire(v: u8) -> (r: Option<Self>)
        ensures
            r matches Some(p) ==> p.wire() == v,
            r is None ==> (forall|p: Phase| p.wire() != v),
    {
        match v {
            0 => Some(Phase::Boot),
            1 => Some(Phase::Requests),
            2 => Some(Phase::Gps),
            3 => Some(Phase::Beacon),
            4 => Some(Phase::TxSend),
            5 => Some(Phase::Receive),
            7 => Some(Phase::Panel),
            8 => Some(Phase::Status),
            9 => Some(Phase::RadioInit),
            10 => Some(Phase::GpsCtl),
            11 => Some(Phase::ConfigLoad),
            12 => Some(Phase::ConfigApply),
            13 => Some(Phase::BleInit),
            14 => Some(Phase::Advertise),
            15 => Some(Phase::Attach),
            16 => Some(Phase::Session),
            17 => Some(Phase::Write),
            18 => Some(Phase::BleDown),
            19 => Some(Phase::Park),
            20 => Some(Phase::Sleep),
            _ => None,
        }
    }
}

/// No two tasks and no two phases share a byte, so what
/// [`from_wire`](Phase::from_wire) gives back is the one that was written.
pub proof fn law_wire_bytes_distinct(s: Task, t: Task, p: Phase, q: Phase)
    ensures
        s.wire() == t.wire() ==> s == t,
        p.wire() == q.wire() ==> p == q,
{
}

/// How often the monitor reads the heartbeats and feeds the watchdog.
pub const MONITOR_PERIOD_MS: u32 = 500;

/// How long the hardware watchdog runs without a feed before it resets the
/// board. Well past the longest task bound plus a monitor period, so the
/// monitor always gets to say *which* task stalled before the watchdog says
/// only that something did.
pub const WDT_TIMEOUT_MS: u32 = 30_000;

/// The watchdog outlasts every task's bound and two monitor periods, so a
/// stall is named before the watchdog resets the board.
pub proof fn law_watchdog_outlasts_every_bound(t: Task)
    ensures
        t.bound() + 2 * MONITOR_PERIOD_MS < WDT_TIMEOUT_MS,
{
}

/// A task that went quiet past its bound.
#[derive(Clone, Copy, Debug, PartialEq, Eq, Hash, Structural)]
pub struct Stall {
    pub task: Task,
    /// What it said it was doing when it last spoke.
    pub phase: Phase,
    /// How long ago that was.
    pub silent_ms: u32,
}

/// What the monitor decided.
#[derive(Clone, Copy, Debug, PartialEq, Eq, Hash, Structural)]
pub enum Verdict {
    /// Every task is inside its bound: feed the watchdog.
    Alive,
    /// Write it down and reset. Only the first stall found is reported; a
    /// second task stalled behind it is usually the first one's victim.
    Stalled(Stall),
}

/// The heartbeats, as the monitor reads them.
#[derive(Clone, Copy, Debug, PartialEq, Eq, Hash, Structural)]
pub struct Supervisor {
    loop_seen_ms: u64,
    serve_seen_ms: u64,
    loop_phase: Phase,
    serve_phase: Phase,
}

impl Supervisor {
    /// When `task` last spoke.
    pub closed spec fn seen(self, task: Task) -> u64 {
        match task {
            Task::Loop => self.loop_seen_ms,
            Task::Serve => self.serve_seen_ms,
        }
    }

    /// What `task` last said it was doing.
    pub closed spec fn doing(self, task: Task) -> Phase {
        match task {
            Task::Loop => self.loop_phase,
            Task::Serve => self.serve_phase,
        }
    }

    /// How long `task` has been silent, saturating at a `u32`.
    pub open spec fn silent(self, task: Task, now_ms: u64) -> u32 {
        let d = if now_ms > self.seen(task) { now_ms - self.seen(task) } else { 0 };
        if d > u32::MAX { u32::MAX } else { d as u32 }
    }

    /// Whether `task` is past its bound.
    pub open spec fn stalled(self, task: Task, now_ms: u64) -> bool {
        self.silent(task, now_ms) > task.bound()
    }

    /// The monitor's decision at `now_ms`.
    pub open spec fn verdict(self, now_ms: u64) -> Verdict {
        if self.stalled(Task::Loop, now_ms) {
            Verdict::Stalled(
                Stall {
                    task: Task::Loop,
                    phase: self.doing(Task::Loop),
                    silent_ms: self.silent(Task::Loop, now_ms),
                },
            )
        } else if self.stalled(Task::Serve, now_ms) {
            Verdict::Stalled(
                Stall {
                    task: Task::Serve,
                    phase: self.doing(Task::Serve),
                    silent_ms: self.silent(Task::Serve, now_ms),
                },
            )
        } else {
            Verdict::Alive
        }
    }

    /// Every task counted as alive now. The boot beats for all of them, so a
    /// task that never starts is a stall from the boot line rather than one
    /// that is never noticed.
    pub fn new(now_ms: u64) -> (r: Self)
        ensures
            forall|t: Task| r.seen(t) == now_ms && r.doing(t) is Boot,
    {
        Self {
            loop_seen_ms: now_ms,
            serve_seen_ms: now_ms,
            loop_phase: Phase::Boot,
            serve_phase: Phase::Boot,
        }
    }

    /// `task` is alive and in `phase`.
    pub fn beat(&mut self, task: Task, phase: Phase, now_ms: u64)
        ensures
            final(self).seen(task) == now_ms,
            final(self).doing(task) == phase,
            forall|t: Task| t != task ==> final(self).seen(t) == old(self).seen(t),
            forall|t: Task| t != task ==> final(self).doing(t) == old(self).doing(t),
    {
        match task {
            Task::Loop => {
                self.loop_seen_ms = now_ms;
                self.loop_phase = phase;
            },
            Task::Serve => {
                self.serve_seen_ms = now_ms;
                self.serve_phase = phase;
            },
        }
    }

    /// What `task` last said it was doing.
    pub fn phase(&self, task: Task) -> (r: Phase)
        ensures
            r == self.doing(task),
    {
        match task {
            Task::Loop => self.loop_phase,
            Task::Serve => self.serve_phase,
        }
    }

    /// How long since `task` last spoke.
    pub fn silent_ms(&self, task: Task, now_ms: u64) -> (r: u32)
        ensures
            r == self.silent(task, now_ms),
    {
        let seen: u64 = match task {
            Task::Loop => self.loop_seen_ms,
            Task::Serve => self.serve_seen_ms,
        };
        let d: u64 = now_ms.saturating_sub(seen);
        if d > u32::MAX as u64 {
            u32::MAX
        } else {
            d as u32
        }
    }

    /// The monitor's decision at `now_ms`. Tasks are checked in the order of
    /// [`Task::ALL`], and the first past its bound is the verdict.
    pub fn check(&self, now_ms: u64) -> (r: Verdict)
        ensures
            r == self.verdict(now_ms),
            r is Alive <==> (forall|t: Task| !self.stalled(t, now_ms)),
            r matches Verdict::Stalled(s) ==> {
                &&& self.stalled(s.task, now_ms)
                &&& s.phase == self.doing(s.task)
                &&& s.silent_ms == self.silent(s.task, now_ms)
                &&& (s.task is Serve ==> !self.stalled(Task::Loop, now_ms))
            },
    {
        let on_loop: u32 = self.silent_ms(Task::Loop, now_ms);
        if on_loop > Task::Loop.bound_ms() {
            assert(self.stalled(Task::Loop, now_ms));
            return Verdict::Stalled(
                Stall { task: Task::Loop, phase: self.phase(Task::Loop), silent_ms: on_loop },
            );
        }
        let on_serve: u32 = self.silent_ms(Task::Serve, now_ms);
        if on_serve > Task::Serve.bound_ms() {
            assert(self.stalled(Task::Serve, now_ms));
            return Verdict::Stalled(
                Stall { task: Task::Serve, phase: self.phase(Task::Serve), silent_ms: on_serve },
            );
        }
        Verdict::Alive
    }
}

/// A task that has said nothing for longer than its bound is a stall, and one
/// inside it is not, whatever either last said it was doing: 15 s for the
/// hardware loop, 20 s for the serve loop. The verdict turns on when each last
/// spoke and nothing else.
pub proof fn law_silence_past_the_bound_is_a_stall(s: Supervisor, now_ms: u64)
    ensures
        s.verdict(now_ms) is Alive <==> now_ms <= s.seen(Task::Loop) + 15_000 && now_ms <= s.seen(Task::Serve) + 20_000,
        now_ms > s.seen(Task::Loop) + 15_000 ==> (s.verdict(now_ms) matches Verdict::Stalled(r) && r.task is Loop),
        now_ms <= s.seen(Task::Loop) + 15_000 && now_ms > s.seen(Task::Serve) + 20_000 ==> (s.verdict(
            now_ms,
        ) matches Verdict::Stalled(r) && r.task is Serve),
{
}

/// What a stall says of the task it names: what it last said it was doing, and
/// how long ago that was, up to what a `u32` holds.
pub proof fn law_a_stall_says_what_was_going_on(s: Supervisor, now_ms: u64)
    ensures
        s.verdict(now_ms) matches Verdict::Stalled(r) ==> {
            &&& r.phase == s.doing(r.task)
            &&& now_ms - s.seen(r.task) <= u32::MAX ==> r.silent_ms == now_ms - s.seen(r.task)
            &&& now_ms - s.seen(r.task) > u32::MAX ==> r.silent_ms == u32::MAX
        },
{
}

/// Two boards whose tasks last spoke at the same times get the same verdict
/// but for the phase it names.
pub proof fn law_the_phase_decides_nothing(a: Supervisor, b: Supervisor, now_ms: u64)
    requires
        forall|t: Task| a.seen(t) == b.seen(t),
    ensures
        a.verdict(now_ms) is Alive <==> b.verdict(now_ms) is Alive,
        a.verdict(now_ms) matches Verdict::Stalled(r) ==> (b.verdict(now_ms) matches Verdict::Stalled(q) && q.task == r.task
            && q.silent_ms == r.silent_ms),
{
    assert(a.seen(Task::Loop) == b.seen(Task::Loop) && a.seen(Task::Serve) == b.seen(Task::Serve));
}

/// The byte that stands for each task and each phase, which a reset leaves
/// behind for the boot after it.
pub proof fn law_the_byte_of_each_phase()
    ensures
        Task::Loop.wire() == 1 && Task::Serve.wire() == 2,
        Phase::Boot.wire() == 0,
        Phase::Requests.wire() == 1,
        Phase::Gps.wire() == 2,
        Phase::Beacon.wire() == 3,
        Phase::TxSend.wire() == 4,
        Phase::Receive.wire() == 5,
        Phase::Panel.wire() == 7,
        Phase::Status.wire() == 8,
        Phase::RadioInit.wire() == 9,
        Phase::GpsCtl.wire() == 10,
        Phase::ConfigLoad.wire() == 11,
        Phase::ConfigApply.wire() == 12,
        Phase::BleInit.wire() == 13,
        Phase::Advertise.wire() == 14,
        Phase::Attach.wire() == 15,
        Phase::Session.wire() == 16,
        Phase::Write.wire() == 17,
        Phase::BleDown.wire() == 18,
        Phase::Park.wire() == 19,
        Phase::Sleep.wire() == 20,
{
}

/// What each task and each phase is called.
pub proof fn law_the_words_of_each_phase()
    ensures
        Task::Loop.words() == "hardware loop"@ && Task::Serve.words() == "ble serve loop"@,
        Phase::Boot.words() == "boot"@,
        Phase::Requests.words() == "requests"@,
        Phase::Gps.words() == "gps"@,
        Phase::Beacon.words() == "beacon"@,
        Phase::TxSend.words() == "tx send"@,
        Phase::Receive.words() == "receive"@,
        Phase::Panel.words() == "panel"@,
        Phase::Status.words() == "status"@,
        Phase::RadioInit.words() == "radio init"@,
        Phase::GpsCtl.words() == "gps control"@,
        Phase::ConfigLoad.words() == "config load"@,
        Phase::ConfigApply.words() == "config apply"@,
        Phase::BleInit.words() == "ble init"@,
        Phase::Advertise.words() == "advertise"@,
        Phase::Attach.words() == "attach"@,
        Phase::Session.words() == "session"@,
        Phase::Write.words() == "write"@,
        Phase::BleDown.words() == "ble down"@,
        Phase::Park.words() == "park"@,
        Phase::Sleep.words() == "sleep"@,
{
}

} // verus!
