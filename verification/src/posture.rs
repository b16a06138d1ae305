//! What the hardware task raises and lowers, and the requests that move it.
//!
//! The hardware task owns the radio, the GPS and the panel. Everything else -
//! the BLE session, the USB console, the serve loop - asks it to change what
//! is up and what is down through a [`Request`], and the task answers on its
//! next pass. What each request does depends on where the board already is: a
//! mode raises or lowers everything, an override parks one subsystem inside a
//! tracking posture, a sleep parks the lot.
//!
//! [`Posture`] is what is up, [`Posture::on`] is what a request changes and
//! the [`Effect`]s the task has to carry out for it, and
//! [`Posture::consistent`] is the rule that every reachable posture satisfies.
//! [`Requests`] is the queue between the two.

use vstd::prelude::*;
use vstd::std_specs::iter::*;
use crate::ble::Mode;
use crate::radiocfg::Role;
use crate::session;
use crate::session::Stored;

verus! {

/// A request from the BLE session or the host tools to the hardware loop.
///
/// Acknowledged where it is made - there is no second chip that can fail to
/// answer - and picked up by the loop on its next pass.
#[derive(Clone, Copy, Debug, PartialEq, Eq, Hash, Structural)]
pub enum Request {
    /// Park the GPS in backup (`true`) or wake it. An override inside a
    /// tracking posture; nothing elsewhere, where the mode decides.
    GpsSleep(bool),
    /// Put the radio in standby (`true`) or bring it back. An override inside
    /// a tracking posture, like [`Request::GpsSleep`].
    RadioStandby(bool),
    /// Raise or lower everything at once, because a mode is a posture rather
    /// than one subsystem. [`Mode::Stored`] never arrives this way: storing
    /// the board is a deep sleep, which is [`Request::PrepareSleep`] from the
    /// side that owns the sleep.
    Mode(Mode),
    /// A new radio config was pushed and verified. Re-init the radio and the
    /// node from it, write it back to flash.
    ApplyConfig,
    /// A firmware image landed in the inactive slot. Reboot into it.
    Reboot,
    /// The board is about to deep sleep. Park everything a sleeping board
    /// cannot use and say when it is done.
    PrepareSleep,
}

// -- The requests waiting --------------------------------------------------------

/// The requests waiting for the hardware loop.
///
/// A set rather than a queue, one slot per kind: the latest of a kind wins,
/// and a request repeated before the loop ran is one request. That is what
/// makes it impossible to lose one.
///
/// [`take`](Requests::take) hands them out in a fixed order rather than in
/// arrival order: a mode decides the posture the overrides apply inside, a
/// config wants the stored one the mode may have just read, and a park has to
/// come after anything that raises or the board sleeps with it up.
#[derive(Clone, Copy, Debug, PartialEq, Eq, Hash)]
pub struct Requests {
    mode: Option<Mode>,
    gps_sleep: Option<bool>,
    radio_standby: Option<bool>,
    apply_config: bool,
    prepare_sleep: bool,
    reboot: bool,
}

/// A set of requests, as its contracts speak of it.
#[verifier::ext_equal]
pub struct Waiting {
    pub mode: Option<Mode>,
    pub gps_sleep: Option<bool>,
    pub radio_standby: Option<bool>,
    pub apply_config: bool,
    pub prepare_sleep: bool,
    pub reboot: bool,
}

impl View for Requests {
    type V = Waiting;

    closed spec fn view(&self) -> Waiting {
        Waiting {
            mode: self.mode,
            gps_sleep: self.gps_sleep,
            radio_standby: self.radio_standby,
            apply_config: self.apply_config,
            prepare_sleep: self.prepare_sleep,
            reboot: self.reboot,
        }
    }
}

/// No request waiting.
pub open spec fn none_waiting() -> Waiting {
    Waiting {
        mode: None,
        gps_sleep: None,
        radio_standby: None,
        apply_config: false,
        prepare_sleep: false,
        reboot: false,
    }
}

/// Where a request comes in the order they are carried out.
pub open spec fn turn(r: Request) -> int {
    match r {
        Request::Mode(_) => 0,
        Request::GpsSleep(_) => 1,
        Request::RadioStandby(_) => 2,
        Request::ApplyConfig => 3,
        Request::PrepareSleep => 4,
        Request::Reboot => 5,
    }
}

impl Waiting {
    /// The set with a request added, replacing one of its kind.
    pub open spec fn asked(self, r: Request) -> Waiting {
        match r {
            Request::Mode(m) => Waiting { mode: Some(m), ..self },
            Request::GpsSleep(on) => Waiting { gps_sleep: Some(on), ..self },
            Request::RadioStandby(on) => Waiting { radio_standby: Some(on), ..self },
            Request::ApplyConfig => Waiting { apply_config: true, ..self },
            Request::PrepareSleep => Waiting { prepare_sleep: true, ..self },
            Request::Reboot => Waiting { reboot: true, ..self },
        }
    }

    /// Whether a request waits.
    pub open spec fn holds(self, r: Request) -> bool {
        match r {
            Request::Mode(m) => self.mode == Some(m),
            Request::GpsSleep(on) => self.gps_sleep == Some(on),
            Request::RadioStandby(on) => self.radio_standby == Some(on),
            Request::ApplyConfig => self.apply_config,
            Request::PrepareSleep => self.prepare_sleep,
            Request::Reboot => self.reboot,
        }
    }

    /// The set without the request whose turn is `t`.
    pub open spec fn without(self, t: int) -> Waiting {
        if t == 0 {
            Waiting { mode: None, ..self }
        } else if t == 1 {
            Waiting { gps_sleep: None, ..self }
        } else if t == 2 {
            Waiting { radio_standby: None, ..self }
        } else if t == 3 {
            Waiting { apply_config: false, ..self }
        } else if t == 4 {
            Waiting { prepare_sleep: false, ..self }
        } else {
            Waiting { reboot: false, ..self }
        }
    }

    /// The request to carry out next.
    pub open spec fn first(self) -> Option<Request> {
        if self.mode is Some {
            Some(Request::Mode(self.mode->0))
        } else if self.gps_sleep is Some {
            Some(Request::GpsSleep(self.gps_sleep->0))
        } else if self.radio_standby is Some {
            Some(Request::RadioStandby(self.radio_standby->0))
        } else if self.apply_config {
            Some(Request::ApplyConfig)
        } else if self.prepare_sleep {
            Some(Request::PrepareSleep)
        } else if self.reboot {
            Some(Request::Reboot)
        } else {
            None
        }
    }

    /// The set once that request has been taken.
    pub open spec fn rest(self) -> Waiting {
        match self.first() {
            Some(r) => self.without(turn(r)),
            None => self,
        }
    }
}

impl Default for Requests {
    fn default() -> (r: Self)
        ensures
            r@ == none_waiting(),
    {
        Self::new()
    }
}

impl Requests {
    /// Nothing waiting.
    pub fn new() -> (r: Self)
        ensures
            r@ == none_waiting(),
    {
        Self {
            mode: None,
            gps_sleep: None,
            radio_standby: None,
            apply_config: false,
            prepare_sleep: false,
            reboot: false,
        }
    }

    /// Queue a request. Never fails; a request of the same kind already
    /// waiting is replaced.
    pub fn push(&mut self, r: Request)
        ensures
            final(self)@ == old(self)@.asked(r),
    {
        match r {
            Request::Mode(m) => {
                self.mode = Some(m);
            },
            Request::GpsSleep(on) => {
                self.gps_sleep = Some(on);
            },
            Request::RadioStandby(on) => {
                self.radio_standby = Some(on);
            },
            Request::ApplyConfig => {
                self.apply_config = true;
            },
            Request::PrepareSleep => {
                self.prepare_sleep = true;
            },
            Request::Reboot => {
                self.reboot = true;
            },
        }
    }

    /// The next request to carry out, in the order described above.
    pub fn take(&mut self) -> (r: Option<Request>)
        ensures
            r == old(self)@.first(),
            final(self)@ == old(self)@.rest(),
    {
        if let Some(m) = self.mode {
            self.mode = None;
            return Some(Request::Mode(m));
        }
        if let Some(on) = self.gps_sleep {
            self.gps_sleep = None;
            return Some(Request::GpsSleep(on));
        }
        if let Some(on) = self.radio_standby {
            self.radio_standby = None;
            return Some(Request::RadioStandby(on));
        }
        if self.apply_config {
            self.apply_config = false;
            return Some(Request::ApplyConfig);
        }
        if self.prepare_sleep {
            self.prepare_sleep = false;
            return Some(Request::PrepareSleep);
        }
        if self.reboot {
            self.reboot = false;
            return Some(Request::Reboot);
        }
        None
    }

    /// Whether nothing waits.
    pub fn is_empty(&self) -> (r: bool)
        ensures
            r == (self@ == none_waiting()),
            r == (self@.first() is None),
    {
        self.mode.is_none() && self.gps_sleep.is_none() && self.radio_standby.is_none() && !self.apply_config
            && !self.prepare_sleep && !self.reboot
    }

    /// Whether a park is waiting, which is what keeps the loop from starting
    /// a transmit the sleep would then have to wait out.
    pub fn sleep_pending(&self) -> (r: bool)
        ensures
            r == self@.prepare_sleep,
    {
        self.prepare_sleep
    }
}

/// No request is lost: one asked for waits, whatever else waits, until one of
/// its kind replaces it or it is taken.
pub proof fn law_no_request_is_lost(w: Waiting, r: Request, other: Request)
    ensures
        w.asked(r).holds(r),
        turn(other) != turn(r) ==> w.asked(r).holds(other) == w.holds(other),
        turn(other) == turn(r) && other != r ==> !w.asked(r).holds(other),
        w.asked(r).asked(r) == w.asked(r),
        w.holds(r) ==> w.first() is Some && (w.first() == Some(r) || w.rest().holds(r)),
{
}

/// Requests are carried out in a fixed order, whatever the order they were
/// asked for in: mode, the two overrides, config, park, reboot. Each is
/// carried out once.
pub proof fn law_requests_drain_in_order(w: Waiting)
    ensures
        w.first() matches Some(r) ==> w.holds(r) && !w.rest().holds(r) && (w.rest().first() matches Some(next)
            ==> turn(r) < turn(next)),
        w.first() is None ==> w == none_waiting(),
{
}

// -- Effects ---------------------------------------------------------------------

/// Where the radio is.
#[derive(Clone, Copy, Debug, PartialEq, Eq, Hash, Structural)]
pub enum Radio {
    /// Cold sleep, configuration lost; an init brings it back.
    Asleep,
    /// Configured and idle in standby: the [`Request::RadioStandby`] override.
    Standby,
    /// Initialized from the running config and, on a listening role, in
    /// continuous receive.
    Up,
    /// Duty-cycling on its own timers with the wake sync word, waiting for a
    /// wake frame while the chip sleeps. Only ever entered by a park, and from
    /// then on nothing may touch the radio over SPI.
    Sentry,
}

/// Where the GPS receiver is.
#[derive(Clone, Copy, Debug, PartialEq, Eq, Hash, Structural)]
pub enum Gps {
    /// Backup mode, or believed to be: the parked state a wake check inherits
    /// from the park before it.
    Parked,
    /// Acquiring or tracking, and being polled.
    Awake,
}

/// Whether the stored radio config has been read and adopted.
#[derive(Clone, Copy, Debug, PartialEq, Eq, Hash, Structural)]
pub enum Config {
    /// Not yet: a wake check does not read it and may never need to.
    Unread,
    /// Read from the board's flash and adopted, or found absent and the
    /// defaults adopted in its place.
    Read,
}

/// One thing the hardware task has to do for a request.
#[derive(Clone, Copy, Debug, PartialEq, Eq, Hash, Structural)]
pub enum Effect {
    /// Read the stored config from flash and adopt it, then reconfigure the
    /// node from it.
    LoadConfig,
    /// Bring the receiver up: wake it from backup, or configure a receiver
    /// that is already running, and re-arm the settings retry.
    GpsUp,
    /// Put the receiver into backup.
    GpsPark,
    /// Tell the driver the receiver is in backup without touching it, for a
    /// wake check that inherits the park before it.
    GpsAssumeParked,
    /// Initialize the radio from the running config.
    RadioInit,
    /// Park the radio in standby.
    RadioStandby,
    /// Put the radio into cold sleep.
    RadioSleep,
    /// Arm the radio's sniff loop for a wake frame and leave it running. The
    /// task falls back to [`Effect::RadioSleep`] if the config's sentry cannot
    /// be armed.
    RadioSentry,
    /// Blank the status panel.
    PanelBlank,
    /// Adopt the pushed config: re-init the radio and the node from it and
    /// write it back. Followed by the radio effect that puts the radio back
    /// where the posture wants it, since the apply brings it up.
    ApplyConfig,
    /// Ask whether the receiver is talking when it should be parked, and say
    /// so - the one place a park that did not hold can be caught.
    CheckParkHeld,
    /// Everything is parked; the sleep may proceed.
    SleepReady,
    /// Reset into the new image.
    Reboot,
}

/// Most effects one request can produce.
pub const EFFECTS_MAX: usize = 8;

/// The effects of one request, in the order to carry them out.
#[derive(Clone, Copy, Debug, PartialEq, Eq)]
pub struct Effects {
    items: [Effect; EFFECTS_MAX],
    len: usize,
}

impl View for Effects {
    type V = Seq<Effect>;

    closed spec fn view(&self) -> Seq<Effect> {
        self.items@.take(self.len as int)
    }
}

impl Default for Effects {
    fn default() -> (r: Self)
        ensures
            r.wf(),
            r@ == Seq::<Effect>::empty(),
    {
        let r: Effects = Effects { items: [Effect::Reboot; EFFECTS_MAX], len: 0 };
        assert(r@ =~= Seq::<Effect>::empty());
        r
    }
}

impl Effects {
    /// No more effects than there is room for.
    pub closed spec fn wf(self) -> bool {
        self.len <= EFFECTS_MAX
    }

    fn push(&mut self, e: Effect)
        requires
            old(self).wf(),
            old(self)@.len() < EFFECTS_MAX,
        ensures
            final(self).wf(),
            final(self)@ == old(self)@.push(e),
    {
        let ghost before = self@;
        self.items[self.len] = e;
        self.len = self.len + 1;
        assert(self@ =~= before.push(e));
    }

    /// How many effects there are.
    pub fn len(&self) -> (r: usize)
        requires
            self.wf(),
        ensures
            r == self@.len(),
    {
        self.len
    }

    /// Whether there are none.
    pub fn is_empty(&self) -> (r: bool)
        requires
            self.wf(),
        ensures
            r == (self@.len() == 0),
    {
        self.len == 0
    }

    /// Whether `e` is among them.
    pub fn contains(&self, e: Effect) -> (r: bool)
        requires
            self.wf(),
        ensures
            r == self@.contains(e),
    {
        let mut i: usize = 0;
        while i < self.len
            invariant
                i <= self.len,
                self.len <= EFFECTS_MAX,
                forall|j: int| 0 <= j < i ==> self@[j] != e,
            decreases self.len - i,
        {
            if self.items[i] == e {
                assert(self@[i as int] == e);
                return true;
            }
            i += 1;
        }
        false
    }

    /// The effects, in order.
    pub fn iter(&self) -> (r: core::slice::Iter<'_, Effect>)
        requires
            self.wf(),
        ensures
            IteratorSpec::remaining(&r).unref() == self@,
    {
        let r: core::slice::Iter<'_, Effect> = self.items.as_slice()[0..self.len].iter();
        assert(IteratorSpec::remaining(&r).unref() =~= self@);
        r
    }
}

// -- The posture -----------------------------------------------------------------

/// What is up on the board, and what mode it is up for.
#[derive(Clone, Copy, Debug, PartialEq, Eq, Hash, Structural)]
pub struct Posture {
    /// The mode the hardware is in. Moved by [`Request::Mode`], never by the
    /// task on its own.
    pub live: Mode,
    pub radio: Radio,
    pub gps: Gps,
    pub config: Config,
    /// Parked for a deep sleep: everything down, and staying down whatever
    /// arrives until the chip goes.
    pub parked: bool,
    /// Whether a park arms the radio as a sentry rather than sleeping it. The
    /// config's `wake_enabled`, once the config has been read; the default
    /// until then.
    pub sentry: bool,
}

/// Where the receiver belongs in a tracking posture.
pub open spec fn gps_wanted(stored: Stored) -> Gps {
    if stored.backed_up() {
        Gps::Parked
    } else {
        Gps::Awake
    }
}

/// Where the radio belongs in a tracking posture.
pub open spec fn radio_wanted(stored: Stored) -> Radio {
    if stored.standing_by() {
        Radio::Standby
    } else {
        Radio::Up
    }
}

/// What reading a config left unread takes.
pub open spec fn loading(config: Config) -> Seq<Effect> {
    if config is Unread {
        seq![Effect::LoadConfig]
    } else {
        seq![]
    }
}

/// What moving the receiver takes.
pub open spec fn moving_gps(from: Gps, to: Gps) -> Seq<Effect> {
    if from == to {
        seq![]
    } else if to is Awake {
        seq![Effect::GpsUp]
    } else {
        seq![Effect::GpsPark]
    }
}

/// What moving the radio takes. Standby is a configured radio parked between
/// modes, and arming needs a configured radio, so one that lost its
/// configuration is brought up first.
pub open spec fn moving_radio(from: Radio, to: Radio) -> Seq<Effect> {
    if from == to {
        seq![]
    } else {
        match to {
            Radio::Up => seq![Effect::RadioInit],
            Radio::Asleep => seq![Effect::RadioSleep],
            Radio::Standby => if from is Up {
                seq![Effect::RadioStandby]
            } else {
                seq![Effect::RadioInit, Effect::RadioStandby]
            },
            Radio::Sentry => if from is Up || from is Standby {
                seq![Effect::RadioSentry]
            } else {
                seq![Effect::RadioInit, Effect::RadioSentry]
            },
        }
    }
}

/// What putting the radio back after a config apply takes.
pub open spec fn putting_back(radio: Radio) -> Seq<Effect> {
    match radio {
        Radio::Up => seq![],
        Radio::Standby => seq![Effect::RadioStandby],
        Radio::Asleep => seq![Effect::RadioSleep],
        Radio::Sentry => seq![Effect::RadioSentry],
    }
}

impl Posture {
    /// The posture a boot into `boot` starts from, before the overrides.
    pub open spec fn booted(boot: Mode) -> Posture {
        Posture {
            live: boot,
            radio: if boot.raised() {
                Radio::Up
            } else {
                Radio::Asleep
            },
            gps: if boot.raised() {
                Gps::Awake
            } else {
                Gps::Parked
            },
            config: if boot is Stored {
                Config::Unread
            } else {
                Config::Read
            },
            parked: false,
            sentry: true,
        }
    }

    /// The effects that raise it.
    pub open spec fn booting(boot: Mode) -> Seq<Effect> {
        match boot {
            Mode::Stored => seq![Effect::GpsAssumeParked],
            Mode::Idle => seq![Effect::LoadConfig, Effect::GpsPark, Effect::RadioSleep],
            _ => seq![Effect::LoadConfig, Effect::RadioInit, Effect::GpsUp],
        }
    }

    /// The posture with the receiver and the radio where the two override
    /// flags say a tracking posture keeps them.
    pub open spec fn overridden(self, stored: Stored) -> Posture {
        Posture { gps: gps_wanted(stored), radio: radio_wanted(stored), ..self }
    }

    /// What that takes.
    pub open spec fn overriding(self, stored: Stored) -> Seq<Effect> {
        moving_gps(self.gps, gps_wanted(stored)) + moving_radio(self.radio, radio_wanted(stored))
    }

    /// Whether a request is heard: a board parked for a deep sleep stays
    /// parked, so it hears only another park and a reset.
    pub open spec fn hears(self, r: Request) -> bool {
        !self.parked || r is PrepareSleep || r is Reboot
    }

    /// Where a park leaves the radio.
    pub open spec fn parking(self) -> Radio {
        if self.sentry {
            Radio::Sentry
        } else {
            Radio::Asleep
        }
    }

    /// What a park takes: the two that cost current first, then the panel. The
    /// receiver's park is re-issued where it should already be parked, and
    /// asked after first.
    pub open spec fn lowering(self) -> Seq<Effect> {
        (if self.gps is Parked {
            seq![Effect::CheckParkHeld]
        } else {
            seq![]
        }) + seq![Effect::GpsPark] + (if self.sentry {
            loading(self.config) + moving_radio(self.radio, Radio::Sentry)
        } else {
            seq![Effect::RadioSleep]
        }) + seq![Effect::PanelBlank, Effect::SleepReady]
    }

    /// The posture after a request.
    pub open spec fn moved(self, r: Request, stored: Stored) -> Posture {
        if !self.hears(r) {
            self
        } else {
            match r {
                Request::GpsSleep(park) => if self.live.raised() {
                    Posture { gps: if park { Gps::Parked } else { Gps::Awake }, ..self }
                } else {
                    self
                },
                Request::RadioStandby(park) => if self.live.raised() {
                    Posture { radio: if park { Radio::Standby } else { Radio::Up }, ..self }
                } else {
                    self
                },
                Request::Mode(m) => {
                    let p = Posture { live: m, config: Config::Read, ..self };
                    if m.raised() {
                        p.overridden(stored)
                    } else {
                        Posture { gps: Gps::Parked, radio: Radio::Asleep, ..p }
                    }
                },
                Request::ApplyConfig => Posture { config: Config::Read, ..self },
                Request::PrepareSleep => Posture {
                    gps: Gps::Parked,
                    radio: self.parking(),
                    config: if self.sentry {
                        Config::Read
                    } else {
                        self.config
                    },
                    parked: true,
                    ..self
                },
                Request::Reboot => self,
            }
        }
    }

    /// What the task has to do for a request, in order.
    pub open spec fn effects(self, r: Request, stored: Stored) -> Seq<Effect> {
        if !self.hears(r) {
            seq![]
        } else {
            match r {
                Request::GpsSleep(park) => if self.live.raised() {
                    moving_gps(self.gps, if park { Gps::Parked } else { Gps::Awake })
                } else {
                    seq![]
                },
                Request::RadioStandby(park) => if self.live.raised() {
                    moving_radio(self.radio, if park { Radio::Standby } else { Radio::Up })
                } else {
                    seq![]
                },
                // The config first: one that has not been read yet is the one
                // the radio is about to be initialized from.
                Request::Mode(m) => loading(self.config) + (if m.raised() {
                    self.overriding(stored)
                } else {
                    moving_gps(self.gps, Gps::Parked) + moving_radio(self.radio, Radio::Asleep)
                }),
                // The apply re-initializes the radio. A board that was not
                // using it gets it put straight back.
                Request::ApplyConfig => loading(self.config) + seq![Effect::ApplyConfig] + putting_back(self.radio),
                Request::PrepareSleep => self.lowering(),
                Request::Reboot => seq![Effect::Reboot],
            }
        }
    }

    /// Whether a frame may go out: both words allow it, the radio is up and
    /// nothing else has the board.
    pub open spec fn clear_to_send(self, role: Role, transfer_active: bool, sleep_pending: bool) -> bool {
        airing(self.live, role).transmits && self.radio is Up && !transfer_active && !sleep_pending
    }

    /// The rule every reachable posture satisfies: what is wrong with one
    /// that does not.
    pub open spec fn fault(self, stored: Stored) -> Option<&'static str> {
        let down = self.radio is Asleep && self.gps is Parked;
        if self.parked {
            if (self.radio is Asleep || (self.radio is Sentry && self.config is Read)) && self.gps is Parked {
                None
            } else {
                Some("parked for sleep with something still up")
            }
        } else if self.radio is Sentry {
            Some("a sentry outside a park")
        } else {
            match self.live {
                Mode::Stored => if down {
                    None
                } else {
                    Some("a wake check raised the receiver or the radio")
                },
                Mode::Idle => if !down {
                    Some("idle with the receiver or the radio up")
                } else if self.config is Unread {
                    Some("idle without the config read")
                } else {
                    None
                },
                _ => if self.config is Unread {
                    Some("tracking without the config read")
                } else if self.gps != gps_wanted(stored) {
                    Some("the receiver is not where the gps_sleep flag says")
                } else if self.radio != radio_wanted(stored) {
                    Some("the radio is not where the wio_sleep flag says")
                } else {
                    None
                },
            }
        }
    }

    /// What a boot into `boot` raises, and the effects that raise it.
    ///
    /// A wake check raises nothing and reads no config. Idle reads the config
    /// and parks the receiver a cold boot left acquiring. Tracking and
    /// listening raise everything, then honor the two overrides the settings
    /// carry.
    pub fn at_boot(boot: Mode, stored: &Stored) -> (r: (Self, Effects))
        ensures
            r.1.wf(),
            boot.raised() ==> r.0 == Posture::booted(boot).overridden(*stored),
            boot.raised() ==> r.1@ == Posture::booting(boot) + Posture::booted(boot).overriding(*stored),
            !boot.raised() ==> r.0 == Posture::booted(boot),
            !boot.raised() ==> r.1@ == Posture::booting(boot),
    {
        let mut fx: Effects = Effects::default();
        match boot {
            Mode::Stored => {
                fx.push(Effect::GpsAssumeParked);
                assert(fx@ =~= Posture::booting(boot));
                (
                    Self {
                        live: boot,
                        radio: Radio::Asleep,
                        gps: Gps::Parked,
                        config: Config::Unread,
                        parked: false,
                        sentry: true,
                    },
                    fx,
                )
            },
            Mode::Idle => {
                fx.push(Effect::LoadConfig);
                fx.push(Effect::GpsPark);
                fx.push(Effect::RadioSleep);
                assert(fx@ =~= Posture::booting(boot));
                (
                    Self {
                        live: boot,
                        radio: Radio::Asleep,
                        gps: Gps::Parked,
                        config: Config::Read,
                        parked: false,
                        sentry: true,
                    },
                    fx,
                )
            },
            _ => {
                fx.push(Effect::LoadConfig);
                fx.push(Effect::RadioInit);
                fx.push(Effect::GpsUp);
                assert(fx@ =~= Posture::booting(boot));
                let mut p: Posture = Self {
                    live: boot,
                    radio: Radio::Up,
                    gps: Gps::Awake,
                    config: Config::Read,
                    parked: false,
                    sentry: true,
                };
                p.apply_overrides(stored, &mut fx);
                (p, fx)
            },
        }
    }

    /// Move the receiver and the radio to where the two override flags say a
    /// tracking posture keeps them.
    fn apply_overrides(&mut self, stored: &Stored, fx: &mut Effects)
        requires
            old(fx).wf(),
            old(fx)@.len() <= 4,
        ensures
            *final(self) == old(self).overridden(*stored),
            final(fx).wf(),
            final(fx)@ == old(fx)@ + old(self).overriding(*stored),
    {
        let ghost before = fx@;
        let ghost was = *self;
        let want_gps: Gps = if stored.gps_sleep() { Gps::Parked } else { Gps::Awake };
        self.move_gps(want_gps, fx);
        let want_radio: Radio = if stored.radio_standby() { Radio::Standby } else { Radio::Up };
        self.move_radio(want_radio, fx);
        assert(fx@ =~= before + was.overriding(*stored));
    }

    /// What the config, once read, says a park does with the radio.
    pub fn set_sentry(&mut self, on: bool)
        ensures
            *final(self) == (Posture { sentry: on, ..*old(self) }),
    {
        self.sentry = on;
    }

    /// Read the stored config a wake check left unread.
    fn load(&mut self, fx: &mut Effects)
        requires
            old(fx).wf(),
            old(fx)@.len() < EFFECTS_MAX,
        ensures
            *final(self) == (Posture { config: Config::Read, ..*old(self) }),
            final(fx).wf(),
            final(fx)@ == old(fx)@ + loading(old(self).config),
    {
        let ghost before = fx@;
        let ghost was = self.config;
        if self.config == Config::Unread {
            fx.push(Effect::LoadConfig);
            self.config = Config::Read;
        }
        assert(fx@ =~= before + loading(was));
    }

    fn move_gps(&mut self, want: Gps, fx: &mut Effects)
        requires
            old(fx).wf(),
            old(fx)@.len() < EFFECTS_MAX,
        ensures
            *final(self) == (Posture { gps: want, ..*old(self) }),
            final(fx).wf(),
            final(fx)@ == old(fx)@ + moving_gps(old(self).gps, want),
    {
        let ghost before = fx@;
        let ghost was = self.gps;
        if self.gps != want {
            match want {
                Gps::Awake => {
                    fx.push(Effect::GpsUp);
                },
                Gps::Parked => {
                    fx.push(Effect::GpsPark);
                },
            }
            self.gps = want;
        }
        assert(fx@ =~= before + moving_gps(was, want));
    }

    fn move_radio(&mut self, want: Radio, fx: &mut Effects)
        requires
            old(fx).wf(),
            old(fx)@.len() + 1 < EFFECTS_MAX,
        ensures
            *final(self) == (Posture { radio: want, ..*old(self) }),
            final(fx).wf(),
            final(fx)@ == old(fx)@ + moving_radio(old(self).radio, want),
    {
        let ghost before = fx@;
        let ghost was = self.radio;
        if self.radio != want {
            match want {
                Radio::Up => {
                    fx.push(Effect::RadioInit);
                },
                Radio::Asleep => {
                    fx.push(Effect::RadioSleep);
                },
                Radio::Standby => {
                    if self.radio != Radio::Up {
                        fx.push(Effect::RadioInit);
                    }
                    fx.push(Effect::RadioStandby);
                },
                Radio::Sentry => {
                    if self.radio != Radio::Up && self.radio != Radio::Standby {
                        fx.push(Effect::RadioInit);
                    }
                    fx.push(Effect::RadioSentry);
                },
            }
            self.radio = want;
        }
        assert(fx@ =~= before + moving_radio(was, want));
    }

    /// Enter a mode.
    fn enter(&mut self, m: Mode, stored: &Stored, fx: &mut Effects)
        requires
            !old(self).parked,
            old(fx).wf(),
            old(fx)@.len() == 0,
        ensures
            *final(self) == old(self).moved(Request::Mode(m), *stored),
            final(fx).wf(),
            final(fx)@ == old(self).effects(Request::Mode(m), *stored),
    {
        let ghost was = *self;
        self.live = m;
        self.load(fx);
        if m.tracks() {
            self.apply_overrides(stored, fx);
        } else {
            self.move_gps(Gps::Parked, fx);
            self.move_radio(Radio::Asleep, fx);
        }
        assert(fx@ =~= was.effects(Request::Mode(m), *stored));
    }

    /// Adopt a pushed config.
    fn adopt(&mut self, fx: &mut Effects)
        requires
            old(fx).wf(),
            old(fx)@.len() == 0,
        ensures
            *final(self) == (Posture { config: Config::Read, ..*old(self) }),
            final(fx).wf(),
            final(fx)@ == loading(old(self).config) + seq![Effect::ApplyConfig] + putting_back(old(self).radio),
    {
        let ghost was = *self;
        self.load(fx);
        fx.push(Effect::ApplyConfig);
        match self.radio {
            Radio::Up => {},
            Radio::Standby => {
                fx.push(Effect::RadioStandby);
            },
            Radio::Asleep => {
                fx.push(Effect::RadioSleep);
            },
            Radio::Sentry => {
                fx.push(Effect::RadioSentry);
            },
        }
        assert(fx@ =~= loading(was.config) + seq![Effect::ApplyConfig] + putting_back(was.radio));
    }

    /// Park for a deep sleep.
    fn park(&mut self, fx: &mut Effects)
        requires
            old(fx).wf(),
            old(fx)@.len() == 0,
        ensures
            forall|stored: Stored| *final(self) == #[trigger] old(self).moved(Request::PrepareSleep, stored),
            final(fx).wf(),
            final(fx)@ == old(self).lowering(),
    {
        let ghost was = *self;
        if self.gps == Gps::Parked {
            fx.push(Effect::CheckParkHeld);
        }
        fx.push(Effect::GpsPark);
        self.gps = Gps::Parked;
        if self.sentry {
            self.load(fx);
            self.move_radio(Radio::Sentry, fx);
        } else {
            fx.push(Effect::RadioSleep);
            self.radio = Radio::Asleep;
        }
        fx.push(Effect::PanelBlank);
        fx.push(Effect::SleepReady);
        self.parked = true;
        assert(fx@ =~= was.lowering());
    }

    /// Apply one request and say what the task has to do for it.
    ///
    /// `stored` carries the two override flags, which decide where a mode
    /// that tracks leaves the receiver and the radio.
    pub fn on(&mut self, r: Request, stored: &Stored) -> (fx: Effects)
        ensures
            fx.wf(),
            *final(self) == old(self).moved(r, *stored),
            fx@ == old(self).effects(r, *stored),
    {
        let ghost was = *self;
        let mut fx: Effects = Effects::default();
        if self.parked && !matches!(r, Request::PrepareSleep | Request::Reboot) {
            return fx;
        }
        match r {
            Request::GpsSleep(park) => {
                if self.live.tracks() {
                    let want: Gps = if park { Gps::Parked } else { Gps::Awake };
                    self.move_gps(want, &mut fx);
                }
            },
            Request::RadioStandby(park) => {
                if self.live.tracks() {
                    let want: Radio = if park { Radio::Standby } else { Radio::Up };
                    self.move_radio(want, &mut fx);
                }
            },
            Request::Mode(m) => {
                self.enter(m, stored, &mut fx);
            },
            Request::ApplyConfig => {
                self.adopt(&mut fx);
            },
            Request::PrepareSleep => {
                self.park(&mut fx);
            },
            Request::Reboot => {
                fx.push(Effect::Reboot);
            },
        }
        assert(fx@ =~= was.effects(r, *stored));
        fx
    }

    /// Whether the radio is initialized: what makes the loop poll the
    /// receiver and plan a beacon.
    pub fn radio_up(&self) -> (r: bool)
        ensures
            r == (self.radio is Up),
    {
        self.radio == Radio::Up
    }

    /// Whether the receiver is awake: what makes the loop drain its sentences
    /// and push its settings.
    pub fn gps_awake(&self) -> (r: bool)
        ensures
            r == (self.gps is Awake),
    {
        self.gps == Gps::Awake
    }

    /// Whether anything is up that the loop has to service at its full rate.
    pub fn busy(&self) -> (r: bool)
        ensures
            r == (self.radio is Up || self.gps is Awake),
    {
        self.radio_up() || self.gps_awake()
    }

    /// Whether the node may put a frame on the air right now: the mode and
    /// the role both transmit ([`on_air`]), the radio is up, no transfer owns
    /// the board and no sleep is waiting to park it.
    pub fn may_transmit(&self, role: Role, transfer_active: bool, sleep_pending: bool) -> (r: bool)
        ensures
            r == self.clear_to_send(role, transfer_active, sleep_pending),
    {
        on_air(self.live, role).transmits && self.radio_up() && !transfer_active && !sleep_pending
    }

    /// The rule every reachable posture satisfies, against the override flags
    /// in `stored`. `Err` names the way it does not.
    ///
    /// A parked board has everything down whatever its mode, but for a sentry
    /// armed from a config that was read; a wake check and an idle board have
    /// the receiver and the radio down; a tracking board has each of them
    /// exactly where its override flag says, and its config read.
    pub fn consistent(&self, stored: &Stored) -> (r: Result<(), &'static str>)
        ensures
            r == (match self.fault(*stored) {
                None => Ok(()),
                Some(why) => Err(why),
            }),
    {
        let down: bool = self.radio == Radio::Asleep && self.gps == Gps::Parked;
        if self.parked {
            let radio_down: bool = match self.radio {
                Radio::Asleep => true,
                Radio::Sentry => self.config == Config::Read,
                Radio::Standby => false,
                Radio::Up => false,
            };
            return if radio_down && self.gps == Gps::Parked {
                Ok(())
            } else {
                Err("parked for sleep with something still up")
            };
        }
        if self.radio == Radio::Sentry {
            return Err("a sentry outside a park");
        }
        match self.live {
            Mode::Stored => {
                if down {
                    Ok(())
                } else {
                    Err("a wake check raised the receiver or the radio")
                }
            },
            Mode::Idle => {
                if !down {
                    Err("idle with the receiver or the radio up")
                } else if self.config != Config::Read {
                    Err("idle without the config read")
                } else {
                    Ok(())
                }
            },
            _ => {
                if self.config != Config::Read {
                    return Err("tracking without the config read");
                }
                let want_gps: Gps = if stored.gps_sleep() { Gps::Parked } else { Gps::Awake };
                if self.gps != want_gps {
                    return Err("the receiver is not where the gps_sleep flag says");
                }
                let want_radio: Radio = if stored.radio_standby() { Radio::Standby } else { Radio::Up };
                if self.radio != want_radio {
                    return Err("the radio is not where the wio_sleep flag says");
                }
                Ok(())
            },
        }
    }
}

/// The settings as the write behind a request left them: an override is
/// stored before the request for it is made.
pub open spec fn recorded(stored: Stored, r: Request) -> Stored {
    match r {
        Request::GpsSleep(on) => Stored {
            flags: session::with_flag(stored.flags, session::PFLAG_GPS_SLEEP, on),
            ..stored
        },
        Request::RadioStandby(on) => Stored {
            flags: session::with_flag(stored.flags, session::PFLAG_RADIO_STANDBY, on),
            ..stored
        },
        _ => stored,
    }
}

/// Every reachable posture satisfies the rule: a boot lands on one that does,
/// and every request - made after the write behind it was stored - takes one
/// that does to another.
pub proof fn law_every_posture_reached_is_consistent(p: Posture, stored: Stored, boot: Mode, r: Request)
    ensures
        boot.raised() ==> Posture::booted(boot).overridden(stored).fault(stored) is None,
        !boot.raised() ==> Posture::booted(boot).fault(stored) is None,
        p.fault(stored) is None ==> p.moved(r, recorded(stored, r)).fault(recorded(stored, r)) is None,
{
    match r {
        Request::GpsSleep(on) => session::law_the_overrides_are_independent(stored.flags, on),
        Request::RadioStandby(on) => session::law_the_overrides_are_independent(stored.flags, on),
        _ => {},
    }
}

/// A board parked for a sleep stays parked: nothing that arrives before the
/// chip goes raises anything, and only another park or a reset does anything
/// at all.
pub proof fn law_a_parked_board_stays_parked(p: Posture, stored: Stored, r: Request)
    requires
        p.parked,
    ensures
        p.moved(r, stored).parked,
        !(r is PrepareSleep) ==> p.moved(r, stored) == p,
        !(r is PrepareSleep) && !(r is Reboot) ==> p.effects(r, stored).len() == 0,
        !p.effects(r, stored).contains(Effect::GpsUp),
{
}

/// A park ends by saying so, lowers the receiver, and arms the radio only
/// where it was asked to and from a config that has been read.
pub proof fn law_a_park_lowers_everything(p: Posture, stored: Stored)
    ensures
        p.effects(Request::PrepareSleep, stored).last() is SleepReady,
        p.effects(Request::PrepareSleep, stored).contains(Effect::GpsPark),
        p.effects(Request::PrepareSleep, stored).contains(Effect::PanelBlank),
        p.effects(Request::PrepareSleep, stored).len() <= 7,
        p.moved(Request::PrepareSleep, stored).fault(stored) is None,
        p.moved(Request::PrepareSleep, stored).radio == p.parking(),
{
    let fx = p.effects(Request::PrepareSleep, stored);
    let n = fx.len();
    assert(fx[n - 2] == Effect::PanelBlank);
    assert(fx[if p.gps is Parked { 1int } else { 0int }] == Effect::GpsPark);
}

// -- On the air ------------------------------------------------------------------

/// What a node does on the air, given both the words that describe it.
///
/// The role is the network's word and travels with the fleet in the radio
/// config. The mode is the device's word and lives in its settings. Every
/// combination is answered here, once, so the beacon gate, the repeat gate and
/// the receiver all read the same table.
#[derive(Clone, Copy, Debug, PartialEq, Eq, Hash, Structural)]
pub struct OnAir {
    /// Beacons and pings go out.
    pub transmits: bool,
    /// The receiver is armed.
    pub receives: bool,
    /// Frames still carrying hops are forwarded.
    pub repeats: bool,
}

/// What a mode and a role come to on the air.
pub open spec fn airing(mode: Mode, role: Role) -> OnAir {
    OnAir {
        transmits: mode is Tracking && !(role is RxOnly),
        receives: mode.raised() && !(role is TxOnly),
        repeats: mode is Tracking && role is Repeater,
    }
}

/// The mode and the role, combined: each half of the air interface is used
/// only when both words allow it. A listening node is an `rx_only` node for as
/// long as it listens, whatever its role says; a stored or idle node does
/// nothing on the air at all.
pub fn on_air(mode: Mode, role: Role) -> (r: OnAir)
    ensures
        r == airing(mode, role),
{
    let raised: bool = mode.tracks();
    let transmits: bool = raised && mode.transmits() && role.transmits();
    OnAir { transmits, receives: raised && role.receives(), repeats: transmits && role.repeats() }
}

/// Each half of the air is used only when both words allow it, a repeat needs
/// the right to transmit and to receive, and a board that is not raised is
/// silent and deaf.
pub proof fn law_the_mode_and_the_role_are_anded(mode: Mode, role: Role)
    ensures
        airing(mode, role).repeats ==> airing(mode, role).transmits && airing(mode, role).receives,
        !mode.raised() ==> airing(mode, role) == (OnAir { transmits: false, receives: false, repeats: false }),
        airing(Mode::Listening, role) == airing(Mode::Tracking, role) || airing(Mode::Tracking, role).transmits,
        airing(Mode::Listening, Role::Leaf) == airing(Mode::Tracking, Role::RxOnly),
{
}

// -- What the effects come to ----------------------------------------------------

/// Where the hardware is once an effect has been carried out on it.
pub open spec fn carried(p: Posture, e: Effect) -> Posture {
    match e {
        Effect::LoadConfig => Posture { config: Config::Read, ..p },
        Effect::GpsUp => Posture { gps: Gps::Awake, ..p },
        Effect::GpsPark => Posture { gps: Gps::Parked, ..p },
        Effect::GpsAssumeParked => Posture { gps: Gps::Parked, ..p },
        Effect::RadioInit => Posture { radio: Radio::Up, ..p },
        Effect::RadioStandby => Posture { radio: Radio::Standby, ..p },
        Effect::RadioSleep => Posture { radio: Radio::Asleep, ..p },
        Effect::RadioSentry => Posture { radio: Radio::Sentry, ..p },
        Effect::ApplyConfig => Posture { config: Config::Read, radio: Radio::Up, ..p },
        Effect::SleepReady => Posture { parked: true, ..p },
        Effect::PanelBlank | Effect::CheckParkHeld | Effect::Reboot => p,
    }
}

/// Whether the hardware can carry an effect out where it is: an init takes a
/// config that has been read, and a radio is put in standby or armed only
/// while it is configured.
pub open spec fn able(p: Posture, e: Effect) -> bool {
    match e {
        Effect::RadioInit => p.config is Read,
        Effect::RadioStandby | Effect::RadioSentry => p.config is Read && (p.radio is Up || p.radio is Standby),
        _ => true,
    }
}

/// Where the hardware is once effects have been carried out in order.
pub open spec fn carried_all(p: Posture, fx: Seq<Effect>) -> Posture
    decreases fx.len(),
{
    if fx.len() == 0 {
        p
    } else {
        carried(carried_all(p, fx.drop_last()), fx.last())
    }
}

/// Whether each of them can be carried out when its turn comes.
pub open spec fn able_all(p: Posture, fx: Seq<Effect>) -> bool
    decreases fx.len(),
{
    fx.len() == 0 || (able_all(p, fx.drop_last()) && able(carried_all(p, fx.drop_last()), fx.last()))
}

proof fn lemma_carried_none(p: Posture)
    ensures
        carried_all(p, seq![]) == p,
        able_all(p, seq![]),
{
}

proof fn lemma_carried_push(p: Posture, fx: Seq<Effect>, e: Effect)
    ensures
        carried_all(p, fx.push(e)) == carried(carried_all(p, fx), e),
        able_all(p, fx.push(e)) == (able_all(p, fx) && able(carried_all(p, fx), e)),
{
    assert(fx.push(e).drop_last() =~= fx);
}

proof fn lemma_carried_join(p: Posture, a: Seq<Effect>, b: Seq<Effect>)
    ensures
        carried_all(p, a + b) == carried_all(carried_all(p, a), b),
        able_all(p, a + b) == (able_all(p, a) && able_all(carried_all(p, a), b)),
    decreases b.len(),
{
    if b.len() == 0 {
        assert(a + b =~= a);
    } else {
        lemma_carried_join(p, a, b.drop_last());
        assert(a + b =~= (a + b.drop_last()).push(b.last()));
        assert((a + b).drop_last() =~= a + b.drop_last());
    }
}

proof fn lemma_carried_one(p: Posture, e: Effect)
    ensures
        carried_all(p, seq![e]) == carried(p, e),
        able_all(p, seq![e]) == able(p, e),
{
    lemma_carried_none(p);
    lemma_carried_push(p, seq![], e);
    assert(seq![e] =~= Seq::<Effect>::empty().push(e));
}

proof fn lemma_carried_two(p: Posture, a: Effect, b: Effect)
    ensures
        carried_all(p, seq![a, b]) == carried(carried(p, a), b),
        able_all(p, seq![a, b]) == (able(p, a) && able(carried(p, a), b)),
{
    lemma_carried_one(p, a);
    lemma_carried_push(p, seq![a], b);
    assert(seq![a, b] =~= seq![a].push(b));
}

proof fn lemma_loading_loads(p: Posture)
    ensures
        carried_all(p, loading(p.config)) == (Posture { config: Config::Read, ..p }),
        able_all(p, loading(p.config)),
{
    lemma_carried_none(p);
    lemma_carried_one(p, Effect::LoadConfig);
}

proof fn lemma_moving_gps_moves(p: Posture, to: Gps)
    ensures
        carried_all(p, moving_gps(p.gps, to)) == (Posture { gps: to, ..p }),
        able_all(p, moving_gps(p.gps, to)),
{
    lemma_carried_none(p);
    lemma_carried_one(p, Effect::GpsUp);
    lemma_carried_one(p, Effect::GpsPark);
}

proof fn lemma_moving_radio_moves(p: Posture, to: Radio)
    ensures
        carried_all(p, moving_radio(p.radio, to)) == (Posture { radio: to, ..p }),
        p.config is Read ==> able_all(p, moving_radio(p.radio, to)),
{
    lemma_carried_none(p);
    lemma_carried_one(p, Effect::RadioInit);
    lemma_carried_one(p, Effect::RadioSleep);
    lemma_carried_one(p, Effect::RadioStandby);
    lemma_carried_one(p, Effect::RadioSentry);
    lemma_carried_two(p, Effect::RadioInit, Effect::RadioStandby);
    lemma_carried_two(p, Effect::RadioInit, Effect::RadioSentry);
}

/// Carrying out the effects of a request, in order, takes the hardware from
/// the posture before it to the posture after it; and on a board in order each
/// can be carried out when its turn comes.
pub proof fn law_the_effects_reach_the_posture(p: Posture, r: Request, stored: Stored, s: Stored)
    ensures
        ({
            let q = carried_all(p, p.effects(r, stored));
            let to = p.moved(r, stored);
            &&& q.gps == to.gps && q.radio == to.radio && q.config == to.config && q.parked == to.parked
        }),
        p.fault(s) is None ==> able_all(p, p.effects(r, stored)),
{
    lemma_carried_none(p);
    if p.hears(r) {
        match r {
            Request::GpsSleep(park) => {
                lemma_moving_gps_moves(p, if park { Gps::Parked } else { Gps::Awake });
            },
            Request::RadioStandby(park) => {
                lemma_moving_radio_moves(p, if park { Radio::Standby } else { Radio::Up });
            },
            Request::Mode(m) => {
                let gps = if m.raised() { gps_wanted(stored) } else { Gps::Parked };
                let radio = if m.raised() { radio_wanted(stored) } else { Radio::Asleep };
                let a = carried_all(p, loading(p.config));
                let b = carried_all(a, moving_gps(p.gps, gps));
                lemma_loading_loads(p);
                lemma_moving_gps_moves(a, gps);
                lemma_moving_radio_moves(b, radio);
                lemma_carried_join(a, moving_gps(p.gps, gps), moving_radio(p.radio, radio));
                lemma_carried_join(p, loading(p.config), moving_gps(p.gps, gps) + moving_radio(p.radio, radio));
            },
            Request::ApplyConfig => {
                let a = carried_all(p, loading(p.config));
                let b = carried(a, Effect::ApplyConfig);
                lemma_loading_loads(p);
                lemma_carried_one(a, Effect::ApplyConfig);
                lemma_carried_join(p, loading(p.config), seq![Effect::ApplyConfig]);
                lemma_carried_join(p, loading(p.config) + seq![Effect::ApplyConfig], putting_back(p.radio));
                lemma_carried_none(b);
                lemma_carried_one(b, Effect::RadioStandby);
                lemma_carried_one(b, Effect::RadioSleep);
                lemma_carried_one(b, Effect::RadioSentry);
            },
            Request::PrepareSleep => {
                lemma_lowering_lowers(p);
            },
            Request::Reboot => {
                lemma_carried_one(p, Effect::Reboot);
            },
        }
    }
}

proof fn lemma_lowering_lowers(p: Posture)
    ensures
        ({
            let q = carried_all(p, p.lowering());
            &&& q.gps is Parked && q.radio == p.parking() && q.parked
            &&& q.config == (if p.sentry {
                Config::Read
            } else {
                p.config
            })
        }),
        able_all(p, p.lowering()),
{
    let check: Seq<Effect> = if p.gps is Parked {
        seq![Effect::CheckParkHeld]
    } else {
        seq![]
    };
    let one = check + seq![Effect::GpsPark];
    let a = carried_all(p, one);
    lemma_carried_none(p);
    lemma_carried_one(p, Effect::CheckParkHeld);
    lemma_carried_one(p, Effect::GpsPark);
    lemma_carried_join(p, check, seq![Effect::GpsPark]);
    assert(a == Posture { gps: Gps::Parked, ..p });
    assert(able_all(p, one));
    let low: Seq<Effect> = if p.sentry {
        loading(p.config) + moving_radio(p.radio, Radio::Sentry)
    } else {
        seq![Effect::RadioSleep]
    };
    let b = carried_all(a, loading(p.config));
    lemma_loading_loads(a);
    lemma_moving_radio_moves(b, Radio::Sentry);
    lemma_carried_join(a, loading(p.config), moving_radio(p.radio, Radio::Sentry));
    lemma_carried_one(a, Effect::RadioSleep);
    lemma_carried_join(p, one, low);
    let c = carried_all(p, one + low);
    lemma_carried_two(c, Effect::PanelBlank, Effect::SleepReady);
    lemma_carried_join(p, one + low, seq![Effect::PanelBlank, Effect::SleepReady]);
}

/// Carrying out the effects of a boot takes the hardware, wherever the reset
/// left the receiver and the radio, to the posture of the mode booted into. A
/// wake check takes what the park before it left.
pub proof fn law_a_boot_reaches_its_posture(p: Posture, boot: Mode, stored: Stored)
    requires
        boot is Stored ==> p.radio is Asleep && p.config is Unread,
    ensures
        ({
            let fx = Posture::booting(boot);
            let raised = fx + Posture::booted(boot).overriding(stored);
            let q = carried_all(p, if boot.raised() { raised } else { fx });
            &&& q.config is Unread <==> boot is Stored
            &&& boot is Tracking || boot is Listening ==> q.gps == gps_wanted(stored) && q.radio == radio_wanted(stored)
            &&& boot is Stored || boot is Idle ==> q.gps is Parked && q.radio is Asleep
            &&& able_all(p, if boot.raised() { raised } else { fx })
            &&& Posture::booted(boot).live == boot && !Posture::booted(boot).parked && Posture::booted(boot).sentry
            &&& !boot.raised() ==> Posture::booted(boot).gps == q.gps && Posture::booted(boot).radio == q.radio
                && Posture::booted(boot).config == q.config
            &&& boot.raised() ==> Posture::booted(boot).overridden(stored).gps == q.gps && Posture::booted(boot).overridden(
                stored,
            ).radio == q.radio && Posture::booted(boot).overridden(stored).config == q.config
        }),
{
    let fx = Posture::booting(boot);
    match boot {
        Mode::Stored => {
            lemma_carried_one(p, Effect::GpsAssumeParked);
        },
        Mode::Idle => {
            lemma_carried_two(p, Effect::LoadConfig, Effect::GpsPark);
            let two = seq![Effect::LoadConfig, Effect::GpsPark];
            lemma_carried_push(p, two, Effect::RadioSleep);
            assert(fx =~= two.push(Effect::RadioSleep));
        },
        _ => {
            let two = seq![Effect::LoadConfig, Effect::RadioInit];
            lemma_carried_two(p, Effect::LoadConfig, Effect::RadioInit);
            lemma_carried_push(p, two, Effect::GpsUp);
            assert(fx =~= two.push(Effect::GpsUp));
            let a = carried_all(p, fx);
            let gps = gps_wanted(stored);
            let radio = radio_wanted(stored);
            let b = carried_all(a, moving_gps(a.gps, gps));
            lemma_moving_gps_moves(a, gps);
            lemma_moving_radio_moves(b, radio);
            lemma_carried_join(a, moving_gps(a.gps, gps), moving_radio(a.radio, radio));
            lemma_carried_join(p, fx, Posture::booted(boot).overriding(stored));
        },
    }
}

/// An override moves the one subsystem it names, inside a posture that is
/// tracking or listening and not parked, and nothing anywhere else.
pub proof fn law_an_override_moves_one_subsystem(p: Posture, stored: Stored, on: bool)
    ensures
        ({
            let up = !p.parked && (p.live is Tracking || p.live is Listening);
            let g = p.moved(Request::GpsSleep(on), stored);
            let r = p.moved(Request::RadioStandby(on), stored);
            &&& g == (Posture { gps: g.gps, ..p })
            &&& r == (Posture { radio: r.radio, ..p })
            &&& up ==> (g.gps is Parked <==> on) && (r.radio is Standby <==> on) && (r.radio is Up <==> !on)
            &&& !up ==> g == p && r == p && p.effects(Request::GpsSleep(on), stored).len() == 0 && p.effects(
                Request::RadioStandby(on),
                stored,
            ).len() == 0
        }),
{
}

/// A mode decides what is up: tracking and listening raise the receiver and
/// the radio but for what the overrides keep down, the others lower both, and
/// the config has been read either way.
pub proof fn law_a_mode_decides_what_is_up(p: Posture, stored: Stored, m: Mode)
    requires
        !p.parked,
    ensures
        ({
            let q = p.moved(Request::Mode(m), stored);
            let up = m is Tracking || m is Listening;
            &&& q.live == m && q.config is Read && !q.parked && q.sentry == p.sentry
            &&& q.gps is Awake <==> up && !stored.backed_up()
            &&& q.radio is Up <==> up && !stored.standing_by()
            &&& q.radio is Standby <==> up && stored.standing_by()
            &&& q.radio is Asleep <==> !up
        }),
{
}

/// A config pushed leaves the board where it was, a reboot moves nothing
/// before it comes, and a park leaves a sentry where one is wanted and a radio
/// asleep where not.
pub proof fn law_what_the_other_requests_move(p: Posture, stored: Stored)
    ensures
        p.moved(Request::ApplyConfig, stored) == (Posture {
            config: p.moved(Request::ApplyConfig, stored).config,
            ..p
        }),
        !p.parked ==> p.moved(Request::ApplyConfig, stored).config is Read && p.effects(
            Request::ApplyConfig,
            stored,
        ).contains(Effect::ApplyConfig),
        p.moved(Request::Reboot, stored) == p,
        p.effects(Request::Reboot, stored) == seq![Effect::Reboot],
        ({
            let q = p.moved(Request::PrepareSleep, stored);
            &&& q.parked && q.gps is Parked && q.live == p.live && q.sentry == p.sentry
            &&& q.radio is Sentry <==> p.sentry
            &&& q.radio is Asleep <==> !p.sentry
            &&& p.sentry ==> q.config is Read
            &&& !p.sentry ==> q.config == p.config
            &&& p.effects(Request::PrepareSleep, stored).contains(Effect::CheckParkHeld) <==> p.gps is Parked
        }),
{
    if !p.parked {
        let fx = p.effects(Request::ApplyConfig, stored);
        assert(fx[if p.config is Unread { 1int } else { 0int }] == Effect::ApplyConfig);
    }
    let fx = p.effects(Request::PrepareSleep, stored);
    if p.gps is Parked {
        assert(fx[0] == Effect::CheckParkHeld);
    }
}

/// What a posture that breaks the rule is, and what one that keeps it is.
pub proof fn law_what_a_posture_may_be(p: Posture, stored: Stored)
    ensures
        p.parked ==> (p.fault(stored) is None <==> p.gps is Parked && (p.radio is Asleep || (p.radio is Sentry && p.config
            is Read))),
        !p.parked && p.live is Stored ==> (p.fault(stored) is None <==> p.gps is Parked && p.radio is Asleep),
        !p.parked && p.live is Idle ==> (p.fault(stored) is None <==> p.gps is Parked && p.radio is Asleep && p.config
            is Read),
        !p.parked && (p.live is Tracking || p.live is Listening) ==> (p.fault(stored) is None <==> p.config is Read && (
        p.gps is Parked <==> stored.backed_up()) && (p.radio is Standby <==> stored.standing_by()) && (p.radio is Up
            <==> !stored.standing_by())),
{
}

/// A mode is carried out before anything else, an override before a config, a
/// park only once nothing is left that raises, and a reboot last of all.
/// Taking one takes no other.
pub proof fn law_what_is_carried_out_first(w: Waiting, other: Request)
    ensures
        w.mode matches Some(m) ==> w.first() == Some(Request::Mode(m)),
        w.first() matches Some(Request::ApplyConfig) ==> w.mode is None && w.gps_sleep is None && w.radio_standby is None,
        w.first() matches Some(Request::RadioStandby(_)) ==> w.mode is None && w.gps_sleep is None,
        w.first() matches Some(Request::PrepareSleep) ==> w.mode is None && w.gps_sleep is None && w.radio_standby is None
            && !w.apply_config,
        w.first() matches Some(Request::Reboot) ==> w.rest() == none_waiting(),
        w.first() is None <==> w == none_waiting(),
        w.rest().holds(other) <==> w.holds(other) && w.first() != Some(other),
        !none_waiting().holds(other),
{
}

/// What a node does on the air: a leaf beacons and listens, a repeater also
/// repeats, and the two one-way roles do half of it. Listening only takes the
/// sending away, and a board that is not raised does nothing.
pub proof fn law_what_goes_on_air(role: Role, mode: Mode)
    ensures
        airing(Mode::Tracking, Role::Leaf) == (OnAir { transmits: true, receives: true, repeats: false }),
        airing(Mode::Tracking, Role::Repeater) == (OnAir { transmits: true, receives: true, repeats: true }),
        airing(Mode::Tracking, Role::TxOnly) == (OnAir { transmits: true, receives: false, repeats: false }),
        airing(Mode::Tracking, Role::RxOnly) == (OnAir { transmits: false, receives: true, repeats: false }),
        airing(Mode::Listening, role) == (OnAir {
            transmits: false,
            receives: airing(Mode::Tracking, role).receives,
            repeats: false,
        }),
        mode is Stored || mode is Idle ==> airing(mode, role) == (OnAir {
            transmits: false,
            receives: false,
            repeats: false,
        }),
{
}

/// A frame goes out only while tracking, with the radio up and the board its
/// own; and where all of that holds, it does.
pub proof fn law_when_a_frame_may_go_out(p: Posture, role: Role, transfer_active: bool, sleep_pending: bool)
    ensures
        transfer_active || sleep_pending ==> !p.clear_to_send(role, transfer_active, sleep_pending),
        !(p.radio is Up) || !(p.live is Tracking) || role is RxOnly ==> !p.clear_to_send(
            role,
            transfer_active,
            sleep_pending,
        ),
        p.radio is Up && p.live is Tracking && !(role is RxOnly) ==> p.clear_to_send(role, false, false),
{
}

/// What is said of a posture that breaks the rule: the first of the things that
/// are wrong with it.
pub proof fn law_what_is_said_of_a_fault(p: Posture, stored: Stored)
    requires
        p.fault(stored) is Some,
    ensures
        ({
            let why = p.fault(stored)->0@;
            let up = p.live is Tracking || p.live is Listening;
            &&& p.parked ==> why == "parked for sleep with something still up"@
            &&& !p.parked && p.radio is Sentry ==> why == "a sentry outside a park"@
            &&& !p.parked && !(p.radio is Sentry) ==> {
                &&& p.live is Stored ==> why == "a wake check raised the receiver or the radio"@
                &&& p.live is Idle && !(p.radio is Asleep && p.gps is Parked) ==> why
                    == "idle with the receiver or the radio up"@
                &&& p.live is Idle && p.radio is Asleep && p.gps is Parked ==> why == "idle without the config read"@
                &&& up && p.config is Unread ==> why == "tracking without the config read"@
                &&& up && p.config is Read && (p.gps is Parked <==> !stored.backed_up()) ==> why
                    == "the receiver is not where the gps_sleep flag says"@
                &&& up && p.config is Read && (p.gps is Parked <==> stored.backed_up()) ==> why
                    == "the radio is not where the wio_sleep flag says"@
            }
        }),
{
}

} // verus!
