//! The policy for a radio that listens while the chip that owns it sleeps.
//!
//! The SX1262's `SetRxDutyCycle` is the only thing on the part that runs
//! without a host: the chip listens for `rxPeriod`, sleeps with its context
//! retained for `sleepPeriod`, and repeats until a packet completes, at which
//! point it raises `RxDone` on DIO1 and stops. The S3 registers that pin as
//! its wake source and goes to deep sleep. A *sentry* is that arrangement,
//! and this module is everything about it that can be decided on a host: what
//! the two periods have to be, how long a wake frame's preamble must run to
//! be caught by them, what a waker's burst looks like, and when a
//! configuration cannot be armed at all.
//!
//! # The two bounds
//!
//! An empty window closes when `rxPeriod` expires; on preamble detection the
//! chip restarts that timer at `2 * rxPeriod + sleepPeriod` and holds the
//! receiver open for the header and the packet behind it. So the preamble a
//! wake frame is sent with is bounded on both sides:
//!
//! ```text
//! sleep + tcxo + 2 * detect  <=  Tpreamble  <=  2 * rx + sleep - Theader
//! ```
//!
//! Below the lower bound a preamble can fall entirely inside the gap between
//! two windows, or overlap one by less than the detector needs. Above the
//! upper bound the restarted timer expires before the header arrives, and the
//! frame is abandoned with the receiver awake. Subtracting them, the sleep
//! cancels:
//!
//! ```text
//! margin = 2 * rx - tcxo - Theader - 2 * detect
//! ```
//!
//! **The receive window buys margin; the sleep period buys current.** They
//! are independent, which is what makes the two config keys two keys. The
//! margin is what absorbs the drift of the chip's RC64k over a sleep: the
//! preamble is sent for the middle of the window, so half the margin is the
//! drift tolerated in either direction.

use vstd::prelude::*;
use crate::lora;
use crate::time;
use crate::radiocfg::RadioConfig;

verus! {

/// One step of the chip's duty-cycle timers, nanoseconds: 1/64 kHz.
pub const DUTY_STEP_NS: u32 = 15_625;

/// Largest value either duty-cycle period field holds.
pub const DUTY_STEPS_MAX: u32 = 0x00FF_FFFF;

/// Longest preamble the packet parameters can name, in symbols.
pub const PREAMBLE_SYMBOLS_MAX: u32 = 65_535;

/// Symbols the modem needs inside a window to detect a preamble.
///
/// The bounds spend it twice on the lower side - once for the detector and
/// once because the worst-case preamble starts just too late for the previous
/// window - and not at all on the upper, where it would only loosen a bound
/// that is measured to bite.
pub const DETECT_SYMBOLS: u32 = 4;

/// Symbols the LoRa explicit header occupies, which the chip must also
/// receive inside its restarted timer once it has heard a preamble.
pub const HEADER_SYMBOLS: u32 = 8;

/// Longest a frequency hopping system may hold one channel, microseconds. A
/// wake transmission on a hopping plan has to fit this or is refused.
pub const FHSS_DWELL_MAX_US: u32 = 400_000;

/// Frames a waker sends before giving up.
pub const WAKE_TRIES: u8 = 3;

/// How long a waker listens for an answer after each frame, ms.
///
/// The target's boot, plus the wait for its turn in a slot, plus the answer's
/// own air time.
pub const WAKE_GAP_MS: u32 = 4_000;

/// A word that stops at its largest value.
pub open spec fn capped(v: int) -> int {
    time::least(v, u32::MAX as int)
}

/// Duty-cycle steps a period takes: to the nearest step, and no more than the
/// field holds.
pub open spec fn steps_of(us: int) -> int {
    time::least((us * 1_000 + 7_812) / 15_625, DUTY_STEPS_MAX as int)
}

/// Microseconds to duty-cycle steps, rounded to nearest, saturating.
pub fn duty_steps_from_us(us: u32) -> (r: u32)
    ensures
        r == steps_of(us as int),
{
    let ns: u64 = us as u64 * 1_000;
    let steps: u64 = (ns + DUTY_STEP_NS as u64 / 2) / DUTY_STEP_NS as u64;
    if steps < DUTY_STEPS_MAX as u64 {
        steps as u32
    } else {
        DUTY_STEPS_MAX
    }
}

/// Duty-cycle steps in microseconds, the low 32 bits of them.
pub open spec fn us_of(steps: u32) -> int {
    steps * 15_625 / 1_000 % 0x1_0000_0000
}

/// Duty-cycle steps to microseconds, the low 32 bits of them.
pub fn duty_us_from_steps(steps: u32) -> (r: u32)
    ensures
        r == us_of(steps),
{
    assert(steps * DUTY_STEP_NS == steps * 15_625);
    let us: u64 = (steps as u64 * DUTY_STEP_NS as u64) / 1_000;
    (us % 0x1_0000_0000) as u32
}

/// A period that came from the chip's timer goes back to it as the same
/// number of steps.
pub proof fn law_steps_survive_the_trip(steps: int)
    requires
        0 <= steps <= DUTY_STEPS_MAX,
    ensures
        steps * 15_625 / 1_000 <= u32::MAX,
        steps_of(steps * 15_625 / 1_000) == steps,
{
    let us = steps * 15_625 / 1_000;
    assert(steps * 15_625 - 1_000 < us * 1_000 <= steps * 15_625);
}

/// A sentry's two periods and the arithmetic that sizes a wake around them.
#[derive(Clone, Copy, Debug, PartialEq, Eq, Hash, Structural)]
pub struct Sentry {
    /// Receive window, microseconds: how long an empty window listens.
    pub rx_us: u32,
    /// Sleep between windows, microseconds.
    pub sleep_us: u32,
    /// Oscillator startup, microseconds. Added between the sleep and the
    /// receive phases, so it lengthens the cycle and the deaf gap alike.
    pub tcxo_us: u32,
    /// One LoRa symbol at the modulation the sentry listens on.
    pub t_sym_us: u32,
}

/// One symbol of `cfg`'s modulation, no less than a microsecond.
pub open spec fn symbol_of(cfg: RadioConfig) -> int {
    if cfg.symbol_us() < 1 {
        1
    } else {
        cfg.symbol_us()
    }
}

/// A sentry for `cfg`'s modulation with the given periods.
pub open spec fn posted(cfg: RadioConfig, rx_us: u32, sleep_us: u32) -> Sentry {
    Sentry { rx_us, sleep_us, tcxo_us: (cfg.tcxo_startup_ms * 1_000) as u32, t_sym_us: symbol_of(cfg) as u32 }
}

/// The sentry `cfg` asks for, from its two wake keys.
pub open spec fn asked(cfg: RadioConfig) -> Sentry {
    posted(cfg, (cfg.wake_rx_ms * 1_000) as u32, (cfg.wake_sleep_ms * 1_000) as u32)
}

fn symbol_us(cfg: &RadioConfig) -> (r: u32)
    requires
        cfg.bandwidth_khz > 0,
    ensures
        r == symbol_of(*cfg),
        1 <= r <= 4_096_000,
{
    let t: u32 = cfg.symbol_time_us();
    if t < 1 {
        1
    } else {
        t
    }
}

impl Sentry {
    /// Symbols short enough that the header's time is a word.
    pub open spec fn symbols_fit(self) -> bool {
        HEADER_SYMBOLS * self.t_sym_us <= u32::MAX
    }

    /// One full cycle.
    pub open spec fn cycle(self) -> int {
        capped(self.rx_us + self.sleep_us + self.tcxo_us)
    }

    /// How long the receiver is held open after a detection.
    pub open spec fn hold(self) -> int {
        capped(2 * self.rx_us + self.sleep_us)
    }

    /// Shortest preamble every cycle samples with room to detect.
    pub open spec fn shortest(self) -> int {
        capped(self.sleep_us + self.tcxo_us + 2 * DETECT_SYMBOLS * self.t_sym_us)
    }

    /// Longest preamble whose header still lands inside the hold.
    pub open spec fn longest(self) -> int {
        let room = self.hold() - HEADER_SYMBOLS * self.t_sym_us;
        if room < 0 {
            0
        } else {
            room
        }
    }

    /// Whether any preamble satisfies both bounds.
    pub open spec fn fits(self) -> bool {
        self.shortest() <= self.longest()
    }

    /// The room between the bounds.
    pub open spec fn margin(self) -> int {
        if self.fits() {
            self.longest() - self.shortest()
        } else {
            0
        }
    }

    /// Whole symbols up to the middle of the window.
    pub open spec fn middle(self) -> int {
        (self.shortest() + self.margin() / 2) / (self.t_sym_us as int)
    }

    /// The preamble to transmit with, in symbols: the middle of the window,
    /// rounded down, or up where only that is inside both bounds.
    pub open spec fn symbols(self) -> Option<int> {
        let n = self.middle();
        if !self.fits() {
            None
        } else if n * self.t_sym_us < self.shortest() && (n + 1) * self.t_sym_us <= self.longest() {
            Some(n + 1)
        } else {
            Some(n)
        }
    }

    /// How far the oscillator may drift over a sleep, parts per million.
    pub open spec fn drift_ppm(self) -> int {
        if self.sleep_us == 0 {
            0
        } else {
            self.margin() / 2 * 1_000_000 / (self.sleep_us as int) % 0x1_0000_0000
        }
    }

    /// Thousandths of a cycle spent listening.
    pub open spec fn permille(self) -> int {
        if self.cycle() == 0 {
            0
        } else {
            self.rx_us * 1_000 / self.cycle()
        }
    }

    /// A sentry for `cfg`'s modulation with the given periods.
    pub fn new(cfg: &RadioConfig, rx_us: u32, sleep_us: u32) -> (r: Self)
        requires
            cfg.bandwidth_khz > 0,
        ensures
            r == posted(*cfg, rx_us, sleep_us),
            1 <= r.t_sym_us <= 4_096_000,
    {
        Self { rx_us, sleep_us, tcxo_us: cfg.tcxo_startup_ms as u32 * 1_000, t_sym_us: symbol_us(cfg) }
    }

    /// The sentry `cfg` asks for, from its two wake keys.
    pub fn from_config(cfg: &RadioConfig) -> (r: Self)
        requires
            cfg.bandwidth_khz > 0,
        ensures
            r == asked(*cfg),
            1 <= r.t_sym_us <= 4_096_000,
    {
        Self::new(cfg, cfg.wake_rx_ms as u32 * 1_000, cfg.wake_sleep_ms as u32 * 1_000)
    }

    fn detect_us(&self) -> (r: u32)
        requires
            DETECT_SYMBOLS * self.t_sym_us <= u32::MAX,
        ensures
            r == DETECT_SYMBOLS * self.t_sym_us,
    {
        DETECT_SYMBOLS * self.t_sym_us
    }

    fn header_us(&self) -> (r: u32)
        requires
            self.symbols_fit(),
        ensures
            r == HEADER_SYMBOLS * self.t_sym_us,
    {
        HEADER_SYMBOLS * self.t_sym_us
    }

    /// One full cycle: window, sleep, and the oscillator restart between.
    pub fn cycle_us(&self) -> (r: u32)
        ensures
            r == self.cycle(),
    {
        self.rx_us.saturating_add(self.sleep_us).saturating_add(self.tcxo_us)
    }

    /// How long the chip holds the receiver open once it has detected a
    /// preamble: the restarted timer.
    pub fn hold_us(&self) -> (r: u32)
        ensures
            r == self.hold(),
    {
        self.rx_us.saturating_add(self.rx_us).saturating_add(self.sleep_us)
    }

    /// Shortest preamble every cycle samples with room to detect.
    pub fn preamble_min_us(&self) -> (r: u32)
        requires
            DETECT_SYMBOLS * self.t_sym_us <= u32::MAX,
        ensures
            r == self.shortest(),
    {
        let detect: u32 = self.detect_us();
        assert(2 * DETECT_SYMBOLS == 8);
        assert(2 * DETECT_SYMBOLS * self.t_sym_us == 8 * self.t_sym_us);
        self.sleep_us.saturating_add(self.tcxo_us).saturating_add(detect.saturating_add(detect))
    }

    /// Longest preamble whose header still lands inside the hold.
    pub fn preamble_max_us(&self) -> (r: u32)
        requires
            self.symbols_fit(),
        ensures
            r == self.longest(),
    {
        self.hold_us().saturating_sub(self.header_us())
    }

    /// Whether any preamble satisfies both bounds.
    pub fn feasible(&self) -> (r: bool)
        requires
            self.symbols_fit(),
        ensures
            r == self.fits(),
    {
        self.preamble_min_us() <= self.preamble_max_us()
    }

    /// The room between the bounds, microseconds: what the drift of two
    /// free-running timebases has to stay inside.
    pub fn margin_us(&self) -> (r: u32)
        requires
            self.symbols_fit(),
        ensures
            r == self.margin(),
    {
        self.preamble_max_us().saturating_sub(self.preamble_min_us())
    }

    /// The preamble to transmit with, in symbols: the middle of the window,
    /// so the drift has half the margin on either side. Rounded down to a
    /// whole symbol, unless that falls under the shortest and the next one up
    /// is not past the longest.
    pub fn preamble_symbols(&self) -> (r: Option<u32>)
        requires
            self.symbols_fit(),
            self.fits() ==> self.t_sym_us > 0,
        ensures
            r is Some <==> self.fits(),
            r matches Some(n) ==> self.symbols() == Some(n as int),
    {
        if !self.feasible() {
            return None;
        }
        let min: u32 = self.preamble_min_us();
        let max: u32 = self.preamble_max_us();
        let mid: u32 = min + self.margin_us() / 2;
        let n: u32 = mid / self.t_sym_us;
        proof {
            let t: int = self.t_sym_us as int;
            let k: int = n as int;
            assert(0 <= k <= mid && 0 <= k * t <= mid && (k + 1) * t == k * t + t) by (nonlinear_arith)
                requires
                    t > 0,
                    mid >= 0,
                    k == mid as int / t,
            ;
        }
        let under: u64 = n as u64 * self.t_sym_us as u64;
        if under < min as u64 && under + self.t_sym_us as u64 <= max as u64 {
            assert(n < u32::MAX) by {
                let t: int = self.t_sym_us as int;
                let k: int = n as int;
                assert(k <= k * t) by (nonlinear_arith)
                    requires
                        k >= 0,
                        t >= 1,
                ;
            }
            Some(n + 1)
        } else {
            Some(n)
        }
    }

    /// The drift, in parts per million of the sleep, that the margin
    /// tolerates in either direction; the low 32 bits of it.
    pub fn drift_tolerance_ppm(&self) -> (r: u32)
        requires
            self.sleep_us > 0 ==> self.symbols_fit(),
        ensures
            r == self.drift_ppm(),
    {
        if self.sleep_us == 0 {
            return 0;
        }
        let ppm: u64 = (self.margin_us() / 2) as u64 * 1_000_000 / self.sleep_us as u64;
        (ppm % 0x1_0000_0000) as u32
    }

    /// Share of each cycle the receiver is powered, in parts per thousand.
    pub fn duty_permille(&self) -> (r: u32)
        ensures
            r == self.permille(),
            r <= 1_000,
    {
        let cycle: u32 = self.cycle_us();
        if cycle == 0 {
            return 0;
        }
        proof {
            let c: int = cycle as int;
            let rx: int = self.rx_us as int;
            assert(0 <= rx * 1_000 / c <= 1_000) by (nonlinear_arith)
                requires
                    0 <= rx <= c,
                    c > 0,
            ;
        }
        (self.rx_us as u64 * 1_000 / cycle as u64) as u32
    }

    /// Time on air of a wake transmission carrying `payload_len` bytes.
    pub fn wake_airtime_us(&self, cfg: &RadioConfig, payload_len: usize) -> (r: Option<u32>)
        requires
            self.symbols_fit(),
            self.fits() ==> self.t_sym_us > 0,
            self.symbols() matches Some(n) ==> cfg.airtime_fits(payload_len as int, n),
        ensures
            r is Some <==> self.fits(),
            r matches Some(us) ==> us == cfg.airtime_us(payload_len as int, self.symbols()->0),
    {
        match self.preamble_symbols() {
            Some(syms) => Some(cfg.time_on_air_preamble_us(payload_len, syms)),
            None => None,
        }
    }

    /// The register value for the receive half.
    pub fn rx_steps(&self) -> (r: u32)
        ensures
            r == steps_of(self.rx_us as int),
    {
        duty_steps_from_us(self.rx_us)
    }

    /// The register value for the sleep half.
    pub fn sleep_steps(&self) -> (r: u32)
        ensures
            r == steps_of(self.sleep_us as int),
    {
        duty_steps_from_us(self.sleep_us)
    }
}

/// Why a sentry cannot be armed as asked.
#[derive(Clone, Copy, Debug, PartialEq, Eq, Structural)]
pub enum Refusal {
    /// The config does not ask for one.
    Disabled,
    /// No preamble satisfies both bounds: the receive window is too short to
    /// cover the oscillator restart, the detector and the header between
    /// them. Lengthen `wake_rx_ms`; the sleep moves both bounds together.
    NoPreambleFits,
    /// The preamble the bounds allow does not fit the 16-bit field.
    PreambleTooLong,
    /// Either half-period overflows the chip's 24-bit timer.
    PeriodTooLong,
    /// The node is hopping and the wake transmission would hold one carrier
    /// past what a frequency hopping system may.
    DwellExceeded,
}

impl Refusal {
    /// The sentence for a refusal.
    pub open spec fn sentence(self) -> Seq<char> {
        match self {
            Refusal::Disabled => "wake_enabled is off"@,
            Refusal::NoPreambleFits => "no preamble fits - lengthen wake_rx_ms"@,
            Refusal::PreambleTooLong => "the preamble does not fit the packet parameters"@,
            Refusal::PeriodTooLong => "a period overflows the chip's timer"@,
            Refusal::DwellExceeded => "hopping - a wake frame would hold one channel too long"@,
        }
    }

    /// What to tell somebody who asked for it.
    pub fn as_str(self) -> (r: &'static str)
        ensures
            r@ == self.sentence(),
    {
        match self {
            Refusal::Disabled => "wake_enabled is off",
            Refusal::NoPreambleFits => "no preamble fits - lengthen wake_rx_ms",
            Refusal::PreambleTooLong => "the preamble does not fit the packet parameters",
            Refusal::PeriodTooLong => "a period overflows the chip's timer",
            Refusal::DwellExceeded => "hopping - a wake frame would hold one channel too long",
        }
    }
}

/// A sentry the chip's timer can run: asked for, and both periods inside it.
pub open spec fn timeable(cfg: RadioConfig, s: Sentry) -> bool {
    &&& cfg.wake_enabled
    &&& steps_of(s.rx_us as int) < DUTY_STEPS_MAX
    &&& steps_of(s.sleep_us as int) < DUTY_STEPS_MAX
}

/// A sentry the chip's registers can express: one the timer can run, with a
/// preamble that fits the field.
pub open spec fn expressible(cfg: RadioConfig, s: Sentry) -> bool {
    &&& timeable(cfg, s)
    &&& s.fits()
    &&& s.symbols()->0 <= PREAMBLE_SYMBOLS_MAX
}

/// What keeps a sentry from being armed, or nothing.
pub open spec fn verdict(cfg: RadioConfig, s: Sentry, payload_len: int) -> Result<(), Refusal> {
    if !cfg.wake_enabled {
        Err(Refusal::Disabled)
    } else if steps_of(s.rx_us as int) >= DUTY_STEPS_MAX || steps_of(s.sleep_us as int) >= DUTY_STEPS_MAX {
        Err(Refusal::PeriodTooLong)
    } else if !s.fits() {
        Err(Refusal::NoPreambleFits)
    } else if s.symbols()->0 > PREAMBLE_SYMBOLS_MAX {
        Err(Refusal::PreambleTooLong)
    } else if cfg.hop_channels > 1 && cfg.airtime_us(payload_len, s.symbols()->0) > FHSS_DWELL_MAX_US {
        Err(Refusal::DwellExceeded)
    } else {
        Ok(())
    }
}

/// The sentry a config asks for, or what keeps it from being armed.
pub open spec fn planned(cfg: RadioConfig, payload_len: int) -> Result<Sentry, Refusal> {
    match verdict(cfg, asked(cfg), payload_len) {
        Ok(_) => Ok(asked(cfg)),
        Err(e) => Err(e),
    }
}

/// Whether `sentry` can be armed on a node running `cfg`, for a wake
/// transmission carrying `payload_len` bytes.
pub fn check(cfg: &RadioConfig, sentry: &Sentry, payload_len: usize) -> (r: Result<(), Refusal>)
    requires
        timeable(*cfg, *sentry) ==> sentry.symbols_fit() && (sentry.fits() ==> sentry.t_sym_us > 0),
        expressible(*cfg, *sentry) ==> cfg.airtime_fits(payload_len as int, sentry.symbols()->0),
    ensures
        r == verdict(*cfg, *sentry, payload_len as int),
{
    if !cfg.wake_enabled {
        return Err(Refusal::Disabled);
    }
    if duty_steps_from_us(sentry.rx_us) >= DUTY_STEPS_MAX || duty_steps_from_us(sentry.sleep_us) >= DUTY_STEPS_MAX {
        return Err(Refusal::PeriodTooLong);
    }
    let syms: u32 = match sentry.preamble_symbols() {
        Some(syms) => syms,
        None => {
            return Err(Refusal::NoPreambleFits);
        },
    };
    if syms > PREAMBLE_SYMBOLS_MAX {
        return Err(Refusal::PreambleTooLong);
    }
    let airtime: u32 = match sentry.wake_airtime_us(cfg, payload_len) {
        Some(us) => us,
        None => u32::MAX,
    };
    if cfg.hop_channels > 1 && airtime > FHSS_DWELL_MAX_US {
        return Err(Refusal::DwellExceeded);
    }
    Ok(())
}

/// The sentry `cfg` asks for, checked. What both the sleeping board and the
/// waker compute, from the same config, so the preamble one sends is the one
/// the other listens for.
pub fn plan(cfg: &RadioConfig, payload_len: usize) -> (r: Result<Sentry, Refusal>)
    requires
        cfg.bandwidth_khz > 0,
        expressible(*cfg, asked(*cfg)) ==> cfg.airtime_fits(payload_len as int, asked(*cfg).symbols()->0),
    ensures
        r == planned(*cfg, payload_len as int),
{
    let s: Sentry = Sentry::from_config(cfg);
    match check(cfg, &s, payload_len) {
        Ok(_) => Ok(s),
        Err(e) => Err(e),
    }
}

/// Shortest window that admits a preamble, for `cfg`'s modulation: half of
/// what the oscillator restart, two detections and the header cost together.
pub open spec fn floor(cfg: RadioConfig) -> int {
    (cfg.tcxo_startup_ms * 1_000 + 2 * DETECT_SYMBOLS * symbol_of(cfg) + HEADER_SYMBOLS * symbol_of(cfg) + 1) / 2
}

/// Shortest receive window that admits any preamble at all, microseconds.
///
/// Half of what the oscillator restart, two detections and the header cost
/// together. Below this a sentry cannot be woken at any sleep period.
pub fn min_rx_us(cfg: &RadioConfig) -> (r: u32)
    requires
        cfg.bandwidth_khz > 0,
    ensures
        r == floor(*cfg),
{
    let t_sym: u32 = symbol_us(cfg);
    let tcxo: u32 = cfg.tcxo_startup_ms as u32 * 1_000;
    (tcxo + 2 * DETECT_SYMBOLS * t_sym + HEADER_SYMBOLS * t_sym + 1) / 2
}

/// The sleep cancels out of the margin: while no sum is past a word, the
/// margin is what the window leaves of the oscillator restart, the header and
/// two detections, at whatever sleep.
pub proof fn law_the_sleep_cancels_out_of_the_margin(s: Sentry)
    requires
        2 * s.rx_us + s.sleep_us <= u32::MAX,
        s.sleep_us + s.tcxo_us + 2 * DETECT_SYMBOLS * s.t_sym_us <= u32::MAX,
    ensures
        s.margin() == (if 2 * s.rx_us >= s.tcxo_us + HEADER_SYMBOLS * s.t_sym_us + 2 * DETECT_SYMBOLS * s.t_sym_us {
            2 * s.rx_us - s.tcxo_us - HEADER_SYMBOLS * s.t_sym_us - 2 * DETECT_SYMBOLS * s.t_sym_us
        } else {
            0
        }),
        s.t_sym_us > 0 ==> (s.fits() <==> 2 * s.rx_us >= s.tcxo_us + HEADER_SYMBOLS * s.t_sym_us + 2 * DETECT_SYMBOLS
            * s.t_sym_us),
{
    assert(2 * DETECT_SYMBOLS * s.t_sym_us == 8 * s.t_sym_us);
    assert(HEADER_SYMBOLS * s.t_sym_us == 8 * s.t_sym_us);
}

/// A window under the floor admits no preamble at any sleep, and a window at
/// or over it always does, while no sum is past a word.
pub proof fn law_the_floor_decides(cfg: RadioConfig, rx_us: u32, sleep_us: u32)
    requires
        cfg.bandwidth_khz > 0,
        2 * rx_us + sleep_us <= u32::MAX,
        sleep_us + cfg.tcxo_startup_ms * 1_000 + 2 * DETECT_SYMBOLS * symbol_of(cfg) <= u32::MAX,
    ensures
        posted(cfg, rx_us, sleep_us).fits() <==> rx_us >= floor(cfg),
{
    cfg.lemma_symbol_bounds();
    let s = posted(cfg, rx_us, sleep_us);
    law_the_sleep_cancels_out_of_the_margin(s);
    let cost = cfg.tcxo_startup_ms * 1_000 + 2 * DETECT_SYMBOLS * symbol_of(cfg) + HEADER_SYMBOLS * symbol_of(cfg);
    assert(2 * rx_us >= cost <==> rx_us >= (cost + 1) / 2);
}

/// The preamble chosen is never past the longest that is heard out, is within
/// a symbol of the middle, and is inside both bounds wherever any whole number
/// of symbols is - as it always is where the margin is a symbol or more.
pub proof fn law_the_preamble_chosen_is_heard(s: Sentry)
    requires
        s.t_sym_us > 0,
        s.fits(),
    ensures
        s.symbols()->0 * s.t_sym_us <= s.longest(),
        s.shortest() + s.margin() / 2 - s.t_sym_us < s.symbols()->0 * s.t_sym_us <= s.shortest() + s.margin() / 2
            + s.t_sym_us,
        forall|m: int|
            s.shortest() <= #[trigger] (m * s.t_sym_us) <= s.longest() ==> s.shortest() <= s.symbols()->0 * s.t_sym_us,
        s.margin() >= s.t_sym_us - 1 ==> s.shortest() <= s.symbols()->0 * s.t_sym_us,
{
    let mid = s.shortest() + s.margin() / 2;
    let t = s.t_sym_us as int;
    let n = mid / t;
    vstd::arithmetic::div_mod::lemma_fundamental_div_mod(mid, t);
    vstd::arithmetic::div_mod::lemma_mod_bound(mid, t);
    assert(n * t == t * n) by (nonlinear_arith);
    assert((n + 1) * t == n * t + t) by (nonlinear_arith);
    assert forall|m: int| s.shortest() <= #[trigger] (m * s.t_sym_us) <= s.longest() implies s.shortest()
        <= s.symbols()->0 * s.t_sym_us by {
        if n * t < s.shortest() {
            // The first whole number of symbols past the lower bound.
            assert(m >= n + 1) by (nonlinear_arith)
                requires
                    n * t < m * t,
                    t > 0,
            ;
            assert((n + 1) * t <= m * t) by (nonlinear_arith)
                requires
                    m >= n + 1,
                    t > 0,
            ;
        }
    }
}

/// A config's own sentry can always be checked for a frame of up to 64
/// bytes: the periods its keys reach keep the wake's time on air a word.
pub proof fn law_a_configured_wake_fits_a_word(cfg: RadioConfig, payload_len: int)
    requires
        cfg.modulated(),
        0 <= payload_len <= 64,
        asked(cfg).fits(),
    ensures
        cfg.airtime_fits(payload_len, asked(cfg).symbols()->0),
{
    let s = asked(cfg);
    cfg.lemma_symbol_bounds();
    cfg.lemma_frames_fit(payload_len);
    law_the_preamble_chosen_is_heard(s);
    let t = cfg.symbol_us();
    let n = s.symbols()->0;
    let p = cfg.payload_symbols(payload_len);
    if t >= 1 {
        assert(s.t_sym_us == t);
        assert(s.longest() <= 196_605_000);
        assert(0 <= n) by {
            assert(0 <= s.middle()) by (nonlinear_arith)
                requires
                    s.middle() == (s.shortest() + s.margin() / 2) / t,
                    s.shortest() + s.margin() / 2 >= 0,
                    t >= 1,
            ;
        }
        assert(0 <= n * t <= 196_605_000) by (nonlinear_arith)
            requires
                0 <= n,
                1 <= t,
                n * t <= 196_605_000,
        ;
        assert((4 * n + 17) * t == 4 * (n * t) + 17 * t) by (nonlinear_arith);
        cfg.lemma_payload_bounds(payload_len);
    } else {
        assert((4 * n + 17) * t == 0) by (nonlinear_arith)
            requires
                t == 0,
        ;
        assert(p * t == 0) by (nonlinear_arith)
            requires
                t == 0,
        ;
    }
}

/// A config's sentry: its two wake keys and its oscillator's start in
/// microseconds, and its own symbol.
pub proof fn law_a_sentry_is_what_its_config_asks(cfg: RadioConfig)
    requires
        cfg.bandwidth_khz > 0,
    ensures
        asked(cfg).rx_us == cfg.wake_rx_ms * 1000,
        asked(cfg).sleep_us == cfg.wake_sleep_ms * 1000,
        asked(cfg).tcxo_us == cfg.tcxo_startup_ms * 1000,
        cfg.symbol_us() >= 1 ==> asked(cfg).t_sym_us == cfg.symbol_us(),
        cfg.symbol_us() < 1 ==> asked(cfg).t_sym_us == 1,
{
    cfg.lemma_symbol_bounds();
}

/// What the bounds of a wake preamble are for, while no sum is past a word: it
/// spans the time the radio is deaf - asleep, and starting - with four symbols
/// to detect it in at either end, and leaves the eight of the header inside
/// the time a detection holds the radio open, which is two windows and the
/// sleep.
pub proof fn law_a_preamble_spans_the_deaf_time(s: Sentry, preamble_us: int)
    requires
        2 * s.rx_us + s.sleep_us <= u32::MAX,
        s.rx_us + s.sleep_us + s.tcxo_us <= u32::MAX,
        s.sleep_us + s.tcxo_us + 8 * s.t_sym_us <= u32::MAX,
    ensures
        s.cycle() - s.rx_us == s.sleep_us + s.tcxo_us,
        preamble_us >= s.shortest() <==> preamble_us - (s.cycle() - s.rx_us) >= 4 * s.t_sym_us + 4 * s.t_sym_us,
        0 <= preamble_us && s.t_sym_us > 0 ==> (preamble_us <= s.longest() && s.longest() > 0 <==> preamble_us + 8
            * s.t_sym_us <= s.rx_us + s.sleep_us + s.rx_us && s.longest() > 0),
        s.longest() > 0 ==> s.longest() + 8 * s.t_sym_us == s.rx_us + s.sleep_us + s.rx_us,
        s.fits() <==> s.shortest() <= s.longest(),
{
}

/// A sum past a word stops there.
pub proof fn law_long_periods_stop_at_a_word(s: Sentry)
    ensures
        s.rx_us + s.sleep_us + s.tcxo_us > u32::MAX ==> s.cycle() == u32::MAX,
        2 * s.rx_us + s.sleep_us > u32::MAX ==> s.hold() == u32::MAX,
        s.sleep_us + s.tcxo_us + 8 * s.t_sym_us > u32::MAX ==> s.shortest() == u32::MAX,
{
}

/// A period is set to the nearest step of the chip's timer, which is 15.625
/// microseconds, up to as many as its 24 bits count.
pub proof fn law_a_period_is_the_nearest_step(us: int)
    requires
        0 <= us,
    ensures
        steps_of(us) < 0xFF_FFFF ==> -15_625 <= 2 * (steps_of(us) * 15_625 - us * 1000) <= 15_625,
        0 <= steps_of(us) <= 0xFF_FFFF,
        us * 1000 >= 0xFF_FFFF * 15_625 ==> steps_of(us) == 0xFF_FFFF,
{
}

/// A sentry is armed exactly where it can run: asked for, both periods inside
/// the timer, a preamble between the bounds and inside its field, and, on a
/// hopping plan, a wake that holds its channel for no more than 400 ms. The
/// first of these that fails is the reason given.
pub proof fn law_a_sentry_is_armed_where_it_can_run(cfg: RadioConfig, s: Sentry, payload_len: int)
    ensures
        verdict(cfg, s, payload_len) is Ok <==> {
            &&& cfg.wake_enabled
            &&& steps_of(s.rx_us as int) < 0xFF_FFFF && steps_of(s.sleep_us as int) < 0xFF_FFFF
            &&& s.shortest() <= s.longest()
            &&& s.symbols()->0 <= 65_535
            &&& cfg.hop_channels <= 1 || cfg.airtime_us(payload_len, s.symbols()->0) <= 400_000
        },
        verdict(cfg, s, payload_len) == Err::<(), Refusal>(Refusal::Disabled) <==> !cfg.wake_enabled,
        verdict(cfg, s, payload_len) == Err::<(), Refusal>(Refusal::PeriodTooLong) <==> cfg.wake_enabled && (steps_of(
            s.rx_us as int,
        ) >= 0xFF_FFFF || steps_of(s.sleep_us as int) >= 0xFF_FFFF),
        verdict(cfg, s, payload_len) == Err::<(), Refusal>(Refusal::DwellExceeded) ==> cfg.hop_channels > 1
            && cfg.airtime_us(payload_len, s.symbols()->0) > 400_000,
        verdict(cfg, s, payload_len) == Err::<(), Refusal>(Refusal::NoPreambleFits) ==> s.shortest() > s.longest(),
        verdict(cfg, s, payload_len) == Err::<(), Refusal>(Refusal::PreambleTooLong) ==> s.shortest() <= s.longest()
            && s.symbols()->0 > 65_535,
{
}

/// The share of a cycle a sentry listens for, in whole thousandths.
pub proof fn law_the_duty_is_the_share_of_the_cycle(s: Sentry)
    ensures
        s.cycle() > 0 ==> s.permille() * s.cycle() <= s.rx_us * 1000 < (s.permille() + 1) * s.cycle(),
        s.cycle() == 0 ==> s.permille() == 0,
{
    let c = s.cycle();
    let n: int = s.rx_us * 1000;
    if c > 0 {
        let q = n / c;
        assert(q * c <= n && n < (q + 1) * c) by (nonlinear_arith)
            requires
                c > 0,
                q == n / c,
        ;
    }
}

/// The drift a sentry stands is half its margin over its sleep, in whole parts
/// per million, while that is a word.
pub proof fn law_the_drift_is_half_the_margin(s: Sentry)
    requires
        s.sleep_us > 0,
        s.margin() / 2 * 1_000_000 / (s.sleep_us as int) <= u32::MAX,
    ensures
        s.drift_ppm() * s.sleep_us <= s.margin() / 2 * 1_000_000 < (s.drift_ppm() + 1) * s.sleep_us,
{
    let d: int = s.sleep_us as int;
    let n: int = s.margin() / 2 * 1_000_000;
    let q = n / d;
    assert(0 <= q && q * d <= n && n < (q + 1) * d) by (nonlinear_arith)
        requires
            d > 0,
            n >= 0,
            q == n / d,
    ;
}

/// What a waker does next.
#[derive(Clone, Copy, Debug, PartialEq, Eq, Structural)]
pub enum Step {
    /// Put a wake frame on the air.
    Send,
    /// Listen for the answer.
    Wait,
    /// Finished.
    Done {
        /// Whether the target answered.
        heard: bool,
    },
}

/// A burst as it stands.
pub struct Burst {
    /// Who is being woken.
    pub target: u8,
    /// Whether to wake into tracking.
    pub tracking: bool,
    /// Which burst this is.
    pub nonce: u8,
    /// Frames still to send.
    pub tries_left: u8,
    /// How long each listen lasts, ms.
    pub gap_ms: u32,
    /// When the current listen ends; `None` before the first frame.
    pub listen_until_ms: Option<u64>,
    /// Whether the answer came.
    pub heard: bool,
    /// Whether the burst is over.
    pub done: bool,
}

impl Burst {
    /// A burst before its first frame.
    pub open spec fn fresh(target: u8, tracking: bool, nonce: u8) -> Burst {
        Burst {
            target,
            tracking,
            nonce,
            tries_left: WAKE_TRIES,
            gap_ms: WAKE_GAP_MS,
            listen_until_ms: None,
            heard: false,
            done: false,
        }
    }

    /// A frame from `src` answers the burst: it is from the target, or the
    /// burst asked anyone.
    pub open spec fn answered_by(self, src: u8) -> bool {
        self.target == lora::WAKE_BROADCAST || src == self.target
    }

    /// After a frame from `src`.
    pub open spec fn hearing(self, src: u8) -> Burst {
        if !self.done && self.answered_by(src) {
            Burst { heard: true, ..self }
        } else {
            self
        }
    }

    /// After a frame sent at `now_ms`.
    pub open spec fn sending(self, now_ms: u64) -> Burst {
        Burst {
            tries_left: if self.tries_left == 0 {
                0
            } else {
                (self.tries_left - 1) as u8
            },
            listen_until_ms: Some((now_ms + self.gap_ms) as u64),
            ..self
        }
    }

    /// Whether a listen is running at `now_ms`.
    pub open spec fn listening(self, now_ms: u64) -> bool {
        self.listen_until_ms matches Some(until) && now_ms < until
    }

    /// What to do at `now_ms`.
    pub open spec fn due(self, now_ms: u64) -> Step {
        if self.done {
            Step::Done { heard: self.heard }
        } else if self.heard {
            Step::Done { heard: true }
        } else if self.listening(now_ms) {
            Step::Wait
        } else if self.tries_left == 0 {
            Step::Done { heard: false }
        } else {
            Step::Send
        }
    }

    /// The burst once that was asked: over, if that was the answer.
    pub open spec fn stepped(self, now_ms: u64) -> Burst {
        Burst { done: self.due(now_ms) is Done, ..self }
    }
}

/// A waker's burst: a bounded number of wake frames, each followed by a
/// listen for the target's answer.
///
/// Bounded, because a waker that never gives up is a transmitter that never
/// stops, and both the band and the waker's own battery care. A frame is only
/// sent when the previous listen produced nothing; the first answer ends the
/// burst.
#[derive(Clone, Copy, Debug, PartialEq, Eq, Hash)]
pub struct Waker {
    /// Who is being woken.
    pub target: u8,
    /// Whether to wake into tracking.
    pub tracking: bool,
    /// Which burst this is.
    pub nonce: u8,
    tries_left: u8,
    gap_ms: u32,
    listen_until_ms: Option<u64>,
    heard: bool,
    done: bool,
}

impl View for Waker {
    type V = Burst;

    closed spec fn view(&self) -> Burst {
        Burst {
            target: self.target,
            tracking: self.tracking,
            nonce: self.nonce,
            tries_left: self.tries_left,
            gap_ms: self.gap_ms,
            listen_until_ms: self.listen_until_ms,
            heard: self.heard,
            done: self.done,
        }
    }
}

impl Waker {
    /// A burst of the usual shape.
    pub fn new(target: u8, tracking: bool, nonce: u8) -> (r: Self)
        ensures
            r@ == Burst::fresh(target, tracking, nonce),
    {
        Self {
            target,
            tracking,
            nonce,
            tries_left: WAKE_TRIES,
            gap_ms: WAKE_GAP_MS,
            listen_until_ms: None,
            heard: false,
            done: false,
        }
    }

    /// The same, with the burst's shape given.
    pub fn with_shape(self, tries: u8, gap_ms: u32) -> (r: Self)
        ensures
            r@ == (Burst { tries_left: tries, gap_ms, ..self@ }),
    {
        Self { tries_left: tries, gap_ms, ..self }
    }

    /// A frame arrived from `src`. An answer from the target - or from
    /// anyone, for a broadcast - ends the burst.
    pub fn heard(&mut self, src: u8)
        ensures
            final(self)@ == old(self)@.hearing(src),
    {
        if self.done {
            return;
        }
        if self.target == lora::WAKE_BROADCAST || src == self.target {
            self.heard = true;
        }
    }

    /// A frame went out at `now_ms`; listen from here.
    pub fn sent(&mut self, now_ms: u64)
        requires
            now_ms + old(self)@.gap_ms <= u64::MAX,
        ensures
            final(self)@ == old(self)@.sending(now_ms),
    {
        self.tries_left = self.tries_left.saturating_sub(1);
        self.listen_until_ms = Some(now_ms + self.gap_ms as u64);
    }

    /// What to do at `now_ms`.
    pub fn step(&mut self, now_ms: u64) -> (r: Step)
        ensures
            r == old(self)@.due(now_ms),
            final(self)@ == old(self)@.stepped(now_ms),
    {
        if self.done {
            return Step::Done { heard: self.heard };
        }
        if self.heard {
            self.done = true;
            return Step::Done { heard: true };
        }
        if let Some(until) = self.listen_until_ms {
            if now_ms < until {
                return Step::Wait;
            }
        }
        if self.tries_left == 0 {
            self.done = true;
            return Step::Done { heard: false };
        }
        Step::Send
    }

    /// Whether the burst is over.
    pub fn is_done(&self) -> (r: bool)
        ensures
            r == self@.done,
    {
        self.done
    }
}

/// A waker never sends more frames than it has tries: it asks for one only
/// with a try left, nothing heard and no listen running, and each one sent
/// takes a try.
pub proof fn law_a_burst_is_bounded(b: Burst, now_ms: u64)
    requires
        b.due(now_ms) is Send,
    ensures
        b.tries_left > 0,
        !b.heard,
        !b.listening(now_ms),
        b.sending(now_ms).tries_left == b.tries_left - 1,
        b.stepped(now_ms) == b,
{
}

/// The first answer ends the burst: from then on no frame is asked for,
/// whenever it is asked.
pub proof fn law_an_answer_ends_the_burst(b: Burst, src: u8, now_ms: u64)
    requires
        !b.done,
        b.answered_by(src),
    ensures
        b.hearing(src).due(now_ms) == (Step::Done { heard: true }),
        b.hearing(src).stepped(now_ms).done,
{
}

/// A burst that is over stays over with the verdict it ended on: no answer,
/// frame or later step changes it.
pub proof fn law_a_finished_burst_stays_finished(b: Burst, src: u8, now_ms: u64, later_ms: u64)
    requires
        b.done,
    ensures
        b.hearing(src) == b,
        b.stepped(now_ms) == b,
        b.sending(now_ms).done,
        b.due(later_ms) == (Step::Done { heard: b.heard }),
        b.sending(now_ms).due(later_ms) == b.due(later_ms),
{
}

/// A burst that is out of tries ends at the end of its last listen.
pub proof fn law_a_burst_gives_up(b: Burst, now_ms: u64)
    requires
        !b.done,
        !b.heard,
        b.tries_left == 0,
    ensures
        b.listening(now_ms) ==> b.due(now_ms) == Step::Wait,
        !b.listening(now_ms) ==> b.due(now_ms) == (Step::Done { heard: false }),
{
}

/// A waker with a try left and nothing heard asks for a frame as soon as no
/// listen runs: at once before the first, and then the gap after each.
pub proof fn law_a_frame_goes_out_a_gap_after_the_last(b: Burst, sent_ms: u64, now_ms: u64)
    requires
        !b.done,
        !b.heard,
        sent_ms + b.gap_ms <= u64::MAX,
    ensures
        b.listen_until_ms is None && b.tries_left > 0 ==> b.due(now_ms) is Send,
        now_ms < sent_ms + b.gap_ms ==> b.sending(sent_ms).due(now_ms) is Wait,
        now_ms >= sent_ms + b.gap_ms && b.tries_left > 1 ==> b.sending(sent_ms).due(now_ms) is Send,
        now_ms >= sent_ms + b.gap_ms && b.tries_left <= 1 ==> b.sending(sent_ms).due(now_ms) == (Step::Done {
            heard: false,
        }),
{
}

// -- A whole burst -----------------------------------------------------------------

/// One thing that happens to a waker, in any order: a frame from a node is
/// heard, it is asked what to do, or a frame is reported sent.
pub enum Moment {
    Heard(u8),
    Asked(u64),
    Sent(u64),
}

impl Burst {
    /// A burst of `tries` frames, each with a listen of `gap_ms`, before its
    /// first.
    pub open spec fn shaped(target: u8, tracking: bool, nonce: u8, tries: u8, gap_ms: u32) -> Burst {
        Burst { tries_left: tries, gap_ms, ..Burst::fresh(target, tracking, nonce) }
    }

    /// What a waker answers to a moment, if that asked it anything.
    pub open spec fn answer(self, m: Moment) -> Option<Step> {
        match m {
            Moment::Asked(now_ms) => Some(self.due(now_ms)),
            _ => None,
        }
    }

    /// The burst after a moment.
    pub open spec fn after(self, m: Moment) -> Burst {
        match m {
            Moment::Heard(src) => self.hearing(src),
            Moment::Asked(now_ms) => self.stepped(now_ms),
            Moment::Sent(now_ms) => self.sending(now_ms),
        }
    }

    /// The burst after a run of moments.
    pub open spec fn run(self, ms: Seq<Moment>) -> Burst
        decreases ms.len(),
    {
        if ms.len() == 0 {
            self
        } else {
            self.run(ms.drop_last()).after(ms.last())
        }
    }

    /// What the waker answers to the `i`-th moment of a run.
    pub open spec fn answer_at(self, ms: Seq<Moment>, i: int) -> Option<Step> {
        self.run(ms.take(i)).answer(ms[i])
    }

    /// How often a waker says to send over a run.
    pub open spec fn sends(self, ms: Seq<Moment>) -> nat
        decreases ms.len(),
    {
        if ms.len() == 0 {
            0
        } else {
            self.sends(ms.drop_last()) + if self.run(ms.drop_last()).answer(ms.last()) == Some(Step::Send) {
                1nat
            } else {
                0
            }
        }
    }

    /// Whether every frame a waker says to send is reported sent before it is
    /// asked again. Anything may be heard in between.
    pub open spec fn reported(self, ms: Seq<Moment>) -> bool {
        forall|i: int, j: int|
            #![trigger self.answer_at(ms, i), ms[j]]
            0 <= i < j < ms.len() && self.answer_at(ms, i) == Some(Step::Send) && ms[j] is Asked ==> sent_between(
                ms,
                i,
                j,
            )
    }

    /// Whether the waker says at the `i`-th moment that it is done.
    pub open spec fn says_done(self, ms: Seq<Moment>, i: int) -> bool {
        self.answer_at(ms, i) matches Some(step) && step is Done
    }

    /// Whether from the `i`-th moment on the burst is over, and everything
    /// that is asked is answered as it was then.
    pub open spec fn stays_done(self, ms: Seq<Moment>, i: int) -> bool {
        forall|j: int|
            i < j <= ms.len() ==> self.run(#[trigger] ms.take(j)).done && (j < ms.len() && ms[j] is Asked
                ==> self.answer_at(ms, j) == self.answer_at(ms, i))
    }

    /// Whether the last frame asked for has not been reported sent.
    spec fn owing(self, ms: Seq<Moment>) -> bool
        decreases ms.len(),
    {
        if ms.len() == 0 {
            false
        } else {
            match ms.last() {
                Moment::Sent(_) => false,
                Moment::Heard(_) => self.owing(ms.drop_last()),
                Moment::Asked(_) => self.owing(ms.drop_last()) || self.run(ms.drop_last()).answer(ms.last()) == Some(
                    Step::Send,
                ),
            }
        }
    }
}

/// Whether a frame is reported sent between two moments.
pub open spec fn sent_between(ms: Seq<Moment>, i: int, j: int) -> bool {
    exists|k: int| i < k < j && (#[trigger] ms[k]) is Sent
}

/// Whether an answer to a call for `target` is heard before a moment.
pub open spec fn answered_before(ms: Seq<Moment>, target: u8, i: int) -> bool {
    exists|j: int|
        0 <= j < i && ((#[trigger] ms[j]) matches Moment::Heard(src) && (target == lora::WAKE_BROADCAST || src == target))
}

/// A frame that is owed was asked for, and nothing was reported sent since.
proof fn lemma_owing(b: Burst, ms: Seq<Moment>) -> (i: int)
    requires
        b.owing(ms),
    ensures
        0 <= i < ms.len(),
        b.answer_at(ms, i) == Some(Step::Send),
        !sent_between(ms, i, ms.len() as int),
    decreases ms.len(),
{
    let front = ms.drop_last();
    let n = front.len() as int;
    if b.owing(front) {
        let i = lemma_owing(b, front);
        assert(ms.take(i) =~= front.take(i));
        if sent_between(ms, i, n + 1) {
            let k = choose|k: int| i < k < n + 1 && (#[trigger] ms[k]) is Sent;
            assert(front[k] is Sent);
        }
        i
    } else {
        assert(ms.take(n) =~= front);
        n
    }
}

/// Over a whole run, whatever is heard and whenever it is asked, a waker says
/// to send no more often than it has tries.
pub proof fn law_a_run_sends_no_more_than_its_tries(b: Burst, ms: Seq<Moment>)
    requires
        b.reported(ms),
    ensures
        b.sends(ms) <= b.tries_left,
{
    lemma_sends_bounded(b, ms);
}

proof fn lemma_sends_bounded(b: Burst, ms: Seq<Moment>)
    requires
        b.reported(ms),
    ensures
        b.sends(ms) + b.run(ms).tries_left <= b.tries_left + (if b.owing(ms) { 1int } else { 0 }),
        b.owing(ms) ==> b.run(ms).tries_left >= 1,
    decreases ms.len(),
{
    if ms.len() > 0 {
        let front = ms.drop_last();
        let n = front.len() as int;
        assert forall|i: int, j: int|
            #![trigger b.answer_at(front, i), front[j]]
            0 <= i < j < front.len() && b.answer_at(front, i) == Some(Step::Send)
                && front[j] is Asked implies sent_between(front, i, j) by {
            assert(front.take(i) =~= ms.take(i));
            assert(b.answer_at(ms, i) == Some(Step::Send) && ms[j] is Asked);
            let k = choose|k: int| i < k < j && (#[trigger] ms[k]) is Sent;
            assert(front[k] is Sent);
        }
        lemma_sends_bounded(b, front);
        if b.owing(front) && ms.last() is Asked {
            let i = lemma_owing(b, front);
            assert(front.take(i) =~= ms.take(i));
            assert(b.answer_at(ms, i) == Some(Step::Send) && ms[n] is Asked);
            let k = choose|k: int| i < k < n && (#[trigger] ms[k]) is Sent;
            assert(front[k] is Sent);
            assert(sent_between(front, i, n));
        }
    }
}

/// A waker says it was answered only after it was: by the target, or by anyone
/// where it called anyone.
pub proof fn law_a_run_is_answered_only_by_an_answer(b: Burst, ms: Seq<Moment>, i: int)
    requires
        !b.heard,
        0 <= i < ms.len(),
        b.answer_at(ms, i) == Some(Step::Done { heard: true }),
    ensures
        answered_before(ms, b.target, i),
{
    lemma_heard_from_somebody(b, ms.take(i));
    let j = choose|j: int|
        0 <= j < i && ((#[trigger] ms.take(i)[j]) matches Moment::Heard(src) && (b.target == lora::WAKE_BROADCAST || src
            == b.target));
    assert(ms.take(i)[j] == ms[j]);
}

proof fn lemma_heard_from_somebody(b: Burst, ms: Seq<Moment>)
    requires
        !b.heard,
    ensures
        b.run(ms).target == b.target,
        b.run(ms).heard ==> answered_before(ms, b.target, ms.len() as int),
    decreases ms.len(),
{
    if ms.len() > 0 {
        let front = ms.drop_last();
        lemma_heard_from_somebody(b, front);
        if b.run(front).heard {
            let j = choose|j: int|
                0 <= j < front.len() && ((#[trigger] front[j]) matches Moment::Heard(src) && (b.target
                    == lora::WAKE_BROADCAST || src == b.target));
            assert(ms[j] == front[j]);
        } else if b.run(ms).heard {
            assert(ms[ms.len() - 1] is Heard);
        }
    }
}

/// Once a waker has said it is done, it is, and says the same to everything it
/// is asked for the rest of the run, whatever is heard or sent.
pub proof fn law_a_run_that_is_done_stays_done(b: Burst, ms: Seq<Moment>, i: int, j: int)
    requires
        0 <= i < j <= ms.len(),
        b.says_done(ms, i),
    ensures
        b.run(ms.take(j)).done,
        b.answer_at(ms, i) == Some(Step::Done { heard: b.run(ms.take(j)).heard }),
        j < ms.len() && ms[j] is Asked ==> b.answer_at(ms, j) == b.answer_at(ms, i),
    decreases j,
{
    assert(ms.take(j).drop_last() =~= ms.take(j - 1));
    assert(ms.take(j).last() == ms[j - 1]);
    if i < j - 1 {
        law_a_run_that_is_done_stays_done(b, ms, i, j - 1);
    }
}

/// A whole burst, from a new waker of any shape on, whatever happens to it: it
/// says to send at most `tries` times, where each frame is reported sent; it
/// says it was answered only after it was; and once it has said it is done it
/// is, and says the same ever after.
pub proof fn law_a_whole_burst(target: u8, tracking: bool, nonce: u8, tries: u8, gap_ms: u32, ms: Seq<Moment>)
    ensures
        ({
            let b = Burst::shaped(target, tracking, nonce, tries, gap_ms);
            &&& b.reported(ms) ==> b.sends(ms) <= tries
            &&& forall|i: int|
                0 <= i < ms.len() && #[trigger] b.answer_at(ms, i) == Some(Step::Done { heard: true })
                    ==> answered_before(ms, target, i)
            &&& forall|i: int| 0 <= i < ms.len() && #[trigger] b.says_done(ms, i) ==> b.stays_done(ms, i)
        }),
{
    let b = Burst::shaped(target, tracking, nonce, tries, gap_ms);
    if b.reported(ms) {
        law_a_run_sends_no_more_than_its_tries(b, ms);
    }
    assert forall|i: int|
        0 <= i < ms.len() && #[trigger] b.answer_at(ms, i) == Some(Step::Done { heard: true }) implies answered_before(
        ms,
        target,
        i,
    ) by {
        law_a_run_is_answered_only_by_an_answer(b, ms, i);
    }
    assert forall|i: int| 0 <= i < ms.len() && #[trigger] b.says_done(ms, i) implies b.stays_done(ms, i) by {
        assert forall|j: int| i < j <= ms.len() implies b.run(#[trigger] ms.take(j)).done && (j < ms.len()
            && ms[j] is Asked ==> b.answer_at(ms, j) == b.answer_at(ms, i)) by {
            law_a_run_that_is_done_stays_done(b, ms, i, j);
        }
    }
}

/// The drift is reported in a word: one too large for it loses what stands
/// above the word.
pub proof fn law_the_drift_is_reported_in_a_word(s: Sentry)
    requires
        s.sleep_us > 0,
    ensures
        0 <= s.drift_ppm() < 0x1_0000_0000,
        (s.margin() / 2 * 1_000_000 / (s.sleep_us as int) - s.drift_ppm()) % 0x1_0000_0000 == 0,
{
}

/// What a refusal says.
pub proof fn law_what_a_refusal_says()
    ensures
        Refusal::Disabled.sentence() == "wake_enabled is off"@,
        Refusal::NoPreambleFits.sentence() == "no preamble fits - lengthen wake_rx_ms"@,
        Refusal::PreambleTooLong.sentence() == "the preamble does not fit the packet parameters"@,
        Refusal::PeriodTooLong.sentence() == "a period overflows the chip's timer"@,
        Refusal::DwellExceeded.sentence() == "hopping - a wake frame would hold one channel too long"@,
{
}

/// Steps of the chip's timer are 15.625 microseconds each, cut to the
/// microsecond.
pub proof fn law_a_step_is_fifteen_microseconds_and_five_eighths(steps: u32)
    ensures
        steps <= 0x00FF_FFFF ==> us_of(steps) * 1000 <= steps * 15_625 < us_of(steps) * 1000 + 1000,
        (us_of(steps) - steps * 15_625 / 1000) % 0x1_0000_0000 == 0 && 0 <= us_of(steps) < 0x1_0000_0000,
{
}

/// The sentry planned is the one its config asks for, where that can be armed.
pub proof fn law_the_sentry_planned_is_the_one_asked_for(cfg: RadioConfig, payload_len: int)
    ensures
        verdict(cfg, asked(cfg), payload_len) is Ok ==> planned(cfg, payload_len) == Ok::<Sentry, Refusal>(asked(cfg)),
        verdict(cfg, asked(cfg), payload_len) matches Err(e) ==> planned(cfg, payload_len) == Err::<Sentry, Refusal>(e),
        !cfg.wake_enabled ==> planned(cfg, payload_len) == Err::<Sentry, Refusal>(Refusal::Disabled),
{
}

} // verus!
