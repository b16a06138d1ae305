//! Frequency hopping: the channel plan, the slot clock the network keeps in
//! step, and the sync word every hopped frame carries so a receiver can join
//! that clock from nothing but the frames it hears.
//!
//! Time is cut into slots of [`Plan::dwell_ms`]. In slot `s` every node
//! listens on, and transmits on, one channel: the `s mod n`-th entry of a
//! permutation of all `n` channels, reshuffled every cycle of `n` slots from
//! the cycle number. Each channel is therefore used exactly once per cycle.
//!
//! The clock itself is a local millisecond counter and the two numbers that
//! map it onto slots - when a slot began, and which slot it was. GPS time
//! sets those at stratum 0; a heard frame with a better clock is adopted one
//! stratum below; a node that has neither free-runs at [`STRATUM_MAX`]. A
//! clock nobody has refreshed ages one stratum every [`AGE_STEP_MS`].
//!
//! A slot is also cut into turns: as many lean beacons as fit its window,
//! taken by address, so nodes beaconing at one rate do not overlap.

use vstd::prelude::*;
use vstd::arithmetic::div_mod::*;
use vstd::arithmetic::mul::*;
use crate::bytes;
use crate::time;
use crate::radiocfg::RadioConfig;
use crate::bytes::{u32_at, u32_bytes};

verus! {

/// Stratum of a clock disciplined by the node's own GPS receiver.
pub const STRATUM_GPS: u8 = 0;

/// Stratum of a clock nothing has disciplined. Also the ceiling a follower's
/// stratum ages to.
pub const STRATUM_MAX: u8 = 15;

/// How long a clock goes without a fresh reference before it counts as one
/// stratum worse.
pub const AGE_STEP_MS: u64 = 600_000;

/// Width of the slot number as it travels in a frame.
pub const SLOT_BITS: u32 = 20;

/// Mask for a slot number: every slot value in this module is below
/// `SLOT_MASK + 1`.
pub const SLOT_MASK: u32 = 0xF_FFFF;

/// How many slot numbers there are.
pub const SLOTS: u32 = 0x10_0000;

/// Upper bound on the guard either side of a slot, in milliseconds.
pub const GUARD_MAX_MS: u32 = 100;

// -- The channel order ----------------------------------------------------------

/// The larger of a count and one.
pub open spec fn at_least_one(n: int) -> int {
    if n < 1 {
        1
    } else {
        n
    }
}

/// Spread a cycle number into a generator seed, so neighboring cycles give
/// unrelated orders: the finalizer from MurmurHash3, forced odd because a
/// xorshift state of zero never leaves zero.
pub open spec fn mixed(x: u32) -> u32 {
    let a = x ^ 0x5bd1_e995;
    let b = a ^ (a >> 16);
    let c = b.wrapping_mul(0x85eb_ca6b);
    let d = c ^ (c >> 13);
    let e = d.wrapping_mul(0xc2b2_ae35);
    (e ^ (e >> 16)) | 1
}

/// One step of the 32-bit xorshift generator.
pub open spec fn stepped(s: u32) -> u32 {
    let a = s ^ (s << 13);
    let b = a ^ (a >> 17);
    b ^ (b << 5)
}

/// The channels in order.
pub open spec fn in_order(n: int) -> Seq<u8> {
    Seq::new(n as nat, |i: int| i as u8)
}

/// A sequence with two entries exchanged.
pub open spec fn swapped(s: Seq<u8>, i: int, j: int) -> Seq<u8> {
    s.update(i, s[j]).update(j, s[i])
}

/// The Fisher-Yates shuffle from entry `i` down, with the generator at `rng`.
pub open spec fn shuffled(s: Seq<u8>, rng: u32, i: int) -> Seq<u8>
    decreases i,
{
    if i < 1 {
        s
    } else {
        let next = stepped(rng);
        shuffled(swapped(s, i, next as int % (i + 1)), next, i - 1)
    }
}

/// The channel order for a cycle: `0..n` shuffled by a generator seeded from
/// the cycle number.
pub open spec fn channel_order(cycle: u32, n: int) -> Seq<u8> {
    shuffled(in_order(at_least_one(n)), mixed(cycle), at_least_one(n) - 1)
}

/// Whether a sequence holds each of `0..n` exactly once.
pub open spec fn is_order(s: Seq<u8>, n: int) -> bool {
    &&& s.len() == n
    &&& forall|i: int| 0 <= i < n ==> s[i] < n
    &&& forall|i: int, j: int| 0 <= i < j < n ==> s[i] != s[j]
    &&& forall|c: u8| c < n ==> #[trigger] s.contains(c)
}

proof fn lemma_swap_keeps_order(s: Seq<u8>, n: int, i: int, j: int)
    requires
        is_order(s, n),
        0 <= i < n,
        0 <= j < n,
    ensures
        is_order(swapped(s, i, j), n),
{
    let t = swapped(s, i, j);
    assert forall|c: u8| c < n implies #[trigger] t.contains(c) by {
        assert(s.contains(c));
        let k = choose|k: int| 0 <= k < s.len() && s[k] == c;
        if k == i {
            assert(t[j] == c);
        } else if k == j {
            assert(t[i] == c);
        } else {
            assert(t[k] == c);
        }
    }
}

proof fn lemma_shuffle_keeps_order(s: Seq<u8>, n: int, rng: u32, i: int)
    requires
        is_order(s, n),
        i < n,
    ensures
        is_order(shuffled(s, rng, i), n),
    decreases i,
{
    if i >= 1 {
        let next = stepped(rng);
        let j = next as int % (i + 1);
        lemma_mod_bound(next as int, i + 1);
        lemma_swap_keeps_order(s, n, i, j);
        lemma_shuffle_keeps_order(swapped(s, i, j), n, next, i - 1);
    }
}

/// Every cycle uses every channel exactly once: the order drawn for any cycle
/// is a permutation of the channels.
pub proof fn law_each_cycle_is_a_permutation(cycle: u32, n: int)
    requires
        n <= 256,
    ensures
        is_order(channel_order(cycle, n), at_least_one(n)),
{
    let m = at_least_one(n);
    let s = in_order(m);
    assert(is_order(s, m)) by {
        assert forall|c: u8| c < m implies #[trigger] s.contains(c) by {
            assert(s[c as int] == c);
        }
    }
    lemma_shuffle_keeps_order(s, m, mixed(cycle), m - 1);
}

fn mix(x: u32) -> (r: u32)
    ensures
        r == mixed(x),
{
    let mut h: u32 = x ^ 0x5bd1_e995;
    h = h ^ (h >> 16);
    h = h.wrapping_mul(0x85eb_ca6b);
    h = h ^ (h >> 13);
    h = h.wrapping_mul(0xc2b2_ae35);
    h = h ^ (h >> 16);
    h | 1
}

fn xorshift(seed: u32) -> (r: u32)
    ensures
        r == stepped(seed),
{
    let mut s: u32 = seed;
    s = s ^ (s << 13);
    s = s ^ (s >> 17);
    s ^ (s << 5)
}

/// Fill `out[..n]` with the channel order for `cycle`: a Fisher-Yates shuffle
/// of `0..n` driven by a generator seeded from the cycle number.
/// Deterministic, so every node that agrees on the cycle agrees on the
/// order.
pub fn permutation(cycle: u32, n: u8, out: &mut [u8; 256])
    ensures
        final(out)@.take(at_least_one(n as int)) == channel_order(cycle, n as int),
        final(out)@.skip(at_least_one(n as int)) == old(out)@.skip(at_least_one(n as int)),
{
    let n: usize = if n == 0 { 1 } else { n as usize };
    let ghost rest = out@.skip(n as int);
    let mut i: usize = 0;
    while i < n
        invariant
            i <= n <= 255,
            out@.len() == 256,
            out@.skip(n as int) == rest,
            out@.take(i as int) == in_order(i as int),
        decreases n - i,
    {
        let ghost before = out@;
        out[i] = i as u8;
        assert(out@.skip(n as int) =~= before.skip(n as int));
        assert(out@.take(i + 1) =~= in_order(i + 1)) by {
            assert forall|k: int| 0 <= k < i implies out@[k] == in_order(i + 1)[k] by {
                assert(before.take(i as int)[k] == in_order(i as int)[k]);
            }
        }
        i += 1;
    }
    let mut s: u32 = mix(cycle);
    let mut i: usize = n - 1;
    let ghost want = channel_order(cycle, n as int);
    while i > 0
        invariant
            i < n <= 255,
            out@.len() == 256,
            out@.skip(n as int) == rest,
            want == shuffled(out@.take(n as int), s, i as int),
        decreases i,
    {
        s = xorshift(s);
        let j: usize = (s % (i as u32 + 1)) as usize;
        let ghost before = out@;
        let a: u8 = out[i];
        let b: u8 = out[j];
        out[i] = b;
        out[j] = a;
        assert(out@.take(n as int) =~= swapped(before.take(n as int), i as int, j as int));
        assert(out@.skip(n as int) =~= before.skip(n as int));
        i -= 1;
    }
}

// -- The plan --------------------------------------------------------------------

/// The channel plan: which frequencies, how long each slot lasts, and how
/// many turns a slot is cut into.
#[derive(Clone, Copy, Debug, PartialEq, Eq, Structural)]
pub struct Plan {
    /// Channels in the plan, at least 1.
    pub channels: u8,
    /// Spacing between adjacent channels, kHz.
    pub step_khz: u16,
    /// Center of the plan, Hz. The channels straddle it symmetrically.
    pub center_hz: u32,
    /// Slot length, ms.
    pub dwell_ms: u16,
    /// Turns each slot is cut into, at least 1.
    pub sub_slots: u8,
}

/// Milliseconds in `us` microseconds, rounded up.
pub open spec fn ms_up(us: int) -> int {
    (us + 999) / 1000
}

impl Plan {
    /// Slots in one cycle.
    pub open spec fn slots_per_cycle(self) -> int {
        at_least_one(self.channels as int)
    }

    /// Carrier of channel `index`: the channels spread evenly about the
    /// center, half a step apart from it for an even count, an index past
    /// the plan on its last channel.
    pub open spec fn carrier(self, index: u8) -> u32 {
        let n = self.slots_per_cycle();
        let i = time::least(index as int, n - 1);
        time::clamped(self.center_hz + (2 * i - (n - 1)) * (self.step_khz * 500), 0, u32::MAX as int) as u32
    }

    /// Which channel a slot uses.
    pub open spec fn channel_of(self, slot: u32) -> u8 {
        let s = slot as int % (SLOTS as int);
        let n = self.slots_per_cycle();
        channel_order((s / n) as u32, n)[s % n]
    }

    /// Time given up at each end of a slot, ms.
    pub open spec fn guard(self) -> int {
        time::least(self.dwell_ms as int / 5, GUARD_MAX_MS as int)
    }

    /// The longest transmission that fits a slot with its guards, ms.
    pub open spec fn window(self) -> int {
        self.dwell_ms - 2 * self.guard()
    }

    /// Whether a transmission fits a slot with its guards.
    pub open spec fn holds(self, airtime_ms: u32) -> bool {
        airtime_ms <= self.window()
    }

    /// Whether this is the plan `cfg` describes.
    pub open spec fn describes(self, cfg: RadioConfig) -> bool {
        &&& self.channels == cfg.hop_channels
        &&& self.step_khz == cfg.hop_step_khz
        &&& self.center_hz == cfg.frequency_hz
        &&& self.dwell_ms == cfg.hop_dwell_ms
        &&& self.sub_slots == Plan::turns_in(cfg, self.window())
    }

    /// The latest phase a transmission may start at, ms.
    pub open spec fn latest(self, airtime_ms: u32) -> int {
        let end = self.dwell_ms - (self.guard() + airtime_ms);
        if end < self.guard() {
            self.guard()
        } else {
            end
        }
    }

    /// How many turns of `cfg`'s lean beacon a slot's window holds, at least
    /// one.
    pub open spec fn turns_in(cfg: RadioConfig, window: int) -> int {
        if !cfg.modulated() {
            1
        } else {
            time::clamped(window / at_least_one(ms_up(cfg.unit_us())), 1, 255)
        }
    }

    /// The plan `cfg` describes, or `None` when hopping is off.
    pub fn from_config(cfg: &RadioConfig) -> (r: Option<Self>)
        ensures
            r is None <==> cfg.hop_channels == 0,
            r matches Some(p) ==> p.describes(*cfg),
    {
        if cfg.hop_channels == 0 {
            return None;
        }
        let mut p: Plan = Plan {
            channels: cfg.hop_channels,
            step_khz: cfg.hop_step_khz,
            center_hz: cfg.frequency_hz,
            dwell_ms: cfg.hop_dwell_ms,
            sub_slots: 1,
        };
        if cfg.bandwidth_khz > 0 && cfg.spreading_factor <= 25 {
            let us: u32 = cfg.hop_unit_airtime_us();
            let unit: u32 = ((us as u64 + 999) / 1000) as u32;
            let unit: u32 = if unit < 1 { 1 } else { unit };
            let fit: u32 = p.window_ms() / unit;
            p.sub_slots = if fit < 1 {
                1
            } else if fit > 255 {
                255
            } else {
                fit as u8
            };
        }
        Some(p)
    }

    /// Carrier of channel `index`, Hz. Channels are spread evenly about the
    /// center, so with an even count the center itself is between two of
    /// them. Indices past the plan are clamped to its last channel.
    pub fn channel_hz(&self, index: u8) -> (r: u32)
        ensures
            r == self.carrier(index),
    {
        let n: i64 = if self.channels == 0 { 1 } else { self.channels as i64 };
        let i: i64 = if (index as i64) < n - 1 { index as i64 } else { n - 1 };
        // Half a step, so an even count stays symmetric without fractions.
        let half_step: i64 = self.step_khz as i64 * 500;
        let k: i64 = 2 * i - (n - 1);
        proof {
            let a: int = k as int;
            let b: int = half_step as int;
            assert(-255 * 32_767_500 <= a * b <= 255 * 32_767_500) by (nonlinear_arith)
                requires
                    -255 <= a <= 255,
                    0 <= b <= 32_767_500,
            ;
        }
        let hz: i64 = self.center_hz as i64 + k * half_step;
        if hz < 0 {
            0
        } else if hz > u32::MAX as i64 {
            u32::MAX
        } else {
            hz as u32
        }
    }

    /// The lowest and highest carriers in the plan, Hz.
    pub fn span_hz(&self) -> (r: (u32, u32))
        ensures
            r.0 == self.carrier(0),
            r.1 == self.carrier((self.slots_per_cycle() - 1) as u8),
            forall|i: u8| r.0 <= #[trigger] self.carrier(i) <= r.1,
    {
        let lo: u32 = self.channel_hz(0);
        let hi: u32 = self.channel_hz(self.channels.saturating_sub(1));
        assert forall|i: u8| lo <= #[trigger] self.carrier(i) <= hi by {
            self.lemma_carriers_ascend(0, i);
            self.lemma_carriers_ascend(i, (self.slots_per_cycle() - 1) as u8);
        }
        (lo, hi)
    }

    /// Carriers ascend with the channel number, up to the last.
    pub proof fn lemma_carriers_ascend(self, i: u8, j: u8)
        requires
            i <= j || j == self.slots_per_cycle() - 1,
        ensures
            self.carrier(i) <= self.carrier(j),
    {
        let n = self.slots_per_cycle();
        let a = 2 * time::least(i as int, n - 1) - (n - 1);
        let b = 2 * time::least(j as int, n - 1) - (n - 1);
        let h: int = self.step_khz * 500;
        assert(a * h <= b * h) by (nonlinear_arith)
            requires
                a <= b,
                h >= 0,
        ;
    }

    /// Slots in one cycle, i.e. the channel count.
    pub fn cycle(&self) -> (r: u32)
        ensures
            r == self.slots_per_cycle(),
            1 <= r <= 255,
    {
        if self.channels == 0 {
            1
        } else {
            self.channels as u32
        }
    }

    /// Which channel slot `slot` uses: the `slot mod n`-th entry of the
    /// permutation drawn for cycle `slot div n`.
    pub fn index_for_slot(&self, slot: u32) -> (r: u8)
        ensures
            r == self.channel_of(slot),
            r < self.slots_per_cycle(),
    {
        let n: u32 = self.cycle();
        let slot: u32 = slot % SLOTS;
        let mut perm: [u8; 256] = [0u8; 256];
        permutation(slot / n, if self.channels == 0 { 1 } else { self.channels }, &mut perm);
        proof {
            law_each_cycle_is_a_permutation(slot / n, n as int);
            let k: int = (slot % n) as int;
            assert(perm@.take(n as int)[k] == channel_order(slot / n, n as int)[k]);
        }
        perm[(slot % n) as usize]
    }

    /// Carrier for slot `slot`, Hz.
    pub fn frequency_for_slot(&self, slot: u32) -> (r: u32)
        ensures
            r == self.carrier(self.channel_of(slot)),
    {
        self.channel_hz(self.index_for_slot(slot))
    }

    /// Time given up at each end of a slot to disagreement between clocks,
    /// ms: a transmission neither starts before it nor is planned to run
    /// into it.
    pub fn guard_ms(&self) -> (r: u32)
        ensures
            r == self.guard(),
            r <= 100,
            5 * r <= self.dwell_ms,
    {
        let fifth: u32 = self.dwell_ms as u32 / 5;
        if fifth < GUARD_MAX_MS {
            fifth
        } else {
            GUARD_MAX_MS
        }
    }

    /// The longest transmission that fits a slot with its guards, ms.
    pub fn window_ms(&self) -> (r: u32)
        ensures
            r == self.window(),
    {
        let guard: u32 = self.guard_ms();
        self.dwell_ms as u32 - 2 * guard
    }

    /// Whether a transmission of `airtime_ms` ends inside the slot it starts
    /// in.
    pub fn fits(&self, airtime_ms: u32) -> (r: bool)
        ensures
            r == self.holds(airtime_ms),
    {
        airtime_ms <= self.window_ms()
    }

    /// The range of slot phases a transmission of `airtime_ms` may start at,
    /// `(earliest, latest)` in ms from the slot's start. A frame too long
    /// for the window collapses the range to the guard, so it at least
    /// starts as early as a receiver can be trusted to be listening.
    pub fn start_range_ms(&self, airtime_ms: u32) -> (r: (u32, u32))
        requires
            self.guard() + airtime_ms <= u32::MAX,
        ensures
            r.0 == self.guard(),
            r.1 == self.latest(airtime_ms),
            r.0 <= r.1,
    {
        let guard: u32 = self.guard_ms();
        let end: u32 = (self.dwell_ms as u32).saturating_sub(guard + airtime_ms);
        (guard, if end < guard { guard } else { end })
    }
}

/// Over one cycle a node visits every channel exactly once: two slots of one
/// cycle use different channels, and every channel of the plan is some slot's.
pub proof fn law_a_cycle_visits_every_channel(p: Plan, cycle: u32, a: u32, b: u32, c: u8)
    requires
        a < SLOTS,
        b < SLOTS,
        a as int / p.slots_per_cycle() == cycle,
        b as int / p.slots_per_cycle() == cycle,
        (cycle + 1) * p.slots_per_cycle() <= SLOTS,
        c < p.slots_per_cycle(),
    ensures
        a != b ==> p.channel_of(a) != p.channel_of(b),
        exists|s: u32| s < SLOTS && s as int / p.slots_per_cycle() == cycle && #[trigger] p.channel_of(s) == c,
{
    let n = p.slots_per_cycle();
    let order = channel_order(cycle, n);
    law_each_cycle_is_a_permutation(cycle, n);
    lemma_small_mod(a as nat, SLOTS as nat);
    lemma_small_mod(b as nat, SLOTS as nat);
    lemma_fundamental_div_mod(a as int, n);
    lemma_fundamental_div_mod(b as int, n);
    lemma_mod_bound(a as int, n);
    lemma_mod_bound(b as int, n);
    if a != b {
        assert(a as int % n != b as int % n);
    }
    assert(order.contains(c));
    let k = choose|k: int| 0 <= k < order.len() && order[k] == c;
    let at: int = n * cycle + k;
    assert(n * cycle + n == (cycle + 1) * n) by (nonlinear_arith);
    assert(0 <= n * cycle) by (nonlinear_arith)
        requires
            n >= 1,
            cycle >= 0,
    ;
    lemma_fundamental_div_mod_converse(at, n, cycle as int, k);
    let s = at as u32;
    lemma_small_mod(s as nat, SLOTS as nat);
    assert(p.channel_of(s) == c);
}

// -- The sync word ---------------------------------------------------------------

/// What a hopped frame says about its sender's clock, packed into four bytes:
/// the slot the transmission started in, how far into that slot it started,
/// and how good the sender thinks its clock is.
///
/// Layout, as a little-endian `u32`: bits 0-7 phase, bits 8-11 stratum, bits
/// 12-31 slot.
#[derive(Clone, Copy, Debug, PartialEq, Eq, Structural)]
pub struct SyncWord {
    /// Slot number, [`SLOT_BITS`] wide.
    pub slot: u32,
    /// Sender's stratum, 0-15.
    pub stratum: u8,
    /// Start of the transmission within the slot, in 1/256ths of the dwell.
    pub phase: u8,
}

impl Default for SyncWord {
    fn default() -> (r: Self)
        ensures
            r == (SyncWord { slot: 0, stratum: 0, phase: 0 }),
    {
        SyncWord { slot: 0, stratum: 0, phase: 0 }
    }
}

/// Wire size of a [`SyncWord`].
pub const SYNC_LEN: usize = 4;

impl SyncWord {
    /// The word as a number.
    pub open spec fn packed(self) -> u32 {
        (self.slot as int % (SLOTS as int) * 4096 + self.stratum as int % 16 * 256 + self.phase) as u32
    }

    /// The word a number packs.
    pub open spec fn unpacked(v: u32) -> SyncWord {
        SyncWord { slot: v / 4096, stratum: (v / 256 % 16) as u8, phase: (v % 256) as u8 }
    }

    /// The word as it travels.
    pub open spec fn wire(self) -> Seq<u8> {
        bytes::le32(self.packed())
    }

    /// The word that arrives.
    pub open spec fn of_wire(b: Seq<u8>) -> SyncWord {
        SyncWord::unpacked(bytes::le32_at(b, 0))
    }

    /// The word with what does not fit its fields cut off.
    pub open spec fn masked(self) -> SyncWord {
        SyncWord { slot: self.slot % SLOTS, stratum: (self.stratum % 16) as u8, phase: self.phase }
    }

    /// The word as a number.
    pub fn to_u32(self) -> (r: u32)
        ensures
            r == self.packed(),
    {
        (self.slot % SLOTS) * 4096 + (self.stratum % 16) as u32 * 256 + self.phase as u32
    }

    /// The word a number packs.
    pub fn from_u32(v: u32) -> (r: Self)
        ensures
            r == SyncWord::unpacked(v),
    {
        Self { slot: v / 4096, stratum: (v / 256 % 16) as u8, phase: (v % 256) as u8 }
    }

    /// The word as it travels.
    pub fn to_bytes(self) -> (r: [u8; SYNC_LEN])
        ensures
            r@ == self.wire(),
    {
        u32_bytes(self.to_u32())
    }

    /// The word that arrives.
    pub fn from_bytes(b: [u8; SYNC_LEN]) -> (r: Self)
        ensures
            r == SyncWord::of_wire(b@),
    {
        Self::from_u32(u32_at(&b, 0))
    }
}

/// A sync word survives the wire, its slot and stratum cut to their widths.
pub proof fn law_sync_word_round_trip(w: SyncWord)
    ensures
        SyncWord::unpacked(w.packed()) == w.masked(),
        SyncWord::of_wire(w.wire()) == w.masked(),
        w.slot < SLOTS && w.stratum < 16 ==> w.masked() == w,
{
    bytes::lemma_le32_read(w.wire(), 0, w.packed());
}

// -- The clock -------------------------------------------------------------------

/// What [`Clock::offer`] decided about a heard frame.
#[derive(Clone, Copy, Debug, PartialEq, Eq, Structural)]
pub enum Offer {
    /// The node's own clock is as good or better; nothing changed.
    Kept,
    /// The heard clock was adopted. Carries the stratum this node now has.
    Adopted(u8),
}

/// This node's slot clock: a mapping from local milliseconds to slot numbers,
/// and how much to trust it.
#[derive(Clone, Copy, Debug)]
pub struct Clock {
    dwell_ms: u32,
    /// Local time at which slot `origin_slot` began. Signed, because a slot
    /// that was already under way at boot began before local time zero.
    origin_ms: i64,
    origin_slot: u32,
    /// Stratum as of the last discipline; ages from there.
    base_stratum: u8,
    /// When the clock was last disciplined. `None` since boot.
    synced_ms: Option<u64>,
    rng: u32,
}

/// A clock, as its contracts speak of it.
pub struct Ticking {
    pub dwell: int,
    pub origin: int,
    pub origin_slot: int,
    pub base_stratum: u8,
    pub synced_ms: Option<u64>,
    pub rng: u32,
}

impl View for Clock {
    type V = Ticking;

    closed spec fn view(&self) -> Ticking {
        Ticking {
            dwell: self.dwell_ms as int,
            origin: self.origin_ms as int,
            origin_slot: self.origin_slot as int,
            base_stratum: self.base_stratum,
            synced_ms: self.synced_ms,
            rng: self.rng,
        }
    }
}

/// A millisecond count as the signed time the clock computes in.
pub open spec fn local(ms: u64) -> int {
    if ms <= i64::MAX {
        ms as int
    } else {
        ms - 0x1_0000_0000_0000_0000
    }
}

impl Ticking {
    /// Slots have a length that fits their field, slot numbers and strata
    /// stay inside theirs.
    pub open spec fn wf(self) -> bool {
        &&& 1 <= self.dwell <= 65_535
        &&& i64::MIN <= self.origin <= i64::MAX
        &&& 0 <= self.origin_slot < SLOTS
        &&& self.base_stratum <= STRATUM_MAX
    }

    /// Whether the span from the clock's origin to `now_ms` fits the signed
    /// time it is computed in.
    pub open spec fn reaches(self, now_ms: u64) -> bool {
        i64::MIN <= local(now_ms) - self.origin <= i64::MAX
    }

    /// The slot `now_ms` falls in.
    pub open spec fn slot_at(self, now_ms: u64) -> int {
        (self.origin_slot + (local(now_ms) - self.origin) / self.dwell) % (SLOTS as int)
    }

    /// Milliseconds from the start of that slot.
    pub open spec fn phase_at(self, now_ms: u64) -> int {
        (local(now_ms) - self.origin) % self.dwell
    }

    /// Stratum as of `now_ms`, aging included.
    pub open spec fn stratum_at(self, now_ms: u64) -> u8 {
        match self.synced_ms {
            None => STRATUM_MAX,
            Some(t) => time::least(
                self.base_stratum + time::elapsed(t, now_ms) / (AGE_STEP_MS as int),
                STRATUM_MAX as int,
            ) as u8,
        }
    }

    /// The clock re-anchored: at `at_ms` it was `phase` into slot `slot`.
    pub open spec fn anchored(self, at_ms: u64, phase: int, slot: int) -> Ticking {
        Ticking { origin: local(at_ms) - phase, origin_slot: slot % (SLOTS as int), ..self }
    }

    /// The clock put on the time of day it was at `at_ms`.
    pub open spec fn disciplined(self, tod_ms: u32, at_ms: u64) -> Ticking {
        Ticking {
            base_stratum: STRATUM_GPS,
            synced_ms: Some(at_ms),
            ..self.anchored(at_ms, tod_ms as int % self.dwell, tod_ms as int / self.dwell)
        }
    }

    /// Whether the slot at `now_ms` is the one `interval_ms` after the one at
    /// `last_ms`, or past it: in the half of the ring that it opens.
    pub open spec fn past_due(self, last_ms: u64, interval_ms: u32, now_ms: u64) -> bool {
        (self.slot_at(now_ms) - self.slot_at(last_ms) - self.slots_in(interval_ms)) % (SLOTS as int) < SLOTS / 2
    }

    /// How long from `now_ms` to the next instant a transmission may start at.
    pub open spec fn window_wait(self, plan: Plan, now_ms: u64, airtime_ms: u32) -> int {
        let phase = self.phase_at(now_ms);
        if phase < plan.guard() {
            plan.guard() - phase
        } else if phase > plan.latest(airtime_ms) {
            self.dwell - phase + plan.guard()
        } else {
            0
        }
    }

    /// Slots an interval spans, at least one.
    pub open spec fn slots_in(self, interval_ms: u32) -> int {
        at_least_one((interval_ms + self.dwell - 1) / self.dwell)
    }

    /// The sync word of a transmission starting at `tx_start_ms`.
    pub open spec fn word(self, tx_start_ms: u64) -> SyncWord {
        SyncWord {
            slot: self.slot_at(tx_start_ms) as u32,
            stratum: self.stratum_at(tx_start_ms),
            phase: (self.phase_at(tx_start_ms) * 256 / self.dwell) as u8,
        }
    }

    /// Whether a heard clock of stratum `theirs` from `src` is better than
    /// this one at `now_ms` on the node `my_addr`.
    pub open spec fn yields_to(self, theirs: u8, src: u8, my_addr: u8, now_ms: u64) -> bool {
        let mine = self.stratum_at(now_ms);
        mine != STRATUM_GPS && (theirs < mine || theirs == mine && src < my_addr)
    }

    /// A clock that has heard nobody yet.
    pub open spec fn fresh(dwell_ms: u16, now_ms: u64, seed: u32) -> Ticking {
        Ticking {
            dwell: at_least_one(dwell_ms as int),
            origin: local(now_ms),
            origin_slot: mixed(seed) as int % (SLOTS as int),
            base_stratum: STRATUM_MAX,
            synced_ms: None,
            rng: stepped(mixed(seed)),
        }
    }

    /// When the slot after the one `now_ms` is in begins.
    pub open spec fn next_start(self, now_ms: u64) -> int {
        now_ms + self.dwell - self.phase_at(now_ms)
    }

    /// The clock after a word was heard, and what became of the word.
    pub open spec fn offered(self, word: SyncWord, src: u8, my_addr: u8, tx_start_ms: u64, now_ms: u64) -> (
        Ticking,
        Offer,
    ) {
        let theirs = time::least(word.stratum as int, STRATUM_MAX as int) as u8;
        if self.yields_to(theirs, src, my_addr, now_ms) {
            let after = self.adopting(word, tx_start_ms, now_ms);
            (after, Offer::Adopted(after.base_stratum))
        } else {
            (self, Offer::Kept)
        }
    }

    /// The clock after adopting a heard word.
    pub open spec fn adopting(self, word: SyncWord, tx_start_ms: u64, now_ms: u64) -> Ticking {
        let theirs = time::least(word.stratum as int, STRATUM_MAX as int);
        Ticking {
            base_stratum: time::least(theirs + 1, STRATUM_MAX as int) as u8,
            synced_ms: Some(now_ms),
            ..self.anchored(tx_start_ms, word.phase as int * self.dwell / 256, word.slot as int)
        }
    }

    /// Facts every use of the mapping needs: phases lie inside the dwell and
    /// slots inside their ring.
    pub proof fn lemma_ranges(self, now_ms: u64)
        requires
            self.wf(),
        ensures
            0 <= self.phase_at(now_ms) < self.dwell,
            0 <= self.slot_at(now_ms) < SLOTS,
    {
        lemma_mod_bound(local(now_ms) - self.origin, self.dwell);
        lemma_mod_bound(self.origin_slot + (local(now_ms) - self.origin) / self.dwell, SLOTS as int);
    }
}

/// A millisecond count as signed local time.
fn local_ms(ms: u64) -> (r: i64)
    ensures
        r == local(ms),
{
    if ms <= i64::MAX as u64 {
        ms as i64
    } else {
        -((u64::MAX - ms) as i64) - 1
    }
}

/// Quotient and remainder of a signed span, rounded towards the past.
fn floor_div(d: i64, m: i64) -> (r: (i64, i64))
    requires
        m >= 1,
    ensures
        r.0 == d as int / (m as int),
        r.1 == d as int % (m as int),
        0 <= r.1 < m,
        d < 0 ==> r.0 < 0,
        d >= 0 ==> 0 <= r.0 <= d,
{
    if d >= 0 {
        proof {
            lemma_div_pos_is_pos(d as int, m as int);
            lemma_div_nonincreasing(d as int, m as int);
            lemma_mod_bound(d as int, m as int);
        }
        (d / m, d % m)
    } else {
        let e: i64 = -(d + 1);
        proof {
            let q: int = e as int / (m as int);
            let k: int = e as int % (m as int);
            lemma_fundamental_div_mod(e as int, m as int);
            lemma_mod_bound(e as int, m as int);
            lemma_div_pos_is_pos(e as int, m as int);
            lemma_div_nonincreasing(e as int, m as int);
            let mm: int = m as int;
            assert(mm * (-q - 1) == -(mm * q) - mm) by (nonlinear_arith);
            assert((-q - 1) * mm == mm * (-q - 1)) by (nonlinear_arith);
            lemma_fundamental_div_mod_converse(d as int, m as int, -q - 1, m - 1 - k);
        }
        (-(e / m) - 1, m - 1 - e % m)
    }
}

impl Clock {
    /// A free-running clock started at `now_ms`. `seed` picks the starting
    /// slot and the transmit jitter; give it something that differs between
    /// nodes (the address), so two nodes booted together do not start on the
    /// same count.
    pub fn new(dwell_ms: u16, now_ms: u64, seed: u32) -> (r: Self)
        ensures
            r@.wf(),
            r@ == Ticking::fresh(dwell_ms, now_ms, seed),
    {
        let s: u32 = mix(seed);
        Self {
            dwell_ms: if dwell_ms == 0 { 1 } else { dwell_ms as u32 },
            origin_ms: local_ms(now_ms),
            origin_slot: s % SLOTS,
            base_stratum: STRATUM_MAX,
            synced_ms: None,
            rng: xorshift(s),
        }
    }

    /// Slot length, ms.
    pub fn dwell_ms(&self) -> (r: u32)
        ensures
            r == self@.dwell,
    {
        self.dwell_ms
    }

    /// The slot `now_ms` falls in.
    pub fn slot(&self, now_ms: u64) -> (r: u32)
        requires
            self@.wf(),
            self@.reaches(now_ms),
        ensures
            r == self@.slot_at(now_ms),
            r < SLOTS,
    {
        let span: i64 = local_ms(now_ms) - self.origin_ms;
        let elapsed: i64 = floor_div(span, self.dwell_ms as i64).0;
        let ahead: i64 = floor_div(elapsed, SLOTS as i64).1;
        proof {
            lemma_add_mod_noop_right(self.origin_slot as int, elapsed as int, SLOTS as int);
        }
        (self.origin_slot + ahead as u32) % SLOTS
    }

    /// Milliseconds from the start of the current slot to `now_ms`.
    pub fn phase_ms(&self, now_ms: u64) -> (r: u32)
        requires
            self@.wf(),
            self@.reaches(now_ms),
        ensures
            r == self@.phase_at(now_ms),
            r < self@.dwell,
    {
        let span: i64 = local_ms(now_ms) - self.origin_ms;
        floor_div(span, self.dwell_ms as i64).1 as u32
    }

    /// Stratum as of `now_ms`, aging included.
    pub fn stratum(&self, now_ms: u64) -> (r: u8)
        requires
            self@.wf(),
        ensures
            r == self@.stratum_at(now_ms),
            r <= STRATUM_MAX,
    {
        match self.synced_ms {
            None => STRATUM_MAX,
            Some(t) => {
                let aged: u64 = self.base_stratum as u64 + now_ms.saturating_sub(t) / AGE_STEP_MS;
                if aged < STRATUM_MAX as u64 {
                    aged as u8
                } else {
                    STRATUM_MAX
                }
            },
        }
    }

    /// Whether something has disciplined this clock at all.
    pub fn synced(&self) -> (r: bool)
        ensures
            r == (self@.synced_ms is Some),
    {
        self.synced_ms.is_some()
    }

    /// Whether the clock is still on the node's own GPS time.
    pub fn from_gps(&self, now_ms: u64) -> (r: bool)
        requires
            self@.wf(),
        ensures
            r == (self@.stratum_at(now_ms) == STRATUM_GPS),
    {
        self.stratum(now_ms) == STRATUM_GPS
    }

    /// Take the slot from GPS time: `tod_ms` is the time of day the receiver
    /// reported, and `at_ms` the local time that report was parsed.
    pub fn discipline_gps(&mut self, tod_ms: u32, at_ms: u64)
        requires
            old(self)@.wf(),
            local(at_ms) - tod_ms as int % old(self)@.dwell >= i64::MIN,
        ensures
            final(self)@.wf(),
            final(self)@ == old(self)@.disciplined(tod_ms, at_ms),
    {
        let slot: u32 = tod_ms / self.dwell_ms;
        let phase: u32 = tod_ms % self.dwell_ms;
        self.set_origin(at_ms, phase, slot);
        self.base_stratum = STRATUM_GPS;
        self.synced_ms = Some(at_ms);
    }

    /// Consider a heard frame's clock. `word` is what the frame carried,
    /// `src` its sender, `tx_start_ms` the local time the transmission began
    /// (the receive instant less the frame's time on air), and `my_addr`
    /// this node's address, which settles a tie between two clocks of the
    /// same stratum in favor of the lower address.
    ///
    /// A clock on its own GPS never adopts anything.
    pub fn offer(&mut self, word: SyncWord, src: u8, my_addr: u8, tx_start_ms: u64, now_ms: u64) -> (r: Offer)
        requires
            old(self)@.wf(),
            local(tx_start_ms) - word.phase as int * old(self)@.dwell / 256 >= i64::MIN,
        ensures
            final(self)@.wf(),
            (final(self)@, r) == old(self)@.offered(word, src, my_addr, tx_start_ms, now_ms),
            r is Kept ==> *final(self) == *old(self),
    {
        let mine: u8 = self.stratum(now_ms);
        if mine == STRATUM_GPS {
            return Offer::Kept;
        }
        let theirs: u8 = if word.stratum < STRATUM_MAX { word.stratum } else { STRATUM_MAX };
        if !(theirs < mine || (theirs == mine && src < my_addr)) {
            return Offer::Kept;
        }
        proof {
            let a: int = word.phase as int;
            let b: int = self.dwell_ms as int;
            assert(0 <= a * b <= 255 * 65_535) by (nonlinear_arith)
                requires
                    0 <= a <= 255,
                    0 <= b <= 65_535,
            ;
        }
        let phase: u32 = word.phase as u32 * self.dwell_ms / 256;
        self.set_origin(tx_start_ms, phase, word.slot);
        self.base_stratum = if theirs + 1 < STRATUM_MAX { theirs + 1 } else { STRATUM_MAX };
        self.synced_ms = Some(now_ms);
        Offer::Adopted(self.base_stratum)
    }

    /// Re-anchor the mapping: at local time `at_ms` the clock was `phase_ms`
    /// into slot `slot`.
    fn set_origin(&mut self, at_ms: u64, phase_ms: u32, slot: u32)
        requires
            old(self)@.wf(),
            local(at_ms) - phase_ms >= i64::MIN,
        ensures
            final(self)@ == old(self)@.anchored(at_ms, phase_ms as int, slot as int),
            final(self)@.wf(),
    {
        self.origin_ms = local_ms(at_ms) - phase_ms as i64;
        self.origin_slot = slot % SLOTS;
    }

    /// Slots an interval of `interval_ms` spans, at least one. A beacon
    /// interval on a hopping network is a count of slots, so "every second"
    /// at the default dwell means every slot.
    pub fn slots_for(&self, interval_ms: u32) -> (r: u32)
        requires
            self@.wf(),
        ensures
            r == self@.slots_in(interval_ms),
            r >= 1,
    {
        let d: u64 = self.dwell_ms as u64;
        let top: u64 = interval_ms as u64 + d - 1;
        let n: u64 = top / d;
        proof {
            let t: int = top as int;
            let dd: int = d as int;
            let i: int = interval_ms as int;
            assert(0 <= t / dd <= u32::MAX) by (nonlinear_arith)
                requires
                    t == i + dd - 1,
                    0 <= i <= u32::MAX,
                    1 <= dd,
            ;
        }
        if n < 1 {
            1
        } else {
            n as u32
        }
    }

    /// Whether `now_ms` is in, or past, the slot `interval_ms` after the one
    /// `last_ms` fell in. Slot numbers wrap, so "past" is the nearer half of
    /// the ring.
    pub fn interval_elapsed(&self, last_ms: u64, interval_ms: u32, now_ms: u64) -> (r: bool)
        requires
            self@.wf(),
            self@.reaches(last_ms),
            self@.reaches(now_ms),
        ensures
            r == self@.past_due(last_ms, interval_ms, now_ms),
    {
        let last: u32 = self.slot(last_ms);
        let span: u32 = self.slots_for(interval_ms);
        let due: u32 = (last + span % SLOTS) % SLOTS;
        let now: u32 = self.slot(now_ms);
        let ahead: u32 = (now + SLOTS - due) % SLOTS;
        proof {
            let m: int = SLOTS as int;
            let a: int = now as int;
            let b: int = last + span;
            lemma_add_mod_noop_right(last as int, span as int, m);
            assert(due == b % m);
            lemma_sub_mod_noop_right(a + m, b, m);
            lemma_mod_add_multiples_vanish(a - b, m);
            assert((a + m - b) == m + (a - b));
        }
        ahead < SLOTS / 2
    }

    /// Local time the slot after the one `now_ms` is in begins.
    pub fn next_slot_start_ms(&self, now_ms: u64) -> (r: u64)
        requires
            self@.wf(),
            self@.reaches(now_ms),
            now_ms + self@.dwell - self@.phase_at(now_ms) <= u64::MAX,
        ensures
            r == self@.next_start(now_ms),
    {
        let phase: u32 = self.phase_ms(now_ms);
        now_ms + (self.dwell_ms - phase) as u64
    }

    /// The sync word for a transmission starting at local time
    /// `tx_start_ms`, with the stratum as of the same instant.
    pub fn word_at(&self, tx_start_ms: u64) -> (r: SyncWord)
        requires
            self@.wf(),
            self@.reaches(tx_start_ms),
        ensures
            r == self@.word(tx_start_ms),
    {
        let phase: u32 = self.phase_ms(tx_start_ms);
        let dwell: u32 = self.dwell_ms;
        proof {
            let p: int = phase as int;
            let d: int = dwell as int;
            assert(0 <= p * 256 / d <= 255) by (nonlinear_arith)
                requires
                    0 <= p < d,
            ;
        }
        SyncWord {
            slot: self.slot(tx_start_ms),
            stratum: self.stratum(tx_start_ms),
            phase: (phase * 256 / dwell) as u8,
        }
    }

    /// The local time a transmission of `airtime_ms` should start, at or
    /// after `now_ms`: a random point inside the slot's window, in this slot
    /// if that point is still ahead and otherwise in the next. The
    /// randomness is what keeps two nodes that beacon on the same interval
    /// from colliding every slot.
    pub fn tx_start(&mut self, plan: &Plan, now_ms: u64, airtime_ms: u32) -> (r: u64)
        requires
            old(self)@.wf(),
            old(self)@.reaches(now_ms),
            plan.guard() + airtime_ms <= u32::MAX,
            now_ms + old(self)@.dwell + plan.dwell_ms <= u64::MAX,
        ensures
            final(self)@ == (Ticking { rng: stepped(old(self)@.rng), ..old(self)@ }),
            r == old(self)@.start_of(*plan, now_ms, airtime_ms),
            r >= now_ms,
    {
        let (lo, hi) = plan.start_range_ms(airtime_ms);
        self.rng = xorshift(self.rng);
        let spread: u32 = hi - lo + 1;
        let target: u32 = lo + self.rng % spread;
        let phase: u32 = self.phase_ms(now_ms);
        if phase <= target {
            now_ms + (target - phase) as u64
        } else {
            now_ms + (self.dwell_ms - phase) as u64 + target as u64
        }
    }

    /// How long a transmission of `airtime_ms` that wants to start at
    /// `now_ms` has to wait to be inside a window, or 0 if it already is.
    /// The check a sender makes at the last moment, in case its clock moved
    /// between planning the transmission and making it.
    pub fn wait_for_window_ms(&self, plan: &Plan, now_ms: u64, airtime_ms: u32) -> (r: u32)
        requires
            self@.wf(),
            self@.reaches(now_ms),
            plan.guard() + airtime_ms <= u32::MAX,
        ensures
            r == self@.window_wait(*plan, now_ms, airtime_ms),
    {
        let (lo, hi) = plan.start_range_ms(airtime_ms);
        let phase: u32 = self.phase_ms(now_ms);
        if phase < lo {
            lo - phase
        } else if phase > hi {
            self.dwell_ms - phase + lo
        } else {
            0
        }
    }
}

impl Ticking {
    /// The phase a transmission is aimed at: a random point of the plan's
    /// start range.
    pub open spec fn target_of(self, plan: Plan, airtime_ms: u32) -> int {
        plan.guard() + stepped(self.rng) as int % (plan.latest(airtime_ms) - plan.guard() + 1)
    }

    /// When a transmission planned at `now_ms` starts.
    pub open spec fn start_of(self, plan: Plan, now_ms: u64, airtime_ms: u32) -> int {
        let target = self.target_of(plan, airtime_ms);
        let phase = self.phase_at(now_ms);
        if phase <= target {
            now_ms + target - phase
        } else {
            now_ms + self.dwell - phase + target
        }
    }
}

// -- Turns -----------------------------------------------------------------------

impl Plan {
    /// Turns in a slot.
    pub open spec fn turn_count(self) -> int {
        at_least_one(self.sub_slots as int)
    }

    /// Length of a turn, ms.
    pub open spec fn turn_len(self) -> int {
        self.window() / self.turn_count()
    }

    /// A node's place in the order, counted from zero.
    pub open spec fn seat(address: u8) -> int {
        at_least_one(address as int) - 1
    }

    /// Which of every `n` slots is a node's.
    pub open spec fn turn_slot_of(address: u8, n: int) -> int {
        Plan::seat(address) % n
    }

    /// Which turn of its slot is a node's.
    pub open spec fn turn_index(self, address: u8, n: int) -> int {
        Plan::seat(address) / n % self.turn_count()
    }

    /// The phase a node's turn begins at.
    pub open spec fn turn_begins(self, address: u8, n: int) -> int {
        self.guard() + self.turn_index(address, n) * self.turn_len()
    }

    /// The latest phase a transmission may start at in a node's turn: the
    /// one from which it still ends in the turn, or the beginning for one
    /// that cannot.
    pub open spec fn turn_latest(self, address: u8, n: int, airtime_ms: u32) -> int {
        self.turn_begins(address, n) + (if airtime_ms < self.turn_len() { self.turn_len() - airtime_ms } else { 0 })
    }

    /// A turn lies inside the slot's window.
    pub proof fn lemma_turn_in_window(self, address: u8, n: int, airtime_ms: u32)
        requires
            n >= 1,
        ensures
            0 <= self.turn_len() <= self.window(),
            0 <= self.turn_index(address, n) < self.turn_count(),
            self.guard() <= self.turn_begins(address, n),
            self.turn_begins(address, n) + self.turn_len() <= self.dwell_ms - self.guard(),
            self.turn_begins(address, n) <= self.turn_latest(address, n, airtime_ms),
            self.turn_latest(address, n, airtime_ms) <= self.dwell_ms - self.guard(),
    {
        let w: int = self.window();
        let c: int = self.turn_count();
        let k: int = self.turn_index(address, n);
        let len: int = w / c;
        lemma_mod_bound(Plan::seat(address) / n, c);
        assert(0 <= len <= w && 0 <= k * len && k * len + len <= w) by (nonlinear_arith)
            requires
                w >= 0,
                c >= 1,
                0 <= k < c,
                len == w / c,
        ;
    }

    /// Length of a turn, ms: the window cut into [`Plan::sub_slots`].
    pub fn sub_slot_ms(&self) -> (r: u32)
        ensures
            r == self.turn_len(),
    {
        let c: u32 = if self.sub_slots == 0 { 1 } else { self.sub_slots as u32 };
        self.window_ms() / c
    }

    /// Which of every `n` slots is the node `address`'s: addresses take the
    /// slots of an interval in order.
    pub fn turn_slot(&self, address: u8, n: u32) -> (r: u32)
        requires
            n >= 1,
        ensures
            r == Plan::turn_slot_of(address, n as int),
            r < n,
            r < 255,
    {
        let seat: u32 = if address == 0 { 0 } else { address as u32 - 1 };
        proof {
            lemma_mod_bound(seat as int, n as int);
            lemma_mod_decreases(seat as nat, n as nat);
        }
        seat % n
    }

    /// Which turn of its slot is the node `address`'s: once every slot of the
    /// interval has a node, the next addresses take the second turn of each.
    pub fn sub_slot_of(&self, address: u8, n: u32) -> (r: u8)
        requires
            n >= 1,
        ensures
            r == self.turn_index(address, n as int),
    {
        let seat: u32 = if address == 0 { 0 } else { address as u32 - 1 };
        let c: u32 = if self.sub_slots == 0 { 1 } else { self.sub_slots as u32 };
        proof {
            lemma_mod_bound((seat / n) as int, c as int);
        }
        (seat / n % c) as u8
    }

    /// The range of slot phases a transmission of `airtime_ms` may start at
    /// in the turn of the node `address`, on an interval of `n` slots. A
    /// frame too long for a turn collapses the range to its beginning.
    pub fn start_range_for(&self, address: u8, n: u32, airtime_ms: u32) -> (r: (u32, u32))
        requires
            n >= 1,
        ensures
            r.0 == self.turn_begins(address, n as int),
            r.1 == self.turn_latest(address, n as int, airtime_ms),
            r.0 <= r.1,
    {
        proof {
            self.lemma_turn_in_window(address, n as int, airtime_ms);
        }
        let len: u32 = self.sub_slot_ms();
        let lo: u32 = self.guard_ms() + self.sub_slot_of(address, n) as u32 * len;
        (lo, lo + len.saturating_sub(airtime_ms))
    }
}

/// Nodes taking turns never overlap: of the first `n` times `turn_count`
/// addresses, on an interval of `n` slots, two either transmit in different
/// slots or end before the other begins, wherever in its turn each starts.
pub proof fn law_turns_never_overlap(p: Plan, n: int, a: u8, b: u8, airtime_ms: u32, at_a: int, at_b: int)
    requires
        n >= 1,
        1 <= a <= n * p.turn_count(),
        1 <= b <= n * p.turn_count(),
        a != b,
        airtime_ms <= p.turn_len(),
        p.turn_begins(a, n) <= at_a <= p.turn_latest(a, n, airtime_ms),
        p.turn_begins(b, n) <= at_b <= p.turn_latest(b, n, airtime_ms),
    ensures
        Plan::turn_slot_of(a, n) != Plan::turn_slot_of(b, n) || at_a + airtime_ms <= at_b || at_b + airtime_ms <= at_a,
{
    let c: int = p.turn_count();
    let len: int = p.turn_len();
    let sa: int = Plan::seat(a);
    let sb: int = Plan::seat(b);
    lemma_fundamental_div_mod(sa, n);
    lemma_fundamental_div_mod(sb, n);
    let qa: int = sa / n;
    let qb: int = sb / n;
    assert(0 <= qa < c && 0 <= qb < c) by (nonlinear_arith)
        requires
            n >= 1,
            0 <= sa < n * c,
            0 <= sb < n * c,
            qa == sa / n,
            qb == sb / n,
    ;
    lemma_small_mod(qa as nat, c as nat);
    lemma_small_mod(qb as nat, c as nat);
    if sa % n == sb % n {
        assert(qa != qb);
        assert(qa < qb ==> qa * len + len <= qb * len) by (nonlinear_arith)
            requires
                len >= 0,
        ;
        assert(qb < qa ==> qb * len + len <= qa * len) by (nonlinear_arith)
            requires
                len >= 0,
        ;
    }
}

impl Ticking {
    /// Whether the slot at `now_ms` is the node's.
    pub open spec fn own_slot(self, address: u8, interval_ms: u32, now_ms: u64) -> bool {
        let n = self.slots_in(interval_ms);
        self.slot_at(now_ms) % n == Plan::turn_slot_of(address, n)
    }

    /// Slots from `slot` to the next later one that is the node's; the ring
    /// starts over at its end.
    pub open spec fn slots_ahead(slot: int, n: int, turn: int) -> int {
        let k = (turn - slot % n) % n;
        let next = if k == 0 { n } else { k };
        if slot + next < SLOTS {
            next
        } else {
            SLOTS - slot + turn
        }
    }

    /// The phase a transmission in the node's turn is aimed at: a random
    /// point of the first half of the turn's slack, which leaves the other
    /// half to a pass that comes late.
    pub open spec fn turn_target(self, plan: Plan, address: u8, n: int, airtime_ms: u32) -> int {
        let lo = plan.turn_begins(address, n);
        let hi = plan.turn_latest(address, n, airtime_ms);
        lo + stepped(self.rng) as int % ((hi - lo) / 2 + 1)
    }

    /// When a transmission planned at `from_ms` for the node's turn starts.
    pub open spec fn turn_at(self, plan: Plan, address: u8, interval_ms: u32, from_ms: u64, airtime_ms: u32) -> int {
        let n = self.slots_in(interval_ms);
        let target = self.turn_target(plan, address, n, airtime_ms);
        let phase = self.phase_at(from_ms);
        if self.own_slot(address, interval_ms, from_ms) && phase <= target {
            from_ms + target - phase
        } else {
            let k = Ticking::slots_ahead(self.slot_at(from_ms), n, Plan::turn_slot_of(address, n));
            from_ms + k * self.dwell - phase + target
        }
    }

    /// How long from `now_ms` to the next instant of the node's turn that a
    /// transmission may start at.
    pub open spec fn turn_wait(self, plan: Plan, address: u8, interval_ms: u32, now_ms: u64, airtime_ms: u32) -> int {
        let n = self.slots_in(interval_ms);
        let phase = self.phase_at(now_ms);
        if self.within_turn(plan, address, interval_ms, now_ms, airtime_ms) {
            0
        } else if self.own_slot(address, interval_ms, now_ms) && phase < plan.turn_begins(address, n) {
            plan.turn_begins(address, n) - phase
        } else {
            let k = Ticking::slots_ahead(self.slot_at(now_ms), n, Plan::turn_slot_of(address, n));
            k * self.dwell - phase + plan.turn_begins(address, n)
        }
    }

    /// Whether a transmission may start at `now_ms` in the node's turn.
    pub open spec fn within_turn(self, plan: Plan, address: u8, interval_ms: u32, now_ms: u64, airtime_ms: u32) -> bool {
        let n = self.slots_in(interval_ms);
        &&& self.own_slot(address, interval_ms, now_ms)
        &&& plan.turn_begins(address, n) <= self.phase_at(now_ms) <= plan.turn_latest(address, n, airtime_ms)
    }

    /// Whether a beacon is owed at `now_ms`: the slot is the node's, and
    /// nothing has gone out in it yet.
    pub open spec fn owes(self, address: u8, last_ms: Option<u64>, interval_ms: u32, now_ms: u64) -> bool {
        &&& self.own_slot(address, interval_ms, now_ms)
        &&& (last_ms matches Some(t) ==> self.slot_at(t) != self.slot_at(now_ms))
    }
}

/// The next slot that is the node's is one, lies ahead, and none between is.
pub proof fn lemma_slots_ahead(slot: int, n: int, turn: int)
    requires
        0 <= slot < SLOTS,
        n >= 1,
        0 <= turn < n,
        turn < 255,
    ensures
        ({
            let k = Ticking::slots_ahead(slot, n, turn);
            &&& 1 <= k <= SLOTS + 254
            &&& (slot + k) % (SLOTS as int) % n == turn
        }),
{
    let past = slot % n;
    let q = slot / n;
    lemma_fundamental_div_mod(slot, n);
    lemma_mod_bound(slot, n);
    let gap = turn - past;
    if gap >= 0 {
        lemma_small_mod(gap as nat, n as nat);
    } else {
        lemma_mod_add_multiples_vanish(gap, n);
        lemma_small_mod((n + gap) as nat, n as nat);
    }
    let next = if gap % n == 0 { n } else { gap % n };
    if slot + next < SLOTS {
        lemma_small_mod((slot + next) as nat, SLOTS as nat);
        assert(n * q + n == n * (q + 1)) by (nonlinear_arith);
        assert(q * n == n * q && (q + 1) * n == n * (q + 1)) by (nonlinear_arith);
        if gap > 0 {
            lemma_fundamental_div_mod_converse(slot + next, n, q, turn);
        } else {
            lemma_fundamental_div_mod_converse(slot + next, n, q + 1, turn);
        }
    } else {
        let m: int = SLOTS as int;
        lemma_mod_add_multiples_vanish(turn, m);
        lemma_small_mod(turn as nat, m as nat);
        lemma_small_mod(turn as nat, n as nat);
        assert(slot + (m - slot + turn) == m + turn);
    }
}

/// Slots from `slot` to the next later one that is the node's.
fn slots_to(slot: u32, n: u32, turn: u32) -> (r: u64)
    requires
        slot < SLOTS,
        turn < n,
        turn < 255,
    ensures
        r == Ticking::slots_ahead(slot as int, n as int, turn as int),
        1 <= r <= SLOTS + 254,
{
    let past: u32 = slot % n;
    let gap: u32 = if turn >= past { turn - past } else { n - past + turn };
    proof {
        let d: int = turn - past;
        if turn >= past {
            lemma_small_mod(d as nat, n as nat);
        } else {
            lemma_mod_add_multiples_vanish(d, n as int);
            lemma_small_mod((n + d) as nat, n as nat);
        }
        lemma_slots_ahead(slot as int, n as int, turn as int);
    }
    let next: u32 = if gap == 0 { n } else { gap };
    if slot as u64 + (next as u64) < SLOTS as u64 {
        next as u64
    } else {
        (SLOTS - slot) as u64 + turn as u64
    }
}

impl Clock {
    /// Whether the node `address` owes a transmission at `now_ms` on an
    /// interval of `interval_ms`: the slot is the node's, and its last
    /// transmission, if any, started in another.
    pub fn turn_due(&self, plan: &Plan, address: u8, last_ms: Option<u64>, interval_ms: u32, now_ms: u64) -> (r: bool)
        requires
            self@.wf(),
            self@.reaches(now_ms),
            last_ms matches Some(t) ==> self@.reaches(t),
        ensures
            r == self@.owes(address, last_ms, interval_ms, now_ms),
    {
        let n: u32 = self.slots_for(interval_ms);
        let slot: u32 = self.slot(now_ms);
        if slot % n != plan.turn_slot(address, n) {
            return false;
        }
        match last_ms {
            Some(t) => self.slot(t) != slot,
            None => true,
        }
    }

    /// The local time a transmission of `airtime_ms` should start in the turn
    /// of the node `address`, at or after `from_ms`: a random point of the
    /// turn, in this slot if it is the node's and that point is still ahead,
    /// otherwise in the node's next.
    pub fn turn_start(&mut self, plan: &Plan, address: u8, interval_ms: u32, from_ms: u64, airtime_ms: u32) -> (r: u64)
        requires
            old(self)@.wf(),
            old(self)@.reaches(from_ms),
            old(self)@.turn_at(*plan, address, interval_ms, from_ms, airtime_ms) <= u64::MAX,
        ensures
            final(self)@ == (Ticking { rng: stepped(old(self)@.rng), ..old(self)@ }),
            r == old(self)@.turn_at(*plan, address, interval_ms, from_ms, airtime_ms),
    {
        let n: u32 = self.slots_for(interval_ms);
        let slot: u32 = self.slot(from_ms);
        let turn: u32 = plan.turn_slot(address, n);
        let (lo, hi) = plan.start_range_for(address, n, airtime_ms);
        proof {
            plan.lemma_turn_in_window(address, n as int, airtime_ms);
        }
        self.rng = xorshift(self.rng);
        let half: u32 = (hi - lo) / 2 + 1;
        let target: u32 = lo + self.rng % half;
        let phase: u32 = self.phase_ms(from_ms);
        if slot % n == turn && phase <= target {
            return from_ms + (target - phase) as u64;
        }
        let k: u64 = slots_to(slot, n, turn);
        let dwell: u64 = self.dwell_ms as u64;
        proof {
            let kk: int = k as int;
            let d: int = dwell as int;
            assert(d <= kk * d <= 0x20_0000 * 65_535) by (nonlinear_arith)
                requires
                    1 <= kk <= 0x20_0000,
                    1 <= d <= 65_535,
            ;
        }
        let wait: u64 = k * dwell - phase as u64 + target as u64;
        from_ms + wait
    }

    /// How long a transmission of `airtime_ms` that wants to start at
    /// `now_ms` has to wait to be inside the turn of the node `address`, or 0
    /// if it already is.
    pub fn wait_for_turn_ms(&self, plan: &Plan, address: u8, interval_ms: u32, now_ms: u64, airtime_ms: u32) -> (r: u64)
        requires
            self@.wf(),
            self@.reaches(now_ms),
        ensures
            r == self@.turn_wait(*plan, address, interval_ms, now_ms, airtime_ms),
    {
        let n: u32 = self.slots_for(interval_ms);
        let slot: u32 = self.slot(now_ms);
        let turn: u32 = plan.turn_slot(address, n);
        let (lo, hi) = plan.start_range_for(address, n, airtime_ms);
        let phase: u32 = self.phase_ms(now_ms);
        if slot % n == turn && phase <= hi {
            return if phase < lo {
                (lo - phase) as u64
            } else {
                0
            };
        }
        let k: u64 = slots_to(slot, n, turn);
        let dwell: u64 = self.dwell_ms as u64;
        proof {
            plan.lemma_turn_in_window(address, n as int, airtime_ms);
            let kk: int = k as int;
            let d: int = dwell as int;
            assert(d <= kk * d <= 0x20_0000 * 65_535) by (nonlinear_arith)
                requires
                    1 <= kk <= 0x20_0000,
                    1 <= d <= 65_535,
            ;
        }
        k * dwell - phase as u64 + lo as u64
    }

    /// Whether a transmission of `airtime_ms` that starts at `now_ms` starts,
    /// and as far as it can ends, in the turn of the node `address`. The
    /// check a sender makes at the last moment, in case its clock moved
    /// between planning the transmission and making it.
    pub fn in_turn(&self, plan: &Plan, address: u8, interval_ms: u32, now_ms: u64, airtime_ms: u32) -> (r: bool)
        requires
            self@.wf(),
            self@.reaches(now_ms),
        ensures
            r == self@.within_turn(*plan, address, interval_ms, now_ms, airtime_ms),
    {
        let n: u32 = self.slots_for(interval_ms);
        let slot: u32 = self.slot(now_ms);
        let (lo, hi) = plan.start_range_for(address, n, airtime_ms);
        let phase: u32 = self.phase_ms(now_ms);
        slot % n == plan.turn_slot(address, n) && lo <= phase && phase <= hi
    }
}

// -- Laws of the clock -----------------------------------------------------------

/// Moving `t` milliseconds on from an instant `phase` into `slot` lands
/// `(phase + t) mod dwell` into the slot that many dwells later.
proof fn lemma_advance(c: Ticking, from_ms: u64, t: int)
    requires
        c.wf(),
        0 <= t,
        from_ms + t <= i64::MAX,
    ensures
        ({
            let at = (from_ms + t) as u64;
            let p = c.phase_at(from_ms) + t;
            &&& c.phase_at(at) == p % c.dwell
            &&& c.slot_at(at) == (c.slot_at(from_ms) + p / c.dwell) % (SLOTS as int)
        }),
{
    let d = c.dwell;
    let m: int = SLOTS as int;
    let x = from_ms - c.origin;
    let q = x / d;
    let k = x % d;
    lemma_fundamental_div_mod(x, d);
    lemma_mod_bound(x, d);
    let p = k + t;
    lemma_fundamental_div_mod(p, d);
    lemma_mod_bound(p, d);
    let e = p / d;
    assert(d * q + d * e == d * (q + e)) by (nonlinear_arith);
    assert((q + e) * d == d * (q + e)) by (nonlinear_arith);
    lemma_fundamental_div_mod_converse(x + t, d, q + e, p % d);
    lemma_add_mod_noop(c.origin_slot + q, e, m);
    lemma_mod_twice(c.origin_slot + q, m);
    lemma_add_mod_noop((c.origin_slot + q) % m, e, m);
    assert(c.origin_slot + q + e == c.origin_slot + (q + e));
}

/// A clock anchored somewhere in a slot reads that slot and that phase there.
proof fn lemma_anchored(c: Ticking, at_ms: u64, phase: int, slot: int)
    requires
        c.wf(),
        0 <= phase < c.dwell,
    ensures
        c.anchored(at_ms, phase, slot).slot_at(at_ms) == slot % (SLOTS as int),
        c.anchored(at_ms, phase, slot).phase_at(at_ms) == phase,
{
    lemma_small_mod(phase as nat, c.dwell as nat);
    lemma_basic_div(phase, c.dwell);
    lemma_mod_twice(slot, SLOTS as int);
}

/// GPS time maps straight onto slots: disciplined to a time of day, a clock
/// reads the slot and the phase of that time at the instant it was parsed.
pub proof fn law_gps_disciplines_to_time_of_day(c: Ticking, tod_ms: u32, at_ms: u64)
    requires
        c.wf(),
    ensures
        ({
            let g = c.disciplined(tod_ms, at_ms);
            &&& g.slot_at(at_ms) == tod_ms as int / c.dwell % (SLOTS as int)
            &&& g.phase_at(at_ms) == tod_ms as int % c.dwell
            &&& g.stratum_at(at_ms) == STRATUM_GPS
            &&& g.dwell == c.dwell
        }),
{
    lemma_mod_bound(tod_ms as int, c.dwell);
    lemma_anchored(c, at_ms, tod_ms as int % c.dwell, tod_ms as int / c.dwell);
    let g = c.disciplined(tod_ms, at_ms);
    let a = c.anchored(at_ms, tod_ms as int % c.dwell, tod_ms as int / c.dwell);
    assert(g.origin == a.origin && g.origin_slot == a.origin_slot && g.dwell == a.dwell);
}

/// Nodes with a fix agree without hearing anyone: two clocks disciplined to
/// one time of day, each at its own local instant, read the same slot and the
/// same phase ever after, and so share a channel.
pub proof fn law_synced_nodes_share_a_slot(a: Ticking, b: Ticking, tod_ms: u32, at_a: u64, at_b: u64, t: int, p: Plan)
    requires
        a.wf(),
        b.wf(),
        a.dwell == b.dwell,
        0 <= t,
        at_a + t <= i64::MAX,
        at_b + t <= i64::MAX,
        at_a >= a.dwell,
        at_b >= b.dwell,
    ensures
        ({
            let ga = a.disciplined(tod_ms, at_a);
            let gb = b.disciplined(tod_ms, at_b);
            let sa = ga.slot_at((at_a + t) as u64);
            let sb = gb.slot_at((at_b + t) as u64);
            &&& sa == sb
            &&& ga.phase_at((at_a + t) as u64) == gb.phase_at((at_b + t) as u64)
            &&& p.channel_of(sa as u32) == p.channel_of(sb as u32)
        }),
{
    law_gps_disciplines_to_time_of_day(a, tod_ms, at_a);
    law_gps_disciplines_to_time_of_day(b, tod_ms, at_b);
    lemma_mod_bound(tod_ms as int, a.dwell);
    let ga = a.disciplined(tod_ms, at_a);
    let gb = b.disciplined(tod_ms, at_b);
    lemma_mod_bound(tod_ms as int / a.dwell, SLOTS as int);
    lemma_advance(ga, at_a, t);
    lemma_advance(gb, at_b, t);
}

/// A follower that hears a frame ends up on the sender's slot, and on its
/// phase to within the sync word's resolution: never ahead, and behind by no
/// more than a 256th of the dwell and one millisecond.
pub proof fn law_a_heard_frame_aligns_a_follower(a: Ticking, b: Ticking, tx_ms: u64, rx_start_ms: u64, now_ms: u64)
    requires
        a.wf(),
        b.wf(),
        a.dwell == b.dwell,
    ensures
        ({
            let f = b.adopting(a.word(tx_ms), rx_start_ms, now_ms);
            &&& f.slot_at(rx_start_ms) == a.slot_at(tx_ms)
            &&& f.phase_at(rx_start_ms) <= a.phase_at(tx_ms) <= f.phase_at(rx_start_ms) + a.dwell / 256 + 1
        }),
{
    a.lemma_ranges(tx_ms);
    let p = a.phase_at(tx_ms);
    let d = a.dwell;
    let w = p * 256 / d;
    assert(0 <= w <= 255 && w * d <= p * 256 && p * 256 < w * d + d) by (nonlinear_arith)
        requires
            0 <= p < d,
            w == p * 256 / d,
    ;
    assert(a.word(tx_ms).phase == w);
    let back = w * d / 256;
    let f = b.adopting(a.word(tx_ms), rx_start_ms, now_ms);
    lemma_anchored(b, rx_start_ms, back, a.slot_at(tx_ms));
    lemma_small_mod(a.slot_at(tx_ms) as nat, SLOTS as nat);
    let base = b.anchored(rx_start_ms, back, a.slot_at(tx_ms));
    assert(f.origin == base.origin && f.origin_slot == base.origin_slot && f.dwell == base.dwell);
}

/// A clock on its own GPS never adopts anything, whatever it hears.
pub proof fn law_gps_outranks_everything(c: Ticking, theirs: u8, src: u8, my_addr: u8, now_ms: u64)
    requires
        c.stratum_at(now_ms) == STRATUM_GPS,
    ensures
        !c.yields_to(theirs, src, my_addr, now_ms),
{
}

/// Aging only ever worsens a clock, to the ceiling and no further.
pub proof fn law_a_clock_only_ages(c: Ticking, now_ms: u64, later_ms: u64)
    requires
        c.wf(),
        now_ms <= later_ms,
    ensures
        c.stratum_at(now_ms) <= c.stratum_at(later_ms) <= STRATUM_MAX,
{
    if let Some(t) = c.synced_ms {
        lemma_div_is_ordered(time::elapsed(t, now_ms), time::elapsed(t, later_ms), AGE_STEP_MS as int);
    }
}

/// A planned transmission lands inside the window of its slot: it starts no
/// earlier than now, at a phase between the guard and the latest from which
/// the frame still ends before the far guard.
pub proof fn law_tx_start_lands_in_the_window(c: Ticking, p: Plan, now_ms: u64, airtime_ms: u32)
    requires
        c.wf(),
        c.dwell == p.dwell_ms,
        p.guard() > 0,
        c.start_of(p, now_ms, airtime_ms) <= i64::MAX,
    ensures
        ({
            let start = c.start_of(p, now_ms, airtime_ms);
            &&& now_ms <= start
            &&& p.guard() <= c.phase_at(start as u64) <= p.latest(airtime_ms)
            &&& c.phase_at(start as u64) == c.target_of(p, airtime_ms)
        }),
{
    c.lemma_ranges(now_ms);
    let span = p.latest(airtime_ms) - p.guard() + 1;
    lemma_mod_bound(stepped(c.rng) as int, span);
    let target = c.target_of(p, airtime_ms);
    let phase = c.phase_at(now_ms);
    let t = c.start_of(p, now_ms, airtime_ms) - now_ms;
    lemma_advance(c, now_ms, t);
    if phase <= target {
        lemma_small_mod(target as nat, c.dwell as nat);
    } else {
        lemma_mod_add_multiples_vanish(target, c.dwell);
        lemma_small_mod(target as nat, c.dwell as nat);
    }
}

/// Waiting as long as it is told puts a sender inside the window.
pub proof fn law_waiting_reaches_the_window(c: Ticking, p: Plan, now_ms: u64, airtime_ms: u32, wait: int)
    requires
        c.wf(),
        c.dwell == p.dwell_ms,
        wait == (if c.phase_at(now_ms) < p.guard() {
            p.guard() - c.phase_at(now_ms)
        } else if c.phase_at(now_ms) > p.latest(airtime_ms) {
            c.dwell - c.phase_at(now_ms) + p.guard()
        } else {
            0
        }),
        now_ms + wait <= i64::MAX,
    ensures
        p.guard() <= c.phase_at((now_ms + wait) as u64) <= p.latest(airtime_ms),
{
    c.lemma_ranges(now_ms);
    lemma_advance(c, now_ms, wait);
    let phase = c.phase_at(now_ms);
    if phase > p.latest(airtime_ms) {
        lemma_mod_add_multiples_vanish(p.guard(), c.dwell);
    }
    lemma_small_mod(p.guard() as nat, c.dwell as nat);
    lemma_small_mod(phase as nat, c.dwell as nat);
}

/// The wait for the window is the least that reaches it: it ends past the
/// guard, and early enough for a frame that fits to end before the far one,
/// and nothing sooner does.
pub proof fn law_the_wait_for_the_window_is_the_least(c: Ticking, p: Plan, now_ms: u64, airtime_ms: u32, sooner: int)
    requires
        c.wf(),
        c.dwell == p.dwell_ms,
        now_ms + c.window_wait(p, now_ms, airtime_ms) <= i64::MAX,
        2 * p.guard() + airtime_ms <= p.dwell_ms,
    ensures
        ({
            let wait = c.window_wait(p, now_ms, airtime_ms);
            let phase = c.phase_at((now_ms + wait) as u64);
            &&& p.guard() <= phase
            &&& phase + airtime_ms + p.guard() <= p.dwell_ms
        }),
        0 <= sooner < c.window_wait(p, now_ms, airtime_ms) ==> ({
            let phase = c.phase_at((now_ms + sooner) as u64);
            phase < p.guard() || phase + airtime_ms + p.guard() > p.dwell_ms
        }),
{
    let wait = c.window_wait(p, now_ms, airtime_ms);
    c.lemma_ranges(now_ms);
    let phase = c.phase_at(now_ms);
    lemma_advance(c, now_ms, wait);
    lemma_small_mod(p.guard() as nat, c.dwell as nat);
    lemma_small_mod(phase as nat, c.dwell as nat);
    if 0 <= sooner < wait {
        lemma_advance(c, now_ms, sooner);
    }
    if phase > p.latest(airtime_ms) {
        lemma_mod_add_multiples_vanish(p.guard(), c.dwell);
        if 0 <= sooner < c.dwell - phase {
            lemma_small_mod((phase + sooner) as nat, c.dwell as nat);
        } else if c.dwell - phase <= sooner < wait {
            lemma_mod_add_multiples_vanish(phase + sooner - c.dwell, c.dwell);
            lemma_small_mod((phase + sooner - c.dwell) as nat, c.dwell as nat);
        }
    } else if 0 <= sooner < wait {
        lemma_small_mod((phase + sooner) as nat, c.dwell as nat);
    }
}

/// A sender inside the window does not wait.
pub proof fn law_the_window_is_open_inside_it(c: Ticking, p: Plan, now_ms: u64, airtime_ms: u32)
    requires
        c.wf(),
    ensures
        p.guard() <= c.phase_at(now_ms) && c.phase_at(now_ms) + airtime_ms + p.guard() <= p.dwell_ms ==> c.window_wait(
            p,
            now_ms,
            airtime_ms,
        ) == 0,
        0 <= c.window_wait(p, now_ms, airtime_ms),
{
    c.lemma_ranges(now_ms);
}

/// A transmission planned for a turn lands in it: in a slot that is the
/// node's, in the first half of what the turn allows, and no earlier than
/// asked.
pub proof fn law_a_turn_lands_in_the_turn(c: Ticking, p: Plan, address: u8, interval_ms: u32, from_ms: u64, airtime_ms: u32)
    requires
        c.wf(),
        c.dwell == p.dwell_ms,
        p.guard() > 0,
        c.turn_at(p, address, interval_ms, from_ms, airtime_ms) <= i64::MAX,
    ensures
        ({
            let start = c.turn_at(p, address, interval_ms, from_ms, airtime_ms);
            &&& from_ms <= start
            &&& c.within_turn(p, address, interval_ms, start as u64, airtime_ms)
        }),
{
    let n = c.slots_in(interval_ms);
    let turn = Plan::turn_slot_of(address, n);
    let slot = c.slot_at(from_ms);
    let phase = c.phase_at(from_ms);
    let d = c.dwell;
    let m: int = SLOTS as int;
    c.lemma_ranges(from_ms);
    p.lemma_turn_in_window(address, n, airtime_ms);
    lemma_mod_bound(Plan::seat(address), n);
    lemma_mod_decreases(Plan::seat(address) as nat, n as nat);
    let lo = p.turn_begins(address, n);
    let hi = p.turn_latest(address, n, airtime_ms);
    lemma_mod_bound(stepped(c.rng) as int, (hi - lo) / 2 + 1);
    let target = c.turn_target(p, address, n, airtime_ms);
    assert(lo <= target <= hi);
    assert(target < d);
    let t = c.turn_at(p, address, interval_ms, from_ms, airtime_ms) - from_ms;
    if c.own_slot(address, interval_ms, from_ms) && phase <= target {
        lemma_advance(c, from_ms, t);
        lemma_small_mod(target as nat, d as nat);
        lemma_basic_div(target, d);
        lemma_small_mod(slot as nat, m as nat);
    } else {
        let k = Ticking::slots_ahead(slot, n, turn);
        lemma_slots_ahead(slot, n, turn);
        assert(d <= k * d) by (nonlinear_arith)
            requires
                1 <= k,
                1 <= d,
        ;
        lemma_advance(c, from_ms, t);
        assert(phase + t == k * d + target);
        lemma_fundamental_div_mod_converse(k * d + target, d, k, target);
    }
}

/// Waiting as long as it is told puts a sender inside the node's turn.
pub proof fn law_waiting_reaches_the_turn(c: Ticking, p: Plan, address: u8, interval_ms: u32, now_ms: u64, airtime_ms: u32)
    requires
        c.wf(),
        c.dwell == p.dwell_ms,
        p.guard() > 0,
        now_ms + c.turn_wait(p, address, interval_ms, now_ms, airtime_ms) <= i64::MAX,
    ensures
        ({
            let wait = c.turn_wait(p, address, interval_ms, now_ms, airtime_ms);
            &&& 0 <= wait
            &&& c.within_turn(p, address, interval_ms, (now_ms + wait) as u64, airtime_ms)
        }),
{
    let n = c.slots_in(interval_ms);
    let turn = Plan::turn_slot_of(address, n);
    let slot = c.slot_at(now_ms);
    let phase = c.phase_at(now_ms);
    let d = c.dwell;
    c.lemma_ranges(now_ms);
    p.lemma_turn_in_window(address, n, airtime_ms);
    lemma_mod_bound(Plan::seat(address), n);
    lemma_mod_decreases(Plan::seat(address) as nat, n as nat);
    let lo = p.turn_begins(address, n);
    let t = c.turn_wait(p, address, interval_ms, now_ms, airtime_ms);
    if !c.within_turn(p, address, interval_ms, now_ms, airtime_ms) {
        if c.own_slot(address, interval_ms, now_ms) && phase < lo {
            lemma_advance(c, now_ms, t);
            lemma_small_mod(lo as nat, d as nat);
            lemma_basic_div(lo, d);
            lemma_small_mod(slot as nat, SLOTS as nat);
        } else {
            let k = Ticking::slots_ahead(slot, n, turn);
            lemma_slots_ahead(slot, n, turn);
            assert(d <= k * d) by (nonlinear_arith)
                requires
                    1 <= k,
                    1 <= d,
            ;
            lemma_advance(c, now_ms, t);
            assert(phase + t == k * d + lo);
            lemma_fundamental_div_mod_converse(k * d + lo, d, k, lo);
        }
    }
}

// -- What the plan and the clock are for -----------------------------------------

/// The channels of a plan: neighbors lie exactly a step apart and the plan is
/// centered, so between them every carrier is where its config puts it.
pub proof fn law_channels_lie_a_step_apart(p: Plan, i: u8)
    requires
        i + 1 < p.channels,
        (p.channels - 1) * p.step_khz * 500 <= p.center_hz,
        p.center_hz + (p.channels - 1) * p.step_khz * 500 <= u32::MAX,
    ensures
        p.carrier((i + 1) as u8) - p.carrier(i) == p.step_khz * 1000,
        p.carrier(0) + p.carrier((p.channels - 1) as u8) == 2 * p.center_hz,
        p.carrier(0) <= p.carrier(i),
{
    let n = p.channels as int;
    let h: int = p.step_khz * 500;
    let k = i as int;
    assert((n - 1) * p.step_khz * 500 == (n - 1) * h) by (nonlinear_arith)
        requires
            h == p.step_khz * 500,
    ;
    assert((2 * (k + 1) - (n - 1)) * h - (2 * k - (n - 1)) * h == 2 * h) by (nonlinear_arith);
    assert((2 * 0 - (n - 1)) * h == -((n - 1) * h)) by (nonlinear_arith);
    assert((2 * (n - 1) - (n - 1)) * h == (n - 1) * h) by (nonlinear_arith);
    assert(-((n - 1) * h) <= (2 * k - (n - 1)) * h && (2 * (k + 1) - (n - 1)) * h <= (n - 1) * h) by (nonlinear_arith)
        requires
            0 <= k,
            k + 1 <= n - 1,
            0 <= h,
    ;
    assert((2 * k - (n - 1)) * h <= (2 * (k + 1) - (n - 1)) * h) by (nonlinear_arith)
        requires
            0 <= h,
    ;
}

/// A plan of one channel, or of none, is its center; an index past the plan is
/// its last channel; and where a carrier would leave what a `u32` holds, it
/// stops there.
pub proof fn law_a_channel_past_the_plan_is_its_last(p: Plan, i: u8)
    ensures
        p.channels <= 1 ==> p.carrier(i) == p.center_hz,
        p.channels > 0 && i >= p.channels ==> p.carrier(i) == p.carrier((p.channels - 1) as u8),
        i < p.channels ==> ({
            let twice = 2 * p.center_hz + (2 * i + 1 - p.channels) * p.step_khz * 1000;
            &&& twice < 0 ==> p.carrier(i) == 0
            &&& twice > 2 * u32::MAX ==> p.carrier(i) == u32::MAX
            &&& 0 <= twice <= 2 * u32::MAX ==> 2 * p.carrier(i) == twice
        }),
{
    let n = at_least_one(p.channels as int);
    let k = time::least(i as int, n - 1);
    let a = 2 * k - (n - 1);
    let h: int = p.step_khz * 500;
    assert(a == 0 ==> a * h == 0) by (nonlinear_arith);
    assert(a * p.step_khz * 1000 == 2 * (a * h)) by (nonlinear_arith)
        requires
            h == p.step_khz * 500,
    ;
}

/// The slot ring starts over: a slot number past it uses the channel of the
/// one it wraps to, so nodes that agree modulo the ring agree on the channel.
pub proof fn law_the_channel_repeats_with_the_ring(p: Plan, slot: u32)
    requires
        slot + SLOTS <= u32::MAX,
    ensures
        p.channel_of((slot + SLOTS) as u32) == p.channel_of(slot),
{
    lemma_mod_add_multiples_vanish(slot as int, SLOTS as int);
}

/// The guard is a fifth of the slot up to a hundred milliseconds, one stands
/// at each end of the window, and a frame that fits starts as late as still
/// leaves it the far one; one that does not starts at the near one.
pub proof fn law_the_guards_frame_the_window(p: Plan, airtime_ms: u32)
    ensures
        p.dwell_ms >= 500 ==> p.guard() == 100,
        p.dwell_ms < 500 ==> 5 * p.guard() <= p.dwell_ms < 5 * p.guard() + 5,
        p.guard() + p.window() + p.guard() == p.dwell_ms,
        p.guard() + airtime_ms + p.guard() <= p.dwell_ms ==> p.latest(airtime_ms) + airtime_ms + p.guard() == p.dwell_ms,
        p.guard() + airtime_ms + p.guard() > p.dwell_ms ==> p.latest(airtime_ms) == p.guard(),
{
}

/// A slot is cut into as many turns as whole beacons fit its window: so many,
/// each of the milliseconds that hold one, do, and one more would not.
pub proof fn law_a_slot_holds_its_turns(cfg: RadioConfig, window: int, unit_ms: int)
    requires
        cfg.bandwidth_khz > 0,
        cfg.spreading_factor <= 25,
        0 <= window <= 65_535,
        1 <= unit_ms,
        unit_ms * 1000 >= cfg.unit_us(),
        unit_ms > 1 ==> (unit_ms - 1) * 1000 < cfg.unit_us(),
    ensures
        ({
            let n = Plan::turns_in(cfg, window);
            &&& 1 <= n <= 255
            &&& n > 1 ==> n * unit_ms <= window
            &&& n < 255 ==> window < (n + 1) * unit_ms
        }),
{
    let u = at_least_one(ms_up(cfg.unit_us()));
    let q = window / u;
    let n = Plan::turns_in(cfg, window);
    assert(u == unit_ms);
    lemma_fundamental_div_mod(window, u);
    lemma_mod_bound(window, u);
    assert(u * q == q * u && u * q + u == (q + 1) * u) by (nonlinear_arith);
    if n < q {
        assert(n * u <= q * u) by (nonlinear_arith)
            requires
                n <= q,
                1 <= u,
        ;
    }
    if q < 1 {
        assert((q + 1) * u <= (n + 1) * u) by (nonlinear_arith)
            requires
                q <= n,
                1 <= u,
        ;
    }
}

/// A sync word's fields are bits 0-7, 8-11 and 12-31 of the number it travels
/// as.
pub proof fn law_a_sync_word_is_its_bits(w: SyncWord)
    requires
        w.slot < SLOTS,
        w.stratum < 16,
    ensures
        w.packed() & 0xFF == w.phase,
        (w.packed() >> 8) & 0xF == w.stratum,
        w.packed() >> 12 == w.slot,
{
    let slot = w.slot;
    let stratum = w.stratum as u32;
    let phase = w.phase as u32;
    let v = w.packed();
    lemma_small_mod(slot as nat, SLOTS as nat);
    lemma_small_mod(stratum as nat, 16);
    assert(v == slot * 4096 + stratum * 256 + phase);
    assert(v & 0xFF == phase && (v >> 8) & 0xF == stratum && v >> 12 == slot) by (bit_vector)
        requires
            v == slot * 4096 + stratum * 256 + phase,
            slot < 0x10_0000,
            stratum < 16,
            phase < 256,
    ;
}

/// The clock ticks: through the rest of a slot its phase counts milliseconds,
/// and at the end of it the next slot of the ring begins.
pub proof fn law_a_slot_lasts_a_dwell(c: Ticking, now_ms: u64, t: int)
    requires
        c.wf(),
        0 <= t <= c.dwell - c.phase_at(now_ms),
        now_ms + t <= i64::MAX,
    ensures
        ({
            let at = (now_ms + t) as u64;
            &&& t < c.dwell - c.phase_at(now_ms) ==> c.slot_at(at) == c.slot_at(now_ms) && c.phase_at(at) == c.phase_at(
                now_ms,
            ) + t
            &&& t == c.dwell - c.phase_at(now_ms) ==> c.phase_at(at) == 0 && c.slot_at(at) == (if c.slot_at(now_ms) + 1
                == SLOTS {
                0
            } else {
                c.slot_at(now_ms) + 1
            })
        }),
{
    let d = c.dwell;
    let p = c.phase_at(now_ms) + t;
    c.lemma_ranges(now_ms);
    lemma_advance(c, now_ms, t);
    if p < d {
        lemma_small_mod(p as nat, d as nat);
        lemma_basic_div(p, d);
        lemma_small_mod(c.slot_at(now_ms) as nat, SLOTS as nat);
    } else {
        lemma_fundamental_div_mod_converse(d, d, 1, 0);
        if c.slot_at(now_ms) + 1 < SLOTS {
            lemma_small_mod((c.slot_at(now_ms) + 1) as nat, SLOTS as nat);
        } else {
            lemma_mod_self_0(SLOTS as int);
        }
    }
}

/// An interval spans the fewest slots that cover it.
pub proof fn law_an_interval_is_the_fewest_slots_that_cover_it(c: Ticking, interval_ms: u32)
    requires
        c.wf(),
    ensures
        ({
            let n = c.slots_in(interval_ms);
            &&& interval_ms <= n * c.dwell
            &&& interval_ms > 0 ==> (n - 1) * c.dwell < interval_ms
            &&& interval_ms == 0 ==> n == 1
        }),
{
    let d = c.dwell;
    let top = interval_ms + d - 1;
    let q = top / d;
    lemma_fundamental_div_mod(top, d);
    lemma_mod_bound(top, d);
    assert(q * d == d * q && (q - 1) * d == d * q - d) by (nonlinear_arith);
    if interval_ms == 0 {
        lemma_basic_div(top, d);
    } else {
        assert(q >= 1) by (nonlinear_arith)
            requires
                d * q > 0,
                d >= 1,
        ;
    }
}

/// A node's turn comes once an interval: the next slot that is the node's is
/// ahead, no slot between is, and away from the ring's end it begins at least
/// an interval of local time after the last began.
pub proof fn law_turns_come_once_an_interval(c: Ticking, address: u8, interval_ms: u32, slot: int)
    requires
        c.wf(),
        0 <= slot,
        slot % c.slots_in(interval_ms) == Plan::turn_slot_of(address, c.slots_in(interval_ms)),
        slot + c.slots_in(interval_ms) < SLOTS,
    ensures
        ({
            let n = c.slots_in(interval_ms);
            let turn = Plan::turn_slot_of(address, n);
            let k = Ticking::slots_ahead(slot, n, turn);
            &&& k == n
            &&& k * c.dwell >= interval_ms
            &&& (slot + k) % n == turn
            &&& forall|j: int| 0 < j < k ==> #[trigger] ((slot + j) % n) != turn
        }),
{
    let n = c.slots_in(interval_ms);
    let turn = Plan::turn_slot_of(address, n);
    law_an_interval_is_the_fewest_slots_that_cover_it(c, interval_ms);
    lemma_small_mod(0, n as nat);
    lemma_mod_add_multiples_vanish(slot, n);
    lemma_mod_bound(slot, n);
    lemma_fundamental_div_mod(slot, n);
    let q = slot / n;
    assert forall|j: int| 0 < j < n implies #[trigger] ((slot + j) % n) != turn by {
        assert(n * (q + 1) == n * q + n && q * n == n * q && (q + 1) * n == n * (q + 1)) by (nonlinear_arith);
        if turn + j < n {
            lemma_fundamental_div_mod_converse(slot + j, n, q, turn + j);
        } else {
            lemma_fundamental_div_mod_converse(slot + j, n, q + 1, turn + j - n);
        }
    }
}

/// Addresses take the slots of an interval in order, then the second turn of
/// each: the next address has the next slot, and `n` addresses on the same
/// slot's next turn. A turn is an equal share of the window, in order.
pub proof fn law_turns_are_dealt_in_order(p: Plan, n: int, address: u8)
    requires
        n >= 1,
        1 <= address,
        address + n <= 255,
    ensures
        Plan::turn_slot_of(1, n) == 0,
        Plan::turn_slot_of((address + 1) as u8, n) == (Plan::turn_slot_of(address, n) + 1) % n,
        Plan::turn_slot_of((address + n) as u8, n) == Plan::turn_slot_of(address, n),
        p.turn_index(1, n) == 0,
        p.turn_begins(1, n) == p.guard(),
        p.turn_index((address + n) as u8, n) == (p.turn_index(address, n) + 1) % p.turn_count(),
        p.turn_begins(address, n) == p.guard() + p.turn_index(address, n) * p.turn_len(),
        p.turn_len() * p.turn_count() <= p.window() < (p.turn_len() + 1) * p.turn_count(),
        p.sub_slots > 0 ==> p.turn_count() == p.sub_slots,
{
    let s = address - 1;
    let c = p.turn_count();
    lemma_small_mod(0, n as nat);
    lemma_basic_div(0, n);
    lemma_small_mod(0, c as nat);
    lemma_add_mod_noop(s, 1, n);
    lemma_mod_twice(s, n);
    lemma_add_mod_noop(s % n, 1, n);
    lemma_mod_add_multiples_vanish(s, n);
    assert((s + n) / n == s / n + 1) by {
        lemma_fundamental_div_mod(s, n);
        lemma_mod_bound(s, n);
        let q = s / n;
        assert(n * q + n == n * (q + 1) && (q + 1) * n == n * (q + 1)) by (nonlinear_arith);
        lemma_fundamental_div_mod_converse(s + n, n, q + 1, s % n);
    }
    lemma_add_mod_noop(s / n, 1, c);
    lemma_mod_twice(s / n, c);
    lemma_add_mod_noop(s / n % c, 1, c);
    let w = p.window();
    lemma_fundamental_div_mod(w, c);
    lemma_mod_bound(w, c);
    let l = w / c;
    assert(c * l == l * c && (l + 1) * c == l * c + c) by (nonlinear_arith);
    assert(0 * p.turn_len() == 0);
}

/// What a turn allows: a frame that fits its turn may start as late as still
/// ends in it, and one that does not starts where the turn does.
pub proof fn law_a_turn_holds_its_frame(p: Plan, n: int, address: u8, airtime_ms: u32)
    ensures
        airtime_ms <= p.turn_len() ==> p.turn_latest(address, n, airtime_ms) + airtime_ms == p.turn_begins(address, n)
            + p.turn_len(),
        airtime_ms > p.turn_len() ==> p.turn_latest(address, n, airtime_ms) == p.turn_begins(address, n),
{
}

/// A beacon is owed in a slot that is the node's, until one has gone out in
/// it.
pub proof fn law_a_turn_is_owed_once(c: Ticking, address: u8, interval_ms: u32, last_ms: u64, now_ms: u64)
    requires
        c.wf(),
    ensures
        ({
            let n = c.slots_in(interval_ms);
            let mine = c.slot_at(now_ms) % n == (if address == 0 { 0 } else { address - 1 }) % n;
            &&& c.owes(address, None, interval_ms, now_ms) == mine
            &&& c.owes(address, Some(last_ms), interval_ms, now_ms) == (mine && c.slot_at(last_ms) != c.slot_at(now_ms))
        }),
{
}

/// A clock last disciplined is as good as it was then, gets one stratum worse
/// with every age step, and is as bad as can be once it has had fifteen, or
/// was never disciplined.
pub proof fn law_a_clock_ages_a_stratum_a_step(c: Ticking, t: u64, now_ms: u64)
    requires
        c.wf(),
        c.synced_ms == Some(t),
        t <= now_ms,
        now_ms + AGE_STEP_MS <= u64::MAX,
    ensures
        now_ms - t < 600_000 ==> c.stratum_at(now_ms) == c.base_stratum,
        c.stratum_at((now_ms + 600_000) as u64) == (if c.stratum_at(now_ms) < 15 {
            c.stratum_at(now_ms) + 1
        } else {
            15
        }),
        (Ticking { synced_ms: None, ..c }).stratum_at(now_ms) == 15,
        now_ms - t >= 9_000_000 ==> c.stratum_at(now_ms) == 15,
{
    let e = now_ms - t;
    let k: int = AGE_STEP_MS as int;
    if e < k {
        lemma_basic_div(e, k);
    }
    assert((e + k) / k == e / k + 1);
    assert(e >= 9_000_000 ==> e / k >= 15);
}

/// The better clock wins, and a tie goes to the lower address: of two nodes
/// that hear each other and are not on GPS, exactly one adopts the other,
/// unless they share both. Adopting one is being a stratum below it.
pub proof fn law_one_of_two_clocks_adopts_the_other(a: Ticking, b: Ticking, addr_a: u8, addr_b: u8, now_ms: u64)
    requires
        a.wf(),
        b.wf(),
        a.stratum_at(now_ms) != STRATUM_GPS,
        b.stratum_at(now_ms) != STRATUM_GPS,
        addr_a != addr_b,
    ensures
        ({
            let sa = a.stratum_at(now_ms);
            let sb = b.stratum_at(now_ms);
            let a_adopts = a.yields_to(sb, addr_b, addr_a, now_ms);
            let b_adopts = b.yields_to(sa, addr_a, addr_b, now_ms);
            &&& a_adopts != b_adopts
            &&& sb < sa ==> a_adopts
            &&& sb == sa && addr_b < addr_a ==> a_adopts
        }),
{
}

/// A clock that adopts a word is on its slot, at its share of the dwell, and a
/// stratum below it, to the ceiling, from then on.
pub proof fn law_an_adopted_word_is_the_clock(c: Ticking, word: SyncWord, tx_start_ms: u64, now_ms: u64)
    requires
        c.wf(),
        word.slot < SLOTS,
        word.stratum < 16,
    ensures
        ({
            let f = c.adopting(word, tx_start_ms, now_ms);
            let phase = f.phase_at(tx_start_ms);
            &&& f.slot_at(tx_start_ms) == word.slot
            &&& phase * 256 <= word.phase * c.dwell < (phase + 1) * 256
            &&& f.stratum_at(now_ms) == (if word.stratum < 15 { word.stratum + 1 } else { 15 })
            &&& f.dwell == c.dwell
            &&& f.rng == c.rng
        }),
{
    let f = c.adopting(word, tx_start_ms, now_ms);
    let d = c.dwell;
    let w = word.phase as int;
    let back = w * d / 256;
    assert(0 <= back < d && back * 256 <= w * d && w * d < (back + 1) * 256) by (nonlinear_arith)
        requires
            back == w * d / 256,
            0 <= w <= 255,
            1 <= d,
    ;
    lemma_anchored(c, tx_start_ms, back, word.slot as int);
    lemma_small_mod(word.slot as nat, SLOTS as nat);
    let base = c.anchored(tx_start_ms, back, word.slot as int);
    assert(f.origin == base.origin && f.origin_slot == base.origin_slot && f.dwell == base.dwell);
    lemma_basic_div(0, AGE_STEP_MS as int);
}

/// A sync word says where its sender's clock is: the slot, the stratum, and
/// how many whole 256ths of the dwell the slot is old.
pub proof fn law_a_word_says_where_the_clock_is(c: Ticking, at_ms: u64)
    requires
        c.wf(),
    ensures
        ({
            let w = c.word(at_ms);
            &&& w.slot == c.slot_at(at_ms)
            &&& w.stratum == c.stratum_at(at_ms)
            &&& w.phase * c.dwell <= 256 * c.phase_at(at_ms) < (w.phase + 1) * c.dwell
        }),
{
    c.lemma_ranges(at_ms);
    let p = c.phase_at(at_ms);
    let d = c.dwell;
    let w = p * 256 / d;
    assert(0 <= w <= 255 && w * d <= p * 256 && p * 256 < (w + 1) * d) by (nonlinear_arith)
        requires
            0 <= p < d,
            w == p * 256 / d,
    ;
}

/// An interval has elapsed from the slot it ends in on, and not before: told
/// by slots, of which it spans as many as cover it, for as long as half the
/// ring.
pub proof fn law_an_interval_elapses_in_slots(c: Ticking, last_ms: u64, interval_ms: u32, now_ms: u64)
    requires
        c.wf(),
        last_ms <= now_ms <= i64::MAX,
        c.slots_in(interval_ms) <= SLOTS / 2,
        (c.phase_at(last_ms) + (now_ms - last_ms)) / c.dwell < SLOTS / 2,
    ensures
        c.past_due(last_ms, interval_ms, now_ms) <==> (c.phase_at(last_ms) + (now_ms - last_ms)) / c.dwell
            >= c.slots_in(interval_ms),
{
    let m: int = SLOTS as int;
    let n = c.slots_in(interval_ms);
    let p = c.phase_at(last_ms) + (now_ms - last_ms);
    let e = p / c.dwell;
    let s = c.slot_at(last_ms);
    c.lemma_ranges(last_ms);
    lemma_advance(c, last_ms, now_ms - last_ms);
    lemma_div_pos_is_pos(p, c.dwell);
    assert(c.slot_at(now_ms) == (s + e) % m);
    lemma_sub_mod_noop((s + e) % m, s + n, m);
    lemma_mod_twice(s + e, m);
    lemma_sub_mod_noop(s + e, s + n, m);
    assert((s + e) % m - s - n == (s + e) % m - (s + n));
    assert((s + e) - (s + n) == e - n);
    if e >= n {
        lemma_small_mod((e - n) as nat, m as nat);
    } else {
        lemma_mod_add_multiples_vanish(e - n, m);
        lemma_small_mod((m + e - n) as nat, m as nat);
    }
}

/// The jitter is drawn from the whole of what is allowed: a transmission aims
/// at the guard plus what is left of the generator's next number when whole
/// ranges are taken out of it.
pub proof fn law_the_jitter_covers_the_range(c: Ticking, p: Plan, airtime_ms: u32)
    requires
        p.guard() + airtime_ms + p.guard() <= p.dwell_ms,
    ensures
        ({
            let width = p.window() - airtime_ms + 1;
            let target = c.target_of(p, airtime_ms);
            &&& p.guard() <= target < p.guard() + width
            &&& (stepped(c.rng) - (target - p.guard())) % width == 0
        }),
{
    let width = p.window() - airtime_ms + 1;
    let r: int = stepped(c.rng) as int;
    lemma_mod_bound(r, width);
    lemma_sub_mod_noop(r, r % width, width);
    lemma_mod_twice(r, width);
    lemma_mod_equivalence(r, r % width, width);
}

// -- What the channel order is ---------------------------------------------------

/// The state a generator was in before a step took it to `y`.
pub open spec fn unstepped(y: u32) -> u32 {
    let b = y ^ (y << 5) ^ (y << 10) ^ (y << 15) ^ (y << 20) ^ (y << 25) ^ (y << 30);
    let a = b ^ (b >> 17);
    a ^ (a << 13) ^ (a << 26)
}

/// What was spread into `v`, where nothing was forced odd.
pub open spec fn unmixed(v: u32) -> u32 {
    let e = v ^ (v >> 16);
    let d = e.wrapping_mul(0x7ed1_b41d);
    let c = d ^ (d >> 13) ^ (d >> 26);
    let b = c.wrapping_mul(0xa5cb_9243);
    (b ^ (b >> 16)) ^ 0x5bd1_e995
}

/// A step of the generator can be undone, so no two states step to one, and
/// none but zero steps to zero.
pub proof fn law_a_step_can_be_undone(s: u32)
    ensures
        unstepped(stepped(s)) == s,
        stepped(s) == 0 <==> s == 0,
{
    assert(unstepped(stepped(s)) == s) by (bit_vector);
    assert(unstepped(0) == 0 && stepped(0) == 0) by (bit_vector);
}

/// A multiplier and its inverse come to one, past the word.
proof fn lemma_unmultiplied(c: u32, k: u32, i: u32, t: int)
    requires
        k * i == 1 + t * 0x1_0000_0000,
    ensures
        c.wrapping_mul(k).wrapping_mul(i) == c,
{
    let m: int = 0x1_0000_0000;
    let p: int = c.wrapping_mul(k) as int;
    assert(p == (c * k) % m);
    assert(c.wrapping_mul(k).wrapping_mul(i) == (p * i) % m);
    vstd::arithmetic::div_mod::lemma_mul_mod_noop_left(c * k, i as int, m);
    assert((c * k) * i == c + (c * t) * m) by (nonlinear_arith)
        requires
            k * i == 1 + t * 0x1_0000_0000,
            m == 0x1_0000_0000,
    ;
    vstd::arithmetic::div_mod::lemma_mod_multiples_vanish(c * t, c as int, m);
    assert((c * t) * m == m * (c * t)) by (nonlinear_arith);
    lemma_small_mod(c as nat, m as nat);
}

/// A seed is a cycle number spread, and forced odd: it is never zero, and the
/// number can be told from it but for the bit that was forced, so no more than
/// two cycles share a seed.
pub proof fn law_a_seed_is_its_cycle_spread(x: u32)
    ensures
        mixed(x) % 2 == 1,
        x == unmixed(mixed(x)) || x == unmixed((mixed(x) - 1) as u32),
{
    let a = x ^ 0x5bd1_e995;
    let b = a ^ (a >> 16);
    let c = b.wrapping_mul(0x85eb_ca6b);
    let d = c ^ (c >> 13);
    let e = d.wrapping_mul(0xc2b2_ae35);
    let f = e ^ (e >> 16);
    let r = f | 1;
    assert(r == mixed(x));
    assert((f | 1) % 2 == 1 && (f % 2 == 1 ==> f | 1 == f) && (f % 2 == 0 ==> f | 1 == f + 1)) by (bit_vector);
    assert(f ^ (f >> 16) == e) by (bit_vector)
        requires
            f == e ^ (e >> 16),
    ;
    assert(0xc2b2_ae35int * 0x7ed1_b41d == 1 + 0x6073_6e9aint * 0x1_0000_0000);
    lemma_unmultiplied(d, 0xc2b2_ae35, 0x7ed1_b41d, 0x6073_6e9a);
    assert(d ^ (d >> 13) ^ (d >> 26) == c) by (bit_vector)
        requires
            d == c ^ (c >> 13),
    ;
    assert(0x85eb_ca6bint * 0xa5cb_9243 == 1 + 0x56bb_77f4int * 0x1_0000_0000);
    lemma_unmultiplied(b, 0x85eb_ca6b, 0xa5cb_9243, 0x56bb_77f4);
    assert((b ^ (b >> 16)) ^ 0x5bd1_e995 == x) by (bit_vector)
        requires
            b == a ^ (a >> 16),
            a == x ^ 0x5bd1_e995,
    ;
    assert(unmixed(f) == x);
}

/// A shuffle draws the entry it stands at from all that is left, by the
/// generator's next state, puts what stood there in the place it drew from,
/// and never touches it again.
pub proof fn law_a_shuffle_draws_from_what_is_left(s: Seq<u8>, rng: u32, i: int, k: int)
    requires
        1 <= i < s.len(),
    ensures
        shuffled(s, rng, i).len() == s.len(),
        shuffled(s, rng, i)[i] == s[stepped(rng) as int % (i + 1)],
        i < k < s.len() ==> shuffled(s, rng, i)[k] == s[k],
    decreases i,
{
    let next = stepped(rng);
    let j = next as int % (i + 1);
    lemma_mod_bound(next as int, i + 1);
    let t = swapped(s, i, j);
    lemma_shuffle_leaves(t, next, i - 1, i);
    if i < k < s.len() {
        lemma_shuffle_leaves(t, next, i - 1, k);
    }
}

proof fn lemma_shuffle_leaves(s: Seq<u8>, rng: u32, i: int, k: int)
    requires
        i < k < s.len(),
    ensures
        shuffled(s, rng, i).len() == s.len(),
        shuffled(s, rng, i)[k] == s[k],
    decreases i,
{
    if i >= 1 {
        let next = stepped(rng);
        lemma_mod_bound(next as int, i + 1);
        lemma_shuffle_leaves(swapped(s, i, next as int % (i + 1)), next, i - 1, k);
    }
}

/// The last channel of a cycle is the first one drawn: the cycle's seed,
/// stepped once, around the channels there are.
pub proof fn law_the_last_channel_is_drawn_first(cycle: u32, n: int)
    requires
        2 <= n <= 256,
    ensures
        channel_order(cycle, n).len() == n,
        channel_order(cycle, n)[n - 1] == stepped(mixed(cycle)) as int % n,
{
    lemma_mod_bound(stepped(mixed(cycle)) as int, n);
    law_a_shuffle_draws_from_what_is_left(in_order(n), mixed(cycle), n - 1, n - 1);
}

/// A slot uses its place in its cycle's order: cycles follow one another from
/// the start of the ring, each as long as the plan has channels.
pub proof fn law_a_slot_uses_its_place_in_the_cycle(p: Plan, cycle: u32, k: int)
    requires
        0 <= k < p.slots_per_cycle(),
        cycle * p.slots_per_cycle() + k < 0x10_0000,
    ensures
        p.channel_of((cycle * p.slots_per_cycle() + k) as u32) == channel_order(cycle, p.channels as int)[k],
        p.channels > 0 ==> p.slots_per_cycle() == p.channels,
        p.channels == 0 ==> p.slots_per_cycle() == 1,
{
    let n = p.slots_per_cycle();
    let at: int = cycle * n + k;
    assert(0 <= cycle * n) by (nonlinear_arith)
        requires
            n >= 1,
            cycle >= 0,
    ;
    lemma_small_mod(at as nat, SLOTS as nat);
    lemma_fundamental_div_mod_converse(at, n, cycle as int, k);
}

/// The clock computes in a signed word of 64 bits: a count past its middle is
/// one below zero.
pub proof fn law_a_late_count_is_below_zero(ms: u64)
    ensures
        ms < 0x8000_0000_0000_0000 ==> local(ms) == ms,
        ms >= 0x8000_0000_0000_0000 ==> local(ms) + 0x1_0000_0000_0000_0000 == ms,
        -0x8000_0000_0000_0000 <= local(ms) < 0x8000_0000_0000_0000,
{
}

/// A transmission fits a slot where a guard stays free at either end.
pub proof fn law_what_fits_a_slot(p: Plan, airtime_ms: u32)
    ensures
        p.holds(airtime_ms) <==> p.guard() + airtime_ms + p.guard() <= p.dwell_ms,
{
}

/// The next slot starts where this one has run its dwell: in the slot behind,
/// at its first millisecond.
pub proof fn law_the_next_slot_starts_at_its_first_millisecond(c: Ticking, now_ms: u64)
    requires
        c.wf(),
        now_ms + c.dwell <= i64::MAX,
    ensures
        now_ms < c.next_start(now_ms) <= now_ms + c.dwell,
        c.phase_at(c.next_start(now_ms) as u64) == 0,
        c.slot_at(c.next_start(now_ms) as u64) == (if c.slot_at(now_ms) + 1 == 0x10_0000 {
            0
        } else {
            c.slot_at(now_ms) + 1
        }),
{
    c.lemma_ranges(now_ms);
    law_a_slot_lasts_a_dwell(c, now_ms, c.dwell - c.phase_at(now_ms));
}

/// A fresh clock trusts nobody and stands at the start of a slot that its seed
/// picks.
pub proof fn law_a_fresh_clock_starts_a_slot(dwell_ms: u16, now_ms: u64, seed: u32)
    requires
        now_ms <= i64::MAX,
    ensures
        ({
            let c = Ticking::fresh(dwell_ms, now_ms, seed);
            &&& c.dwell == (if dwell_ms == 0 {
                1
            } else {
                dwell_ms as int
            })
            &&& c.phase_at(now_ms) == 0
            &&& c.slot_at(now_ms) == mixed(seed) as int % 0x10_0000
            &&& c.stratum_at(now_ms) == 15
            &&& c.synced_ms is None
            &&& c.rng == stepped(mixed(seed))
        }),
{
    let c = Ticking::fresh(dwell_ms, now_ms, seed);
    let s = mixed(seed) as int % (SLOTS as int);
    lemma_mod_bound(mixed(seed) as int, SLOTS as int);
    lemma_fundamental_div_mod_converse(0, c.dwell, 0, 0);
    lemma_small_mod(s as nat, SLOTS as nat);
}

/// A word heard is adopted from a better clock, or from one as good at a lower
/// address, unless this clock is on its own GPS; a stratum past the last counts
/// as the last.
pub proof fn law_when_a_word_is_adopted(c: Ticking, word: SyncWord, src: u8, my_addr: u8, tx_ms: u64, now_ms: u64)
    ensures
        ({
            let theirs = if word.stratum > 15 {
                15
            } else {
                word.stratum
            };
            let mine = c.stratum_at(now_ms);
            let (after, r) = c.offered(word, src, my_addr, tx_ms, now_ms);
            &&& r is Adopted <==> mine != 0 && (theirs < mine || (theirs == mine && src < my_addr))
            &&& r is Kept ==> after == c
            &&& r matches Offer::Adopted(s) ==> s == after.base_stratum && after.base_stratum == (if theirs == 15 {
                15
            } else {
                theirs + 1
            }) && after.synced_ms == Some(now_ms)
        }),
{
}

/// A plan is what its config asks for, cut into the turns its window holds.
pub proof fn law_a_plan_is_what_its_config_asks(p: Plan, cfg: RadioConfig)
    requires
        p.describes(cfg),
    ensures
        p.channels == cfg.hop_channels && p.step_khz == cfg.hop_step_khz && p.center_hz == cfg.frequency_hz && p.dwell_ms
            == cfg.hop_dwell_ms,
        p.sub_slots == Plan::turns_in(cfg, p.window()),
{
}

} // verus!
