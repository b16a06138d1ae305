//! The frames a node has seen, and the ones it is waiting to repeat.
//!
//! Two mechanisms keep repeating from turning into a broadcast storm, and
//! both are tables of fixed size:
//!
//! - **Deduplication.** A frame is identified by `(src, id)`. One that has
//!   been seen inside the TTL is neither delivered again nor repeated again.
//!   Seeing a frame again refreshes its entry.
//! - **Jittered forwarding.** A repeat is queued with a due time rather than
//!   sent from inside the receive path.
//!
//! The id is eight bits and wraps every 256 frames, so the TTL has to stay
//! well inside that; the config parser refuses one that does not.

use vstd::prelude::*;
use crate::lora::FRAME_MAX;
use crate::bytes::put;
use crate::table;
use crate::table::count;
use crate::time;

verus! {

/// Recently seen frames tracked for deduplication.
pub const SEEN_SLOTS: usize = 16;

/// Frames that can be waiting to be repeated at once.
pub const REPEAT_SLOTS: usize = 4;

/// One remembered frame.
#[derive(Clone, Copy, Debug, PartialEq, Eq, Hash, Structural)]
pub struct Seen {
    pub src: u8,
    pub id: u8,
    pub at_ms: u64,
}

/// The `(src, id)` pairs seen inside the TTL, `N` of them at most. The
/// firmware uses [`SEEN_SLOTS`].
#[derive(Clone, Copy, Debug, PartialEq, Eq, Hash)]
pub struct SeenTable<const N: usize> {
    slots: [Option<Seen>; N],
    ttl_ms: u64,
}

/// A table of remembered frames, as its contracts speak of it.
#[verifier::ext_equal]
pub struct Memory {
    pub slots: Seq<Option<Seen>>,
    pub ttl_ms: u64,
}

impl<const N: usize> View for SeenTable<N> {
    type V = Memory;

    closed spec fn view(&self) -> Memory {
        Memory { slots: self.slots@, ttl_ms: self.ttl_ms }
    }
}

impl Memory {
    /// Whether an entry has outlived the TTL.
    pub open spec fn expired(self, e: Seen, now_ms: u64) -> bool {
        time::elapsed(e.at_ms, now_ms) >= self.ttl_ms
    }

    /// Whether entry `i` is a live memory of `(src, id)`.
    pub open spec fn remembers_at(self, i: int, src: u8, id: u8, now_ms: u64) -> bool {
        &&& 0 <= i < self.slots.len()
        &&& self.slots[i] matches Some(e) && e.src == src && e.id == id && !self.expired(e, now_ms)
    }

    /// Whether `(src, id)` is remembered and inside the TTL.
    pub open spec fn remembers(self, src: u8, id: u8, now_ms: u64) -> bool {
        exists|i: int| #[trigger] self.remembers_at(i, src, id, now_ms)
    }

    /// The entries with those of the first `upto` that outlived the TTL
    /// dropped.
    pub open spec fn swept(self, upto: int, now_ms: u64) -> Seq<Option<Seen>> {
        Seq::new(
            self.slots.len(),
            |i: int|
                if i < upto && (self.slots[i] matches Some(e) && self.expired(e, now_ms)) {
                    None
                } else {
                    self.slots[i]
                },
        )
    }

    /// Whether `k` is the first of the oldest entries of a full table.
    pub open spec fn first_oldest(s: Seq<Option<Seen>>, k: int) -> bool {
        &&& table::full(s)
        &&& 0 <= k < s.len()
        &&& forall|i: int| 0 <= i < s.len() ==> s[k]->0.at_ms <= (#[trigger] s[i])->0.at_ms
        &&& forall|i: int| 0 <= i < k ==> s[k]->0.at_ms < (#[trigger] s[i])->0.at_ms
    }

    /// Whether the table after a mark is right for a pair already remembered:
    /// its entry refreshed, everything expired before it dropped, and
    /// nothing after it touched.
    pub open spec fn refreshed(self, src: u8, id: u8, now_ms: u64, after: Memory) -> bool {
        exists|i: int|
            {
                &&& #[trigger] self.remembers_at(i, src, id, now_ms)
                &&& forall|j: int| 0 <= j < i ==> !self.remembers_at(j, src, id, now_ms)
                &&& after.slots == self.swept(i, now_ms).update(i, Some(Seen { src, id, at_ms: now_ms }))
            }
    }

    /// Whether the table after a mark is right for a new pair: everything
    /// expired dropped, and the pair in the first free slot, or in that of
    /// the oldest where there is none.
    pub open spec fn admitted(self, src: u8, id: u8, now_ms: u64, after: Memory) -> bool {
        let w = self.swept(self.slots.len() as int, now_ms);
        exists|k: int|
            {
                &&& 0 <= k < w.len()
                &&& (table::first_free(w, k) || Memory::first_oldest(w, k))
                &&& after.slots == #[trigger] w.update(k, Some(Seen { src, id, at_ms: now_ms }))
            }
    }

    /// No pair is remembered twice.
    pub open spec fn distinct(self) -> bool {
        forall|i: int, j: int|
            0 <= i < j < self.slots.len() && (#[trigger] self.slots[i]) is Some && (#[trigger] self.slots[j]) is Some
                ==> (self.slots[i]->0.src != self.slots[j]->0.src || self.slots[i]->0.id != self.slots[j]->0.id)
    }
}

impl<const N: usize> SeenTable<N> {
    /// An empty table.
    pub fn new(ttl_ms: u64) -> (r: Self)
        ensures
            r@.ttl_ms == ttl_ms,
            r@.slots.len() == N,
            forall|i: int| 0 <= i < N ==> (#[trigger] r@.slots[i]) is None,
            r@.distinct(),
    {
        Self { slots: [None; N], ttl_ms }
    }

    /// How long a pair stays remembered.
    pub fn ttl_ms(&self) -> (r: u64)
        ensures
            r == self@.ttl_ms,
    {
        self.ttl_ms
    }

    /// A new TTL, and a fresh table: under a new address this node's own past
    /// frames would look like a remote node's.
    pub fn reset(&mut self, ttl_ms: u64)
        ensures
            final(self)@.ttl_ms == ttl_ms,
            final(self)@.slots.len() == N,
            forall|i: int| 0 <= i < N ==> (#[trigger] final(self)@.slots[i]) is None,
            final(self)@.distinct(),
    {
        self.ttl_ms = ttl_ms;
        self.slots = [None; N];
    }

    /// Record `(src, id)` at `now_ms`, returning whether it had already been
    /// seen inside the TTL. A seen pair is refreshed; a new one takes a free
    /// slot, an expired slot, or the oldest.
    pub fn mark(&mut self, src: u8, id: u8, now_ms: u64) -> (r: bool)
        requires
            N > 0,
        ensures
            r == old(self)@.remembers(src, id, now_ms),
            final(self)@.ttl_ms == old(self)@.ttl_ms,
            r ==> old(self)@.refreshed(src, id, now_ms, final(self)@),
            !r ==> old(self)@.admitted(src, id, now_ms, final(self)@),
            old(self)@.distinct() ==> final(self)@.distinct(),
    {
        let ghost m = self@;
        let mut free: Option<usize> = None;
        let mut oldest: Option<(usize, u64)> = None;
        let mut i: usize = 0;
        assert(self.slots@ =~= m.swept(0, now_ms));
        while i < N
            invariant
                i <= N,
                N > 0,
                m.slots.len() == N,
                self.slots@.len() == N,
                self.ttl_ms == m.ttl_ms,
                m == old(self)@,
                self.slots@ == m.swept(i as int, now_ms),
                forall|j: int| 0 <= j < i ==> !m.remembers_at(j, src, id, now_ms),
                match free {
                    Some(f) => f < i && self.slots@[f as int] is None && (forall|j: int|
                        0 <= j < f ==> (#[trigger] self.slots@[j]) is Some),
                    None => forall|j: int| 0 <= j < i ==> (#[trigger] self.slots@[j]) is Some,
                },
                match oldest {
                    Some((o, at)) => {
                        &&& o < i
                        &&& self.slots@[o as int] matches Some(e) && e.at_ms == at
                        &&& forall|j: int|
                            0 <= j < i && (#[trigger] self.slots@[j]) is Some ==> at <= self.slots@[j]->0.at_ms
                        &&& forall|j: int|
                            0 <= j < o && (#[trigger] self.slots@[j]) is Some ==> at < self.slots@[j]->0.at_ms
                    },
                    None => forall|j: int| 0 <= j < i ==> (#[trigger] self.slots@[j]) is None,
                },
            decreases N - i,
        {
            let ghost before = self.slots@;
            if let Some(s) = self.slots[i] {
                if now_ms.saturating_sub(s.at_ms) >= self.ttl_ms {
                    self.slots[i] = None;
                }
            }
            assert(self.slots@ =~= m.swept(i + 1, now_ms));
            assert(forall|j: int| 0 <= j < i ==> self.slots@[j] == before[j]);
            match self.slots[i] {
                None => {
                    if free.is_none() {
                        free = Some(i);
                    }
                },
                Some(s) => {
                    if s.src == src && s.id == id {
                        assert(m.remembers_at(i as int, src, id, now_ms));
                        let ghost swept = self.slots@;
                        assert(swept =~= m.swept(i as int, now_ms));
                        self.slots[i] = Some(Seen { src, id, at_ms: now_ms });
                        assert(m.refreshed(src, id, now_ms, self@));
                        return true;
                    }
                    let older: bool = match oldest {
                        Some((_, at)) => s.at_ms < at,
                        None => true,
                    };
                    if older {
                        oldest = Some((i, s.at_ms));
                    }
                },
            }
            i += 1;
        }
        let slot: usize = match free {
            Some(f) => f,
            None => match oldest {
                Some((o, _)) => o,
                None => 0,
            },
        };
        let ghost w = m.swept(N as int, now_ms);
        self.slots[slot] = Some(Seen { src, id, at_ms: now_ms });
        proof {
            assert(table::first_free(w, slot as int) || Memory::first_oldest(w, slot as int)) by {
                if free is None {
                    assert(w[0] is Some);
                }
            }
            assert(self@.slots == w.update(slot as int, Some(Seen { src, id, at_ms: now_ms })));
            assert(m.admitted(src, id, now_ms, self@));
            assert(!m.remembers(src, id, now_ms));
            if m.distinct() {
                assert forall|a: int, b: int|
                    0 <= a < b < N && (#[trigger] self@.slots[a]) is Some && (#[trigger] self@.slots[b]) is Some
                    implies (self@.slots[a]->0.src != self@.slots[b]->0.src || self@.slots[a]->0.id
                    != self@.slots[b]->0.id) by {
                    assert(!m.remembers_at(a, src, id, now_ms));
                    assert(!m.remembers_at(b, src, id, now_ms));
                    assert(a != slot ==> self@.slots[a] == m.slots[a]);
                    assert(b != slot ==> self@.slots[b] == m.slots[b]);
                }
            }
        }
        false
    }

    /// Pairs currently remembered, expired ones included until the next
    /// [`mark`](Self::mark) sweeps them.
    pub fn len(&self) -> (r: usize)
        ensures
            r == table::taken(self@.slots),
    {
        count(&self.slots)
    }

    /// Whether nothing is remembered.
    pub fn is_empty(&self) -> (r: bool)
        ensures
            r == (forall|i: int| 0 <= i < self@.slots.len() ==> (#[trigger] self@.slots[i]) is None),
    {
        proof {
            table::lemma_taken_bounds(self.slots@);
        }
        self.len() == 0
    }

    /// Whether `(src, id)` is remembered and inside the TTL at `now_ms`,
    /// without recording anything.
    pub fn contains(&self, src: u8, id: u8, now_ms: u64) -> (r: bool)
        ensures
            r == self@.remembers(src, id, now_ms),
    {
        let mut i: usize = 0;
        while i < N
            invariant
                i <= N,
                self@.slots.len() == N,
                forall|j: int| 0 <= j < i ==> !self@.remembers_at(j, src, id, now_ms),
            decreases N - i,
        {
            if let Some(s) = self.slots[i] {
                if s.src == src && s.id == id && now_ms.saturating_sub(s.at_ms) < self.ttl_ms {
                    assert(self@.remembers_at(i as int, src, id, now_ms));
                    return true;
                }
            }
            i += 1;
        }
        false
    }
}

/// A frame is new once and seen until the TTL runs from its last copy: after
/// a mark the pair is remembered for as long as the TTL.
pub proof fn law_a_marked_pair_is_remembered(m: Memory, src: u8, id: u8, now_ms: u64, after: Memory, later_ms: u64)
    requires
        after.ttl_ms == m.ttl_ms,
        m.refreshed(src, id, now_ms, after) || m.admitted(src, id, now_ms, after),
        time::elapsed(now_ms, later_ms) < m.ttl_ms,
    ensures
        after.remembers(src, id, later_ms),
{
    if m.refreshed(src, id, now_ms, after) {
        let i = choose|i: int|
            {
                &&& #[trigger] m.remembers_at(i, src, id, now_ms)
                &&& forall|j: int| 0 <= j < i ==> !m.remembers_at(j, src, id, now_ms)
                &&& after.slots == m.swept(i, now_ms).update(i, Some(Seen { src, id, at_ms: now_ms }))
            };
        assert(after.remembers_at(i, src, id, later_ms));
    } else {
        let w = m.swept(m.slots.len() as int, now_ms);
        let k = choose|k: int|
            {
                &&& 0 <= k < w.len()
                &&& (table::first_free(w, k) || Memory::first_oldest(w, k))
                &&& after.slots == #[trigger] w.update(k, Some(Seen { src, id, at_ms: now_ms }))
            };
        assert(after.remembers_at(k, src, id, later_ms));
    }
}

/// A table with room forgets nothing it still remembers: a mark that finds a
/// free or an expired slot, or the pair itself, leaves every other live
/// memory in place.
pub proof fn law_a_mark_with_room_forgets_nothing(
    m: Memory,
    src: u8,
    id: u8,
    now_ms: u64,
    after: Memory,
    other_src: u8,
    other_id: u8,
)
    requires
        after.ttl_ms == m.ttl_ms,
        m.refreshed(src, id, now_ms, after) || m.admitted(src, id, now_ms, after),
        m.refreshed(src, id, now_ms, after) || !table::full(m.swept(m.slots.len() as int, now_ms)),
        other_src != src || other_id != id,
        m.remembers(other_src, other_id, now_ms),
    ensures
        after.remembers(other_src, other_id, now_ms),
{
    let o = choose|o: int| #[trigger] m.remembers_at(o, other_src, other_id, now_ms);
    if m.refreshed(src, id, now_ms, after) {
        let i = choose|i: int|
            {
                &&& #[trigger] m.remembers_at(i, src, id, now_ms)
                &&& forall|j: int| 0 <= j < i ==> !m.remembers_at(j, src, id, now_ms)
                &&& after.slots == m.swept(i, now_ms).update(i, Some(Seen { src, id, at_ms: now_ms }))
            };
        assert(after.remembers_at(o, other_src, other_id, now_ms));
    } else {
        let w = m.swept(m.slots.len() as int, now_ms);
        let k = choose|k: int|
            {
                &&& 0 <= k < w.len()
                &&& (table::first_free(w, k) || Memory::first_oldest(w, k))
                &&& after.slots == #[trigger] w.update(k, Some(Seen { src, id, at_ms: now_ms }))
            };
        assert(after.remembers_at(o, other_src, other_id, now_ms));
    }
}

/// A frame is remembered exactly where an entry has its sender and its number
/// and is younger than the TTL.
pub proof fn law_a_frame_is_its_sender_and_number(m: Memory, src: u8, id: u8, now_ms: u64)
    requires
        m.ttl_ms > 0,
    ensures
        m.remembers(src, id, now_ms) <==> exists|i: int|
            0 <= i < m.slots.len() && ((#[trigger] m.slots[i]) matches Some(e) && e.src == src && e.id == id && now_ms
                < e.at_ms + m.ttl_ms),
{
    if m.remembers(src, id, now_ms) {
        let i = choose|i: int| #[trigger] m.remembers_at(i, src, id, now_ms);
        assert(m.slots[i] is Some);
    }
    if exists|i: int|
        0 <= i < m.slots.len() && ((#[trigger] m.slots[i]) matches Some(e) && e.src == src && e.id == id && now_ms < e.at_ms
            + m.ttl_ms) {
        let i = choose|i: int|
            0 <= i < m.slots.len() && ((#[trigger] m.slots[i]) matches Some(e) && e.src == src && e.id == id && now_ms
                < e.at_ms + m.ttl_ms);
        assert(m.remembers_at(i, src, id, now_ms));
    }
}

/// Where an entry of a table after a mark comes from: it is the mark's own, or
/// it was there.
proof fn lemma_marked_entries(m: Memory, src: u8, id: u8, now_ms: u64, after: Memory) -> (k: int)
    requires
        m.refreshed(src, id, now_ms, after) || m.admitted(src, id, now_ms, after),
    ensures
        0 <= k < m.slots.len(),
        after.slots.len() == m.slots.len(),
        after.slots[k] == Some(Seen { src, id, at_ms: now_ms }),
        forall|i: int| 0 <= i < m.slots.len() && i != k ==> (#[trigger] after.slots[i]) is None || after.slots[i] == m.slots[i],
        m.refreshed(src, id, now_ms, after) ==> m.remembers_at(k, src, id, now_ms),
        !m.refreshed(src, id, now_ms, after) ==> ({
            let w = m.swept(m.slots.len() as int, now_ms);
            (table::first_free(w, k) || Memory::first_oldest(w, k)) && after.slots == w.update(
                k,
                Some(Seen { src, id, at_ms: now_ms }),
            )
        }),
{
    if m.refreshed(src, id, now_ms, after) {
        let i = choose|i: int|
            {
                &&& #[trigger] m.remembers_at(i, src, id, now_ms)
                &&& forall|j: int| 0 <= j < i ==> !m.remembers_at(j, src, id, now_ms)
                &&& after.slots == m.swept(i, now_ms).update(i, Some(Seen { src, id, at_ms: now_ms }))
            };
        i
    } else {
        let w = m.swept(m.slots.len() as int, now_ms);
        let k = choose|k: int|
            {
                &&& 0 <= k < w.len()
                &&& (table::first_free(w, k) || Memory::first_oldest(w, k))
                &&& after.slots == #[trigger] w.update(k, Some(Seen { src, id, at_ms: now_ms }))
            };
        k
    }
}

/// A mark teaches a table its own frame and no other: a frame from another
/// sender, or with another number, that is remembered after it was before.
pub proof fn law_a_mark_teaches_nothing_else(
    m: Memory,
    src: u8,
    id: u8,
    now_ms: u64,
    after: Memory,
    other_src: u8,
    other_id: u8,
    later_ms: u64,
)
    requires
        after.ttl_ms == m.ttl_ms,
        m.refreshed(src, id, now_ms, after) || m.admitted(src, id, now_ms, after),
        other_src != src || other_id != id,
        after.remembers(other_src, other_id, later_ms),
    ensures
        m.remembers(other_src, other_id, later_ms),
{
    let k = lemma_marked_entries(m, src, id, now_ms, after);
    let o = choose|o: int| #[trigger] after.remembers_at(o, other_src, other_id, later_ms);
    assert(o != k);
    assert(after.slots[o] is Some);
    assert(m.remembers_at(o, other_src, other_id, later_ms));
}

/// A frame is forgotten once the TTL has run from its last copy.
pub proof fn law_a_frame_is_forgotten_after_its_ttl(m: Memory, src: u8, id: u8, now_ms: u64, after: Memory, later_ms: u64)
    requires
        after.ttl_ms == m.ttl_ms,
        m.distinct(),
        after.distinct(),
        m.refreshed(src, id, now_ms, after) || m.admitted(src, id, now_ms, after),
        later_ms >= now_ms + m.ttl_ms,
    ensures
        !after.remembers(src, id, later_ms),
{
    let k = lemma_marked_entries(m, src, id, now_ms, after);
    assert forall|i: int| !(#[trigger] after.remembers_at(i, src, id, later_ms)) by {
        if after.remembers_at(i, src, id, later_ms) && i != k {
            assert(after.slots[i] is Some && after.slots[k] is Some);
            if i < k {
                assert(after.slots[i]->0.src != after.slots[k]->0.src || after.slots[i]->0.id != after.slots[k]->0.id);
            } else {
                assert(after.slots[k]->0.src != after.slots[i]->0.src || after.slots[k]->0.id != after.slots[i]->0.id);
            }
        }
    }
}

/// A full table gives up its oldest memory and no other: one that is younger
/// than another is kept.
pub proof fn law_a_full_table_gives_up_the_oldest(
    m: Memory,
    src: u8,
    id: u8,
    now_ms: u64,
    after: Memory,
    i: int,
    j: int,
)
    requires
        after.ttl_ms == m.ttl_ms,
        m.refreshed(src, id, now_ms, after) || m.admitted(src, id, now_ms, after),
        0 <= i < m.slots.len(),
        0 <= j < m.slots.len(),
        m.slots[i] is Some,
        m.slots[j] is Some,
        !m.expired(m.slots[i]->0, now_ms),
        !m.expired(m.slots[j]->0, now_ms),
        m.slots[j]->0.at_ms < m.slots[i]->0.at_ms,
        m.slots[i]->0.src != src || m.slots[i]->0.id != id,
    ensures
        after.slots[i] == m.slots[i],
{
    let k = lemma_marked_entries(m, src, id, now_ms, after);
    let w = m.swept(m.slots.len() as int, now_ms);
    assert(w[i] == m.slots[i] && w[j] == m.slots[j]);
    if m.refreshed(src, id, now_ms, after) {
        assert(m.remembers_at(k, src, id, now_ms));
        assert(i != k);
        let q = choose|q: int|
            {
                &&& #[trigger] m.remembers_at(q, src, id, now_ms)
                &&& forall|p: int| 0 <= p < q ==> !m.remembers_at(p, src, id, now_ms)
                &&& after.slots == m.swept(q, now_ms).update(q, Some(Seen { src, id, at_ms: now_ms }))
            };
        assert(m.remembers_at(q, src, id, now_ms));
    } else if i == k {
        assert(Memory::first_oldest(w, k));
        assert(w[k]->0.at_ms <= w[j]->0.at_ms);
    }
}

// -- Frames waiting to be repeated ---------------------------------------------

/// One frame waiting, and the instant it is due.
#[derive(Clone, Copy, Debug, PartialEq, Eq, Hash)]
struct Repeat {
    buf: [u8; FRAME_MAX],
    len: usize,
    due_ms: u64,
}

/// A frame waiting, as contracts speak of it.
#[verifier::ext_equal]
pub struct Waiting {
    pub frame: Seq<u8>,
    pub due_ms: u64,
}

impl Repeat {
    spec fn waiting(self) -> Waiting {
        Waiting { frame: self.buf@.take(self.len as int), due_ms: self.due_ms }
    }

    spec fn wf(self) -> bool {
        &&& 1 <= self.len <= FRAME_MAX
        &&& forall|i: int| self.len <= i < FRAME_MAX ==> (#[trigger] self.buf@[i]) == 0
    }
}

/// Frames waiting to be repeated, each with the instant it is due, `N` of
/// them at most. The firmware uses [`REPEAT_SLOTS`].
#[derive(Clone, Copy, Debug, PartialEq, Eq, Hash)]
pub struct RepeatQueue<const N: usize> {
    slots: [Option<Repeat>; N],
}

impl<const N: usize> View for RepeatQueue<N> {
    type V = Seq<Option<Waiting>>;

    closed spec fn view(&self) -> Seq<Option<Waiting>> {
        Seq::new(
            N as nat,
            |i: int|
                match self.slots@[i] {
                    Some(r) => Some(r.waiting()),
                    None => None,
                },
        )
    }
}

/// Whether a frame can be queued: it is one, and a slot is free.
pub open spec fn queueable(q: Seq<Option<Waiting>>, frame: Seq<u8>) -> bool {
    1 <= frame.len() <= FRAME_MAX && !table::full(q)
}

/// Whether `after` is the queue with a frame in its first free slot.
pub open spec fn queued(q: Seq<Option<Waiting>>, frame: Seq<u8>, due_ms: u64, after: Seq<Option<Waiting>>) -> bool {
    exists|k: int| #[trigger] table::first_free(q, k) && after == q.update(k, Some(Waiting { frame, due_ms }))
}

/// A frame with the zeros a slot pads it with.
pub open spec fn padded(frame: Seq<u8>) -> Seq<u8> {
    Seq::new(FRAME_MAX as nat, |i: int| if i < frame.len() { frame[i] } else { 0 })
}

/// Whether entry `k` is the one to hand out at `now_ms`: due, no other due
/// entry earlier, and the first of its instant.
pub open spec fn next_due(q: Seq<Option<Waiting>>, k: int, now_ms: u64) -> bool {
    &&& 0 <= k < q.len()
    &&& q[k] matches Some(w) && {
        &&& w.due_ms <= now_ms
        &&& forall|i: int| 0 <= i < q.len() && (#[trigger] q[i]) is Some ==> w.due_ms <= q[i]->0.due_ms
        &&& forall|i: int| 0 <= i < k && (#[trigger] q[i]) is Some ==> w.due_ms < q[i]->0.due_ms
    }
}

/// Whether anything is due at `now_ms`.
pub open spec fn any_due(q: Seq<Option<Waiting>>, now_ms: u64) -> bool {
    exists|i: int| 0 <= i < q.len() && (#[trigger] q[i]) is Some && q[i]->0.due_ms <= now_ms
}

impl<const N: usize> Default for RepeatQueue<N> {
    fn default() -> (r: Self)
        ensures
            r.wf(),
            r@.len() == N,
            forall|i: int| 0 <= i < N ==> (#[trigger] r@[i]) is None,
    {
        Self::new()
    }
}

impl<const N: usize> RepeatQueue<N> {
    /// A queue of `N` slots.
    pub open spec fn wf(self) -> bool {
        &&& self@.len() == N
        &&& self.framed()
    }

    /// Every waiting frame is one: not empty, not longer than a frame can be,
    /// zero-padded in its slot.
    pub closed spec fn framed(self) -> bool {
        forall|i: int| 0 <= i < N ==> ((#[trigger] self.slots@[i]) matches Some(r) ==> r.wf())
    }

    /// An empty queue.
    pub fn new() -> (r: Self)
        ensures
            r.wf(),
            r@.len() == N,
            forall|i: int| 0 <= i < N ==> (#[trigger] r@[i]) is None,
    {
        Self { slots: [None; N] }
    }

    /// Queue `frame` for `due_ms`, preferring a free slot and otherwise
    /// dropping it - overwriting one already waiting would starve whichever
    /// node's frame it belonged to. Returns whether it was queued; a frame
    /// too long for a slot is never queued.
    pub fn push(&mut self, frame: &[u8], due_ms: u64) -> (r: bool)
        requires
            old(self).wf(),
        ensures
            final(self).wf(),
            r == queueable(old(self)@, frame@),
            !r ==> *final(self) == *old(self),
            r ==> queued(old(self)@, frame@, due_ms, final(self)@),
    {
        let ghost q = self@;
        if frame.len() == 0 || frame.len() > FRAME_MAX {
            return false;
        }
        let mut i: usize = 0;
        while i < N
            invariant
                i <= N,
                self@ == q,
                *self == *old(self),
                q.len() == N,
                self.wf(),
                1 <= frame@.len() <= FRAME_MAX,
                forall|j: int| 0 <= j < i ==> (#[trigger] q[j]) is Some,
            decreases N - i,
        {
            if self.slots[i].is_none() {
                let mut buf: [u8; FRAME_MAX] = [0u8; FRAME_MAX];
                put(&mut buf, 0, frame);
                assert(buf@.take(frame@.len() as int) =~= frame@);
                self.slots[i] = Some(Repeat { buf, len: frame.len(), due_ms });
                assert(q[i as int] is None);
                assert(table::first_free(q, i as int));
                assert(self@ =~= q.update(i as int, Some(Waiting { frame: frame@, due_ms })));
                return true;
            }
            assert(q[i as int] is Some);
            i += 1;
        }
        false
    }

    /// Whether a queued repeat is due at `now_ms`.
    pub fn due(&self, now_ms: u64) -> (r: bool)
        ensures
            r == any_due(self@, now_ms),
    {
        let mut i: usize = 0;
        while i < N
            invariant
                i <= N,
                self@.len() == N,
                forall|j: int| 0 <= j < i && (#[trigger] self@[j]) is Some ==> self@[j]->0.due_ms > now_ms,
            decreases N - i,
        {
            if let Some(r) = self.slots[i] {
                assert(self@[i as int] is Some);
                if now_ms >= r.due_ms {
                    return true;
                }
            }
            i += 1;
        }
        false
    }

    /// Take one due repeat, the earliest due first. The slot is released on
    /// the way out, so a radio error drops the frame rather than retrying it:
    /// by the time the radio is working again the position it carries is
    /// stale.
    pub fn take_due(&mut self, now_ms: u64) -> (r: Option<([u8; FRAME_MAX], usize)>)
        requires
            old(self).wf(),
        ensures
            final(self).wf(),
            r is Some <==> any_due(old(self)@, now_ms),
            r is None ==> *final(self) == *old(self),
            r matches Some((buf, len)) ==> exists|k: int|
                {
                    &&& #[trigger] next_due(old(self)@, k, now_ms)
                    &&& final(self)@ == old(self)@.update(k, None)
                    &&& len == old(self)@[k]->0.frame.len()
                    &&& buf@ == padded(old(self)@[k]->0.frame)
                },
    {
        let ghost q = self@;
        let mut pick: Option<(usize, u64)> = None;
        let mut i: usize = 0;
        while i < N
            invariant
                i <= N,
                self@ == q,
                q.len() == N,
                *self == *old(self),
                self.wf(),
                match pick {
                    Some((k, due)) => {
                        &&& k < i
                        &&& due <= now_ms
                        &&& q[k as int] matches Some(w) && w.due_ms == due
                        &&& forall|j: int| 0 <= j < i && (#[trigger] q[j]) is Some ==> due <= q[j]->0.due_ms
                        &&& forall|j: int| 0 <= j < k && (#[trigger] q[j]) is Some ==> due < q[j]->0.due_ms
                    },
                    None => forall|j: int| 0 <= j < i && (#[trigger] q[j]) is Some ==> q[j]->0.due_ms > now_ms,
                },
            decreases N - i,
        {
            if let Some(r) = self.slots[i] {
                assert(q[i as int] == Some(r.waiting()));
                let earlier: bool = match pick {
                    Some((_, due)) => r.due_ms < due,
                    None => true,
                };
                if now_ms >= r.due_ms && earlier {
                    pick = Some((i, r.due_ms));
                }
            } else {
                assert(q[i as int] is None);
            }
            i += 1;
        }
        match pick {
            Some((k, _)) => {
                assert(q[k as int] is Some);
                if let Some(r) = self.slots[k] {
                    assert(r.wf());
                    self.slots[k] = None;
                    assert(self@ =~= q.update(k as int, None));
                    assert(next_due(q, k as int, now_ms));
                    assert(r.buf@ =~= padded(q[k as int]->0.frame)) by {
                        assert forall|j: int| 0 <= j < FRAME_MAX implies r.buf@[j] == padded(
                            q[k as int]->0.frame,
                        )[j] by {
                            if j < r.len {
                                assert(r.buf@.take(r.len as int)[j] == r.buf@[j]);
                            }
                        }
                    }
                    return Some((r.buf, r.len));
                }
                None
            },
            None => None,
        }
    }

    /// Frames waiting.
    pub fn len(&self) -> (r: usize)
        ensures
            r == table::taken(self@),
    {
        proof {
            lemma_same_taken(self.slots@, self@);
        }
        count(&self.slots)
    }

    /// Whether nothing is waiting.
    pub fn is_empty(&self) -> (r: bool)
        ensures
            r == (forall|i: int| 0 <= i < self@.len() ==> (#[trigger] self@[i]) is None),
    {
        proof {
            table::lemma_taken_bounds(self@);
        }
        self.len() == 0
    }

    /// Drop everything waiting: a new config is not a request to forward what
    /// was admitted under the old one.
    pub fn clear(&mut self)
        ensures
            final(self).wf(),
            final(self)@.len() == N,
            forall|i: int| 0 <= i < N ==> (#[trigger] final(self)@[i]) is None,
    {
        self.slots = [None; N];
    }
}

/// Two tables with the same entries taken have as many.
proof fn lemma_same_taken<A, B>(a: Seq<Option<A>>, b: Seq<Option<B>>)
    requires
        a.len() == b.len(),
        forall|i: int| 0 <= i < a.len() ==> ((#[trigger] a[i]) is Some <==> b[i] is Some),
    ensures
        table::taken(a) == table::taken(b),
    decreases a.len(),
{
    if a.len() > 0 {
        lemma_same_taken(a.drop_last(), b.drop_last());
        assert(a[a.len() - 1] is Some <==> b[b.len() - 1] is Some);
    }
}

/// What leaves the queue is due, and nothing that waits was due before it; and
/// where anything is due, something leaves.
pub proof fn law_the_earliest_due_leaves_first(q: Seq<Option<Waiting>>, k: int, i: int, now_ms: u64)
    ensures
        next_due(q, k, now_ms) ==> q[k] is Some && q[k]->0.due_ms <= now_ms,
        next_due(q, k, now_ms) && 0 <= i < q.len() && q[i] is Some ==> q[k]->0.due_ms <= q[i]->0.due_ms,
        0 <= i < q.len() && q[i] is Some && q[i]->0.due_ms <= now_ms ==> any_due(q, now_ms),
        any_due(q, now_ms) ==> exists|k: int| next_due(q, k, now_ms),
{
    if next_due(q, k, now_ms) && 0 <= i < q.len() && q[i] is Some {
        assert(q[i] is Some);
    }
    if any_due(q, now_ms) {
        let a = choose|a: int| 0 <= a < q.len() && (#[trigger] q[a]) is Some && q[a]->0.due_ms <= now_ms;
        let e = lemma_earliest(q, q.len() as int, a);
        assert(next_due(q, e, now_ms));
    }
}

/// The first of the earliest due among the first `n`.
proof fn lemma_earliest(q: Seq<Option<Waiting>>, n: int, a: int) -> (e: int)
    requires
        0 <= a < n <= q.len(),
        q[a] is Some,
    ensures
        0 <= e < n,
        q[e] is Some,
        forall|i: int| 0 <= i < n && (#[trigger] q[i]) is Some ==> q[e]->0.due_ms <= q[i]->0.due_ms,
        forall|i: int| 0 <= i < e && (#[trigger] q[i]) is Some ==> q[e]->0.due_ms < q[i]->0.due_ms,
    decreases n,
{
    if exists|b: int| 0 <= b < n - 1 && (#[trigger] q[b]) is Some {
        let b = choose|b: int| 0 <= b < n - 1 && (#[trigger] q[b]) is Some;
        let e = lemma_earliest(q, n - 1, b);
        if q[n - 1] is Some && q[n - 1]->0.due_ms < q[e]->0.due_ms {
            n - 1
        } else {
            e
        }
    } else {
        a
    }
}

/// A frame not remembered goes in the first place that is free or has run out,
/// and in that of the oldest - the first of them - where none is.
pub proof fn law_a_new_frame_takes_the_first_free_place(m: Memory, src: u8, id: u8, now_ms: u64, after: Memory, k: int)
    requires
        m.admitted(src, id, now_ms, after),
        0 <= k < m.slots.len(),
        m.slots[k] is None || now_ms >= m.slots[k]->0.at_ms + m.ttl_ms || m.ttl_ms == 0,
        forall|j: int|
            0 <= j < k ==> (#[trigger] m.slots[j]) is Some && m.ttl_ms > 0 && now_ms < m.slots[j]->0.at_ms + m.ttl_ms,
    ensures
        after.slots[k] == Some(Seen { src, id, at_ms: now_ms }),
        after.slots.len() == m.slots.len(),
{
    let w = m.swept(m.slots.len() as int, now_ms);
    assert(w[k] is None);
    assert forall|j: int| 0 <= j < k implies w[j] is Some by {
        assert(m.slots[j] is Some);
    }
    assert(table::first_free(w, k));
}

/// A frame is queued for repeating where it is one - one to 39 bytes - and a
/// place is free; whatever waits already stays.
pub proof fn law_a_frame_is_queued_where_there_is_room(
    q: Seq<Option<Waiting>>,
    frame: Seq<u8>,
    due_ms: u64,
    after: Seq<Option<Waiting>>,
    i: int,
)
    requires
        0 <= i < q.len(),
    ensures
        queueable(q, frame) ==> 1 <= frame.len() <= 39,
        1 <= frame.len() <= 39 && q[i] is None ==> queueable(q, frame),
        queued(q, frame, due_ms, after) && q[i] is Some ==> after[i] == q[i],
        queued(q, frame, due_ms, after) ==> after[i] == q[i] || after[i] == Some(Waiting { frame, due_ms }),
        queued(q, frame, due_ms, after) ==> exists|k: int|
            0 <= k < q.len() && #[trigger] after[k] == Some(Waiting { frame, due_ms }) && q[k] is None,
{
    if queued(q, frame, due_ms, after) {
        let k = choose|k: int|
            #[trigger] table::first_free(q, k) && after == q.update(k, Some(Waiting { frame, due_ms }));
        assert(after[k] == Some(Waiting { frame, due_ms }));
    }
}

} // verus!
