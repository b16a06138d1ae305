//! The latest report heard from each remote node, and the BLE values it hands
//! out.
//!
//! One slot per node, newest report wins: a node says one thing at a time - a
//! position while it has a fix, a [`crate::lora::Ping`] while it does not -
//! and what it said before is superseded, not queued.
//!
//! Reports are handed out once each ([`Roster::take_dirty`]), so a value on
//! the air means something was actually heard rather than that a timer fired.
//! Ages are stamped in on the way out, from when the report arrived.
//!
//! Names sit beside the reports rather than inside them. A name is not
//! something a node "last said" - it is what the node is - so it is handed out
//! on its own ([`Roster::take_dirty_name`]) and only when it is news: first
//! heard, or changed.

use vstd::prelude::*;
use vstd::string::StringSliceAdditionalSpecFns;
use crate::ble;
use crate::ble::{label_of, valid_label, AGE_MAX_S, NAME_FIELD_LEN, NODE_NAME_LEN, NODE_PING_LEN, POSITION_PACKET_LEN, REMOTE_LEN, REMOTE_LEN_V2};
use crate::bytes;
use crate::bytes::{put, u16_at, u16_bytes, word_i16};
use crate::link::PING_LEN;
use crate::table;
use crate::table::{count, free};
use crate::time;

verus! {

/// Nodes tracked at once. A shared LoRa channel saturates well before this
/// many nodes are beaconing on it, so the table is not the limit.
pub const SLOTS: usize = 8;

/// A node not heard from in this long is forgotten rather than handed to the
/// next central that connects.
pub const TTL_MS: u64 = 30 * 60 * 1000;

/// What a node last told us, in the bytes the link delivered.
#[derive(Clone, Copy, Debug, PartialEq, Eq, Hash)]
pub enum Report {
    /// Position report: `[src, rssi, packet]`.
    Position([u8; REMOTE_LEN]),
    /// Node ping: `[src, rssi, flags, uptime]`.
    Ping([u8; PING_LEN]),
}

impl Report {
    /// The bytes the link delivered.
    pub open spec fn wire(self) -> Seq<u8> {
        match self {
            Report::Position(b) => b@,
            Report::Ping(b) => b@,
        }
    }

    /// Originating node address, which is byte 0 of either payload.
    pub open spec fn from(self) -> u8 {
        self.wire()[0]
    }

    /// Originating node address.
    pub fn src(&self) -> (r: u8)
        ensures
            r == self.from(),
    {
        match self {
            Report::Position(b) => b[0],
            Report::Ping(b) => b[0],
        }
    }
}

/// One report as a BLE characteristic value, age stamped in.
#[derive(Clone, Copy, Debug, PartialEq, Eq)]
pub enum Value {
    /// For [`ble::REMOTE_UUID`].
    Position([u8; REMOTE_LEN_V2]),
    /// For [`ble::NODE_PING_UUID`].
    Ping([u8; NODE_PING_LEN]),
}

impl Value {
    /// The bytes to notify.
    pub open spec fn wire(self) -> Seq<u8> {
        match self {
            Value::Position(b) => b@,
            Value::Ping(b) => b@,
        }
    }

    /// The bytes to notify.
    pub fn bytes(&self) -> (r: &[u8])
        ensures
            r@ == self.wire(),
    {
        match self {
            Value::Position(b) => b.as_slice(),
            Value::Ping(b) => b.as_slice(),
        }
    }
}

/// A report, when it arrived, and whether it still has to go out.
#[derive(Clone, Copy, Debug, PartialEq, Eq, Hash)]
pub struct Heard {
    pub report: Report,
    /// When the report arrived, on the caller's monotonic millisecond clock.
    pub at_ms: u64,
    /// Set on arrival, cleared once handed out, so one report produces one
    /// notification rather than a value resent on every tick.
    pub dirty: bool,
}

/// What a node calls itself, and whether that is still news.
#[derive(Clone, Copy, Debug, PartialEq, Eq, Hash)]
pub struct Called {
    /// The node that announced it.
    pub src: u8,
    /// The label, zero-padded.
    pub label: [u8; NAME_FIELD_LEN],
    /// When this node was last heard from at all, not when it last announced
    /// its name: a name that expired between two announcements would be
    /// forgotten and re-learned for a node that never went off the air.
    pub at_ms: u64,
    /// Set when the name is first heard and when it changes, cleared once
    /// handed out.
    pub dirty: bool,
}

/// Per-node table of the latest report from each remote node, and of what each
/// node calls itself.
#[derive(Clone, Copy, Debug, PartialEq, Eq, Hash)]
pub struct Roster {
    slots: [Option<Heard>; SLOTS],
    names: [Option<Called>; SLOTS],
}

/// A roster, as its contracts speak of it.
#[verifier::ext_equal]
pub struct Board {
    pub slots: Seq<Option<Heard>>,
    pub names: Seq<Option<Called>>,
}

impl View for Roster {
    type V = Board;

    closed spec fn view(&self) -> Board {
        Board { slots: self.slots@, names: self.names@ }
    }
}

/// Whether something heard at `at_ms` is forgotten by `now_ms`.
pub open spec fn lapsed(at_ms: u64, now_ms: u64) -> bool {
    time::elapsed(at_ms, now_ms) >= TTL_MS
}

/// Seconds since `at_ms`, held at the most the field can say.
pub open spec fn age_s(at_ms: u64, now_ms: u64) -> u16 {
    time::least(time::elapsed(at_ms, now_ms) / 1000, AGE_MAX_S as int) as u16
}

/// The reports still inside the TTL.
pub open spec fn fresh_reports(s: Seq<Option<Heard>>, now_ms: u64) -> Seq<Option<Heard>> {
    Seq::new(
        s.len(),
        |i: int|
            match s[i] {
                Some(h) => if lapsed(h.at_ms, now_ms) {
                    None
                } else {
                    Some(h)
                },
                None => None,
            },
    )
}

/// The names still inside the TTL.
pub open spec fn fresh_names(s: Seq<Option<Called>>, now_ms: u64) -> Seq<Option<Called>> {
    Seq::new(
        s.len(),
        |i: int|
            match s[i] {
                Some(n) => if lapsed(n.at_ms, now_ms) {
                    None
                } else {
                    Some(n)
                },
                None => None,
            },
    )
}

/// Whether entry `k` is node `src`'s report.
pub open spec fn report_of(s: Seq<Option<Heard>>, k: int, src: u8) -> bool {
    0 <= k < s.len() && (s[k] matches Some(h) && h.report.from() == src)
}

/// Whether entry `k` is node `src`'s name.
pub open spec fn name_of(s: Seq<Option<Called>>, k: int, src: u8) -> bool {
    0 <= k < s.len() && (s[k] matches Some(n) && n.src == src)
}

/// Whether `k` is the first of the longest unheard of a full table of reports.
pub open spec fn quietest_report(s: Seq<Option<Heard>>, k: int) -> bool {
    &&& table::full(s)
    &&& 0 <= k < s.len()
    &&& forall|i: int| 0 <= i < s.len() ==> s[k]->0.at_ms <= (#[trigger] s[i])->0.at_ms
    &&& forall|i: int| 0 <= i < k ==> s[k]->0.at_ms < (#[trigger] s[i])->0.at_ms
}

/// Whether `k` is the first of the longest unheard of a full table of names.
pub open spec fn quietest_name(s: Seq<Option<Called>>, k: int) -> bool {
    &&& table::full(s)
    &&& 0 <= k < s.len()
    &&& forall|i: int| 0 <= i < s.len() ==> s[k]->0.at_ms <= (#[trigger] s[i])->0.at_ms
    &&& forall|i: int| 0 <= i < k ==> s[k]->0.at_ms < (#[trigger] s[i])->0.at_ms
}

/// Where a report of node `src` goes: over the one it had, else in the first
/// free entry, else over the node longest unheard.
pub open spec fn report_place(s: Seq<Option<Heard>>, src: u8, k: int) -> bool {
    if exists|i: int| #[trigger] report_of(s, i, src) {
        report_of(s, k, src)
    } else {
        table::first_free(s, k) || quietest_report(s, k)
    }
}

/// Where a name of node `src` goes.
pub open spec fn name_place(s: Seq<Option<Called>>, src: u8, k: int) -> bool {
    if exists|i: int| #[trigger] name_of(s, i, src) {
        name_of(s, k, src)
    } else {
        table::first_free(s, k) || quietest_name(s, k)
    }
}

/// The names with node `src`'s heard from at `now_ms`.
pub open spec fn kept_alive(s: Seq<Option<Called>>, src: u8, now_ms: u64) -> Seq<Option<Called>> {
    Seq::new(
        s.len(),
        |i: int|
            match s[i] {
                Some(n) => if n.src == src {
                    Some(Called { at_ms: now_ms, ..n })
                } else {
                    Some(n)
                },
                None => None,
            },
    )
}

/// Whether entry `k` is the report to hand out: waiting, none waiting heard
/// before it, and the first of its instant.
pub open spec fn report_due(s: Seq<Option<Heard>>, k: int) -> bool {
    &&& 0 <= k < s.len()
    &&& s[k] matches Some(h) && h.dirty && {
        &&& forall|i: int|
            0 <= i < s.len() && ((#[trigger] s[i]) matches Some(o) && o.dirty) ==> h.at_ms <= s[i]->0.at_ms
        &&& forall|i: int| 0 <= i < k && ((#[trigger] s[i]) matches Some(o) && o.dirty) ==> h.at_ms < s[i]->0.at_ms
    }
}

/// Whether entry `k` is the name to hand out.
pub open spec fn name_due(s: Seq<Option<Called>>, k: int) -> bool {
    &&& 0 <= k < s.len()
    &&& s[k] matches Some(n) && n.dirty && {
        &&& forall|i: int|
            0 <= i < s.len() && ((#[trigger] s[i]) matches Some(o) && o.dirty) ==> n.at_ms <= s[i]->0.at_ms
        &&& forall|i: int| 0 <= i < k && ((#[trigger] s[i]) matches Some(o) && o.dirty) ==> n.at_ms < s[i]->0.at_ms
    }
}

/// Whether a report is one the compass can point at: a position inside the
/// TTL.
pub open spec fn is_target(h: Heard, now_ms: u64) -> bool {
    h.report is Position && time::elapsed(h.at_ms, now_ms) <= TTL_MS
}

/// Whether entry `k` is the compass's target: the newest, and the first of its
/// instant.
pub open spec fn target(s: Seq<Option<Heard>>, now_ms: u64, k: int) -> bool {
    &&& 0 <= k < s.len()
    &&& s[k] matches Some(h) && is_target(h, now_ms) && {
        &&& forall|i: int|
            0 <= i < s.len() && ((#[trigger] s[i]) matches Some(o) && is_target(o, now_ms)) ==> s[i]->0.at_ms <= h.at_ms
        &&& forall|i: int|
            0 <= i < k && ((#[trigger] s[i]) matches Some(o) && is_target(o, now_ms)) ==> s[i]->0.at_ms < h.at_ms
    }
}

impl Heard {
    /// What the compass reads of a position: the node, its packet, its age and
    /// its signal.
    pub open spec fn pointed(self, now_ms: u64) -> (u8, Seq<u8>, u16, i16) {
        (
            self.report.from(),
            self.report.wire().skip(3),
            age_s(self.at_ms, now_ms),
            bytes::to_i16(bytes::le16_at(self.report.wire(), 1)),
        )
    }
}

impl Board {
    /// Whether `v` is the report of entry `k` as it goes to the app, and
    /// `after` the board once it has.
    pub open spec fn hands_out(self, k: int, now_ms: u64, v: Value, after: Board) -> bool {
        let h = self.slots[k]->0;
        &&& 0 <= k < self.slots.len() && self.slots[k] is Some
        &&& after == (Board { slots: self.slots.update(k, Some(Heard { dirty: false, ..h })), ..self })
        &&& v.wire() == h.report.wire() + bytes::le16(age_s(h.at_ms, now_ms))
        &&& (v is Position <==> h.report is Position)
    }

    /// Whether `v` is the name of entry `k` as it goes to the app, and `after`
    /// the board once it has.
    pub open spec fn hands_out_name(self, k: int, v: Seq<u8>, after: Board) -> bool {
        let n = self.names[k]->0;
        &&& 0 <= k < self.names.len() && self.names[k] is Some
        &&& after == (Board { names: self.names.update(k, Some(Called { dirty: false, ..n })), ..self })
        &&& v == seq![n.src] + n.label@
    }
}

/// Whether a name field holds a label, zero-padded.
pub open spec fn holds_label(field: Seq<u8>) -> bool {
    ble::is_label(ble::field_label(field)) && field == ble::padded(ble::field_label(field))
}

impl Board {
    /// What every roster keeps: one entry a node in each table, and every name
    /// a label.
    pub open spec fn wf(self) -> bool {
        &&& self.slots.len() == SLOTS
        &&& self.names.len() == SLOTS
        &&& forall|i: int, j: int|
            0 <= i < j < SLOTS && (#[trigger] self.slots[i]) is Some && (#[trigger] self.slots[j]) is Some
                ==> self.slots[i]->0.report.from() != self.slots[j]->0.report.from()
        &&& forall|i: int, j: int|
            0 <= i < j < SLOTS && (#[trigger] self.names[i]) is Some && (#[trigger] self.names[j]) is Some
                ==> self.names[i]->0.src != self.names[j]->0.src
        &&& forall|i: int|
            0 <= i < SLOTS && (#[trigger] self.names[i]) is Some ==> holds_label(self.names[i]->0.label@)
    }

    /// The roster without what has lapsed by `now_ms`.
    pub open spec fn fresh(self, now_ms: u64) -> Board {
        Board { slots: fresh_reports(self.slots, now_ms), names: fresh_names(self.names, now_ms) }
    }

    /// Whether `after` is this roster with a report recorded.
    pub open spec fn recorded(self, now_ms: u64, report: Report, after: Board) -> bool {
        let f = self.fresh(now_ms);
        &&& exists|k: int|
            #[trigger] report_place(f.slots, report.from(), k) && after.slots == f.slots.update(
                k,
                Some(Heard { report, at_ms: now_ms, dirty: true }),
            )
        &&& after.names == kept_alive(f.names, report.from(), now_ms)
    }

    /// Whether a node is known by this label.
    pub open spec fn calls(self, src: u8, label: Seq<u8>) -> bool {
        exists|k: int| #[trigger] name_of(self.names, k, src) && ble::field_label(self.names[k]->0.label@) == label
    }

    /// Whether `after` is this roster with a name recorded, `news` where it is
    /// the first of a node's or another than it had.
    pub open spec fn named(self, now_ms: u64, src: u8, label: Seq<u8>, news: bool, after: Board) -> bool {
        let f = self.fresh(now_ms);
        &&& after.slots == f.slots
        &&& news == !f.calls(src, label)
        &&& exists|k: int|
            {
                &&& #[trigger] name_place(f.names, src, k)
                &&& after.names.len() == f.names.len()
                &&& forall|i: int| 0 <= i < f.names.len() && i != k ==> #[trigger] after.names[i] == f.names[i]
                &&& after.names[k] matches Some(n) && {
                    &&& n.src == src
                    &&& n.at_ms == now_ms
                    &&& n.label@ == ble::padded(label)
                    &&& n.dirty == (news || f.names[k]->0.dirty)
                }
            }
    }
}

impl Default for Roster {
    fn default() -> (r: Self)
        ensures
            r@.wf(),
            forall|i: int| 0 <= i < SLOTS ==> (#[trigger] r@.slots[i]) is None,
            forall|i: int| 0 <= i < SLOTS ==> (#[trigger] r@.names[i]) is None,
    {
        Self::new()
    }
}

impl Roster {
    /// Nobody heard.
    pub fn new() -> (r: Self)
        ensures
            r@.wf(),
            forall|i: int| 0 <= i < SLOTS ==> (#[trigger] r@.slots[i]) is None,
            forall|i: int| 0 <= i < SLOTS ==> (#[trigger] r@.names[i]) is None,
    {
        Self { slots: [None; SLOTS], names: [None; SLOTS] }
    }

    /// Which entry is node `src`'s report.
    fn find_report(&self, src: u8) -> (r: Option<usize>)
        ensures
            r matches Some(k) ==> report_of(self@.slots, k as int, src),
            r is None ==> forall|i: int| !(#[trigger] report_of(self@.slots, i, src)),
    {
        let mut i: usize = 0;
        while i < SLOTS
            invariant
                i <= SLOTS,
                self.slots@.len() == SLOTS,
                forall|j: int| 0 <= j < i ==> !(#[trigger] report_of(self@.slots, j, src)),
            decreases SLOTS - i,
        {
            if let Some(h) = self.slots[i] {
                if h.report.src() == src {
                    assert(report_of(self@.slots, i as int, src));
                    return Some(i);
                }
            }
            assert(!report_of(self@.slots, i as int, src));
            i += 1;
        }
        None
    }

    /// Which entry is node `src`'s name.
    fn find_name(&self, src: u8) -> (r: Option<usize>)
        ensures
            r matches Some(k) ==> name_of(self@.names, k as int, src),
            r is None ==> forall|i: int| !(#[trigger] name_of(self@.names, i, src)),
    {
        let mut i: usize = 0;
        while i < SLOTS
            invariant
                i <= SLOTS,
                self.names@.len() == SLOTS,
                forall|j: int| 0 <= j < i ==> !(#[trigger] name_of(self@.names, j, src)),
            decreases SLOTS - i,
        {
            if let Some(n) = self.names[i] {
                if n.src == src {
                    assert(name_of(self@.names, i as int, src));
                    return Some(i);
                }
            }
            assert(!name_of(self@.names, i as int, src));
            i += 1;
        }
        None
    }

    /// Index of the report longest unheard of a full table.
    fn oldest(&self) -> (r: usize)
        requires
            table::full(self@.slots),
        ensures
            r < SLOTS,
            quietest_report(self@.slots, r as int),
    {
        let mut oldest: usize = 0;
        let mut at: u64 = match self.slots[0] {
            Some(h) => h.at_ms,
            None => 0,
        };
        let mut i: usize = 1;
        assert(self@.slots[0] is Some);
        while i < SLOTS
            invariant
                1 <= i <= SLOTS,
                self.slots@.len() == SLOTS,
                table::full(self@.slots),
                oldest < i,
                at == self@.slots[oldest as int]->0.at_ms,
                forall|j: int| 0 <= j < i ==> at <= (#[trigger] self@.slots[j])->0.at_ms,
                forall|j: int| 0 <= j < oldest ==> at < (#[trigger] self@.slots[j])->0.at_ms,
            decreases SLOTS - i,
        {
            assert(self@.slots[i as int] is Some);
            if let Some(h) = self.slots[i] {
                if h.at_ms < at {
                    oldest = i;
                    at = h.at_ms;
                }
            }
            i += 1;
        }
        oldest
    }

    /// Index of the name longest unheard of a full table.
    fn oldest_name(&self) -> (r: usize)
        requires
            table::full(self@.names),
        ensures
            r < SLOTS,
            quietest_name(self@.names, r as int),
    {
        let mut oldest: usize = 0;
        let mut at: u64 = match self.names[0] {
            Some(n) => n.at_ms,
            None => 0,
        };
        let mut i: usize = 1;
        assert(self@.names[0] is Some);
        while i < SLOTS
            invariant
                1 <= i <= SLOTS,
                self.names@.len() == SLOTS,
                table::full(self@.names),
                oldest < i,
                at == self@.names[oldest as int]->0.at_ms,
                forall|j: int| 0 <= j < i ==> at <= (#[trigger] self@.names[j])->0.at_ms,
                forall|j: int| 0 <= j < oldest ==> at < (#[trigger] self@.names[j])->0.at_ms,
            decreases SLOTS - i,
        {
            assert(self@.names[i as int] is Some);
            if let Some(n) = self.names[i] {
                if n.at_ms < at {
                    oldest = i;
                    at = n.at_ms;
                }
            }
            i += 1;
        }
        oldest
    }

    /// Forget nodes not heard from within [`TTL_MS`], names included.
    fn expire(&mut self, now_ms: u64)
        requires
            old(self)@.wf(),
        ensures
            final(self)@ == old(self)@.fresh(now_ms),
            final(self)@.wf(),
    {
        let ghost was = self@;
        let mut i: usize = 0;
        while i < SLOTS
            invariant
                i <= SLOTS,
                self.slots@.len() == SLOTS,
                self.names@.len() == SLOTS,
                was.slots.len() == SLOTS,
                was.names.len() == SLOTS,
                forall|j: int| 0 <= j < i ==> self.slots@[j] == fresh_reports(was.slots, now_ms)[j],
                forall|j: int| 0 <= j < i ==> self.names@[j] == fresh_names(was.names, now_ms)[j],
                forall|j: int| i <= j < SLOTS ==> self.slots@[j] == was.slots[j],
                forall|j: int| i <= j < SLOTS ==> self.names@[j] == was.names[j],
            decreases SLOTS - i,
        {
            if let Some(h) = self.slots[i] {
                if now_ms.saturating_sub(h.at_ms) >= TTL_MS {
                    self.slots[i] = None;
                }
            }
            if let Some(n) = self.names[i] {
                if now_ms.saturating_sub(n.at_ms) >= TTL_MS {
                    self.names[i] = None;
                }
            }
            i += 1;
        }
        assert(self@ =~= was.fresh(now_ms));
    }

    /// Record a node's newest report, replacing whatever that node last said.
    ///
    /// A full table gives up the node that has gone quietest. Entries past
    /// [`TTL_MS`] are dropped first, so it is a node long off the air that
    /// makes way rather than a live one that happens to beacon slowly. Hearing
    /// from a node keeps its name alive, whatever the report was.
    pub fn record(&mut self, now_ms: u64, report: Report)
        requires
            old(self)@.wf(),
        ensures
            final(self)@.wf(),
            old(self)@.recorded(now_ms, report, final(self)@),
    {
        let src: u8 = report.src();
        let ghost was = self@;
        self.expire(now_ms);
        let ghost f = self@;
        let k: usize = match self.find_report(src) {
            Some(k) => k,
            None => match free(&self.slots) {
                Some(k) => k,
                None => self.oldest(),
            },
        };
        assert(report_place(f.slots, src, k as int)) by {
            if exists|i: int| #[trigger] report_of(f.slots, i, src) {
                assert(report_of(f.slots, k as int, src));
            }
        }
        self.slots[k] = Some(Heard { report, at_ms: now_ms, dirty: true });
        let named: Option<usize> = self.find_name(src);
        if let Some(n) = named {
            if let Some(mut called) = self.names[n] {
                called.at_ms = now_ms;
                self.names[n] = Some(called);
            }
        }
        proof {
            assert(self@.names =~= kept_alive(f.names, src, now_ms)) by {
                assert forall|i: int| 0 <= i < SLOTS implies self@.names[i] == kept_alive(f.names, src, now_ms)[i] by {
                    match named {
                        Some(n) => {
                            assert(name_of(f.names, n as int, src));
                        },
                        None => {
                            assert(!name_of(f.names, i, src));
                        },
                    }
                }
            }
            assert forall|i: int, j: int|
                0 <= i < j < SLOTS && (#[trigger] self@.slots[i]) is Some && (#[trigger] self@.slots[j]) is Some
                implies self@.slots[i]->0.report.from() != self@.slots[j]->0.report.from() by {
                if i == k || j == k {
                    let o = if i == k { j } else { i };
                    assert(self@.slots[o] == f.slots[o]);
                    if report_of(f.slots, o, src) {
                        assert(report_of(f.slots, k as int, src));
                        assert(f.slots[o] is Some && f.slots[k as int] is Some);
                    }
                } else {
                    assert(f.slots[i] is Some && f.slots[j] is Some);
                }
            }
            assert(self@.wf());
        }
    }

    /// Record what a node calls itself, returning whether this is news - a
    /// node named for the first time, or one that has been renamed.
    ///
    /// A label that is not one a board would store is ignored rather than
    /// recorded, and address 0 is not assignable. A name arriving for a node
    /// nothing has been heard from is kept: a node announces its name as its
    /// first transmission after boot.
    pub fn record_name(&mut self, now_ms: u64, src: u8, label: &str) -> (r: bool)
        requires
            old(self)@.wf(),
        ensures
            final(self)@.wf(),
            src == 0 || !ble::is_label(label.spec_bytes()) ==> !r && *final(self) == *old(self),
            src != 0 && ble::is_label(label.spec_bytes()) ==> old(self)@.named(
                now_ms,
                src,
                label.spec_bytes(),
                r,
                final(self)@,
            ),
    {
        if src == 0 || !valid_label(label.as_bytes()) {
            return false;
        }
        let ghost was = self@;
        let ghost text = label.spec_bytes();
        self.expire(now_ms);
        let ghost f = self@;
        let mut padded: [u8; NAME_FIELD_LEN] = [0u8; NAME_FIELD_LEN];
        put(&mut padded, 0, label.as_bytes());
        proof {
            assert(padded@ =~= ble::padded(text));
            ble::law_padded_label_round_trip(text);
        }
        if let Some(k) = self.find_name(src) {
            if let Some(mut n) = self.names[k] {
                let same: bool = same_field(&n.label, &padded);
                n.at_ms = now_ms;
                if !same {
                    n.label = padded;
                    n.dirty = true;
                }
                self.names[k] = Some(n);
                proof {
                    assert(name_of(f.names, k as int, src));
                    assert(name_place(f.names, src, k as int));
                    assert(f.names[k as int] is Some);
                    let had = f.names[k as int]->0;
                    assert(holds_label(had.label@));
                    assert(same == (ble::field_label(had.label@) == text));
                    assert(f.calls(src, text) == same) by {
                        if f.calls(src, text) {
                            let j = choose|j: int|
                                #[trigger] name_of(f.names, j, src) && ble::field_label(f.names[j]->0.label@) == text;
                            assert(f.names[j] is Some);
                        }
                    }
                    assert(n.label@ == ble::padded(text));
                    assert(was.named(now_ms, src, text, !same, self@));
                    lemma_names_wf(f, self@, k as int);
                }
                return !same;
            }
        }
        let k: usize = match free(&self.names) {
            Some(k) => k,
            None => self.oldest_name(),
        };
        self.names[k] = Some(Called { src, label: padded, at_ms: now_ms, dirty: true });
        proof {
            assert(forall|i: int| !(#[trigger] name_of(f.names, i, src)));
            assert(name_place(f.names, src, k as int));
            assert(was.named(now_ms, src, text, true, self@));
            assert forall|i: int| 0 <= i < SLOTS && (#[trigger] f.names[i]) is Some implies f.names[i]->0.src != src by {
                assert(!name_of(f.names, i, src));
            }
            lemma_names_wf(f, self@, k as int);
        }
        true
    }

    /// Take the oldest report still waiting to go out, as the value to notify.
    /// `None` once every node's current report has been handed out.
    ///
    /// Oldest first, so a central connecting to a board that has heard several
    /// nodes receives them in the order they were heard.
    pub fn take_dirty(&mut self, now_ms: u64) -> (r: Option<Value>)
        requires
            old(self)@.wf(),
        ensures
            final(self)@.wf(),
            r is None ==> *final(self) == *old(self),
            r is None <==> (forall|i: int|
                0 <= i < SLOTS && (#[trigger] old(self)@.slots[i]) is Some ==> !old(self)@.slots[i]->0.dirty),
            r matches Some(v) ==> exists|k: int|
                #[trigger] report_due(old(self)@.slots, k) && old(self)@.hands_out(k, now_ms, v, final(self)@),
    {
        let ghost was = self@;
        let mut pick: Option<(usize, u64)> = None;
        let mut i: usize = 0;
        while i < SLOTS
            invariant
                i <= SLOTS,
                *self == *old(self),
                was == self@,
                was.slots.len() == SLOTS,
                match pick {
                    Some((k, at)) => {
                        &&& k < i
                        &&& was.slots[k as int] matches Some(h) && h.dirty && h.at_ms == at
                        &&& forall|j: int|
                            0 <= j < i && ((#[trigger] was.slots[j]) matches Some(o) && o.dirty) ==> at
                                <= was.slots[j]->0.at_ms
                        &&& forall|j: int|
                            0 <= j < k && ((#[trigger] was.slots[j]) matches Some(o) && o.dirty) ==> at
                                < was.slots[j]->0.at_ms
                    },
                    None => forall|j: int|
                        0 <= j < i && (#[trigger] was.slots[j]) is Some ==> !was.slots[j]->0.dirty,
                },
            decreases SLOTS - i,
        {
            if let Some(h) = self.slots[i] {
                let older: bool = match pick {
                    Some((_, at)) => h.at_ms < at,
                    None => true,
                };
                if h.dirty && older {
                    pick = Some((i, h.at_ms));
                }
            }
            i += 1;
        }
        match pick {
            None => None,
            Some((k, at_ms)) => {
                if let Some(mut h) = self.slots[k] {
                    let age: u16 = age_of(at_ms, now_ms);
                    h.dirty = false;
                    self.slots[k] = Some(h);
                    proof {
                        assert(report_due(was.slots, k as int));
                        assert(self@.slots =~= was.slots.update(k as int, Some(Heard { dirty: false, ..was.slots[k as int]->0 })));
                        assert(self@.wf()) by {
                            assert forall|a: int, b: int|
                                0 <= a < b < SLOTS && (#[trigger] self@.slots[a]) is Some && (#[trigger] self@.slots[b]) is Some
                                implies self@.slots[a]->0.report.from() != self@.slots[b]->0.report.from() by {
                                assert(was.slots[a] is Some && was.slots[b] is Some);
                            }
                        }
                    }
                    return Some(aged(&h.report, age));
                }
                None
            },
        }
    }

    /// Take the oldest name still waiting to go out, as the value to notify:
    /// `[src, label zero-padded]`. `None` once every name has been handed out.
    ///
    /// No age travels with it: a name is not a measurement that goes stale.
    pub fn take_dirty_name(&mut self) -> (r: Option<[u8; NODE_NAME_LEN]>)
        requires
            old(self)@.wf(),
        ensures
            final(self)@.wf(),
            r is None ==> *final(self) == *old(self),
            r is None <==> (forall|i: int|
                0 <= i < SLOTS && (#[trigger] old(self)@.names[i]) is Some ==> !old(self)@.names[i]->0.dirty),
            r matches Some(v) ==> exists|k: int|
                #[trigger] name_due(old(self)@.names, k) && old(self)@.hands_out_name(k, v@, final(self)@),
    {
        let ghost was = self@;
        let mut pick: Option<(usize, u64)> = None;
        let mut i: usize = 0;
        while i < SLOTS
            invariant
                i <= SLOTS,
                *self == *old(self),
                was == self@,
                was.names.len() == SLOTS,
                match pick {
                    Some((k, at)) => {
                        &&& k < i
                        &&& was.names[k as int] matches Some(n) && n.dirty && n.at_ms == at
                        &&& forall|j: int|
                            0 <= j < i && ((#[trigger] was.names[j]) matches Some(o) && o.dirty) ==> at
                                <= was.names[j]->0.at_ms
                        &&& forall|j: int|
                            0 <= j < k && ((#[trigger] was.names[j]) matches Some(o) && o.dirty) ==> at
                                < was.names[j]->0.at_ms
                    },
                    None => forall|j: int|
                        0 <= j < i && (#[trigger] was.names[j]) is Some ==> !was.names[j]->0.dirty,
                },
            decreases SLOTS - i,
        {
            if let Some(n) = self.names[i] {
                let older: bool = match pick {
                    Some((_, at)) => n.at_ms < at,
                    None => true,
                };
                if n.dirty && older {
                    pick = Some((i, n.at_ms));
                }
            }
            i += 1;
        }
        match pick {
            None => None,
            Some((k, _)) => {
                if let Some(mut n) = self.names[k] {
                    n.dirty = false;
                    self.names[k] = Some(n);
                    let mut v: [u8; NODE_NAME_LEN] = [0u8; NODE_NAME_LEN];
                    v[0] = n.src;
                    put(&mut v, 1, n.label.as_slice());
                    proof {
                        assert(name_due(was.names, k as int));
                        assert(v@ =~= seq![n.src] + n.label@);
                        assert(self@.names =~= was.names.update(k as int, Some(Called { dirty: false, ..was.names[k as int]->0 })));
                        assert(was.names[k as int] is Some);
                        lemma_names_wf(was, self@, k as int);
                    }
                    return Some(v);
                }
                None
            },
        }
    }

    /// What a node calls itself, or `None` for one that has not said.
    pub fn name(&self, src: u8) -> (r: Option<&str>)
        requires
            self@.wf(),
        ensures
            r is Some <==> exists|k: int| #[trigger] name_of(self@.names, k, src),
            r matches Some(s) ==> self@.calls(src, s.spec_bytes()),
    {
        match self.find_name(src) {
            Some(k) => match &self.names[k] {
                Some(n) => Some(label_of(n.label.as_slice())),
                None => None,
            },
            None => None,
        }
    }

    /// Re-arm every node still inside the TTL, so a central that has just
    /// connected receives the whole roster, names included, rather than only
    /// the next node to report. Nodes past the TTL are dropped instead of
    /// replayed.
    pub fn replay(&mut self, now_ms: u64)
        requires
            old(self)@.wf(),
        ensures
            final(self)@.wf(),
            final(self)@ == old(self)@.fresh(now_ms).rearmed(),
    {
        self.expire(now_ms);
        let ghost f = self@;
        let mut i: usize = 0;
        while i < SLOTS
            invariant
                i <= SLOTS,
                self.slots@.len() == SLOTS,
                self.names@.len() == SLOTS,
                f.slots.len() == SLOTS,
                f.names.len() == SLOTS,
                forall|j: int| 0 <= j < i ==> self.slots@[j] == f.rearmed().slots[j],
                forall|j: int| 0 <= j < i ==> self.names@[j] == f.rearmed().names[j],
                forall|j: int| i <= j < SLOTS ==> self.slots@[j] == f.slots[j],
                forall|j: int| i <= j < SLOTS ==> self.names@[j] == f.names[j],
            decreases SLOTS - i,
        {
            if let Some(mut h) = self.slots[i] {
                h.dirty = true;
                self.slots[i] = Some(h);
            }
            if let Some(mut n) = self.names[i] {
                n.dirty = true;
                self.names[i] = Some(n);
            }
            i += 1;
        }
        proof {
            assert(self@ =~= f.rearmed());
            assert forall|a: int, b: int|
                0 <= a < b < SLOTS && (#[trigger] self@.slots[a]) is Some && (#[trigger] self@.slots[b]) is Some
                implies self@.slots[a]->0.report.from() != self@.slots[b]->0.report.from() by {
                assert(f.slots[a] is Some && f.slots[b] is Some);
            }
            assert forall|a: int, b: int|
                0 <= a < b < SLOTS && (#[trigger] self@.names[a]) is Some && (#[trigger] self@.names[b]) is Some
                implies self@.names[a]->0.src != self@.names[b]->0.src by {
                assert(f.names[a] is Some && f.names[b] is Some);
            }
        }
    }

    /// The most recently heard node that reported a position, as
    /// `(src, packet bytes, age in seconds, rssi)`.
    ///
    /// This is what the compass points at. Newest rather than nearest: the
    /// arrow changes only when a different node is actually heard from.
    /// Ping-only nodes carry no position, so there is nothing to point at.
    pub fn newest_position(&self, now_ms: u64) -> (r: Option<(u8, [u8; POSITION_PACKET_LEN], u16, i16)>)
        ensures
            r is Some <==> exists|i: int|
                0 <= i < self@.slots.len() && ((#[trigger] self@.slots[i]) matches Some(h) && is_target(h, now_ms)),
            r matches Some((src, packet, age, rssi)) ==> exists|k: int|
                #[trigger] target(self@.slots, now_ms, k) && self@.slots[k]->0.pointed(now_ms) == (src, packet@, age, rssi),
    {
        let mut pick: Option<(usize, u64)> = None;
        let mut i: usize = 0;
        while i < SLOTS
            invariant
                i <= SLOTS,
                self@.slots.len() == SLOTS,
                match pick {
                    Some((k, at)) => {
                        &&& k < i
                        &&& self@.slots[k as int] matches Some(h) && is_target(h, now_ms) && h.at_ms == at
                        &&& forall|j: int|
                            0 <= j < i && ((#[trigger] self@.slots[j]) matches Some(o) && is_target(o, now_ms))
                                ==> self@.slots[j]->0.at_ms <= at
                        &&& forall|j: int|
                            0 <= j < k && ((#[trigger] self@.slots[j]) matches Some(o) && is_target(o, now_ms))
                                ==> self@.slots[j]->0.at_ms < at
                    },
                    None => forall|j: int|
                        0 <= j < i && (#[trigger] self@.slots[j]) is Some ==> !is_target(self@.slots[j]->0, now_ms),
                },
            decreases SLOTS - i,
        {
            if let Some(h) = self.slots[i] {
                let at_all: bool = matches!(h.report, Report::Position(_));
                if at_all && now_ms.saturating_sub(h.at_ms) <= TTL_MS {
                    let newer: bool = match pick {
                        Some((_, at)) => h.at_ms > at,
                        None => true,
                    };
                    if newer {
                        pick = Some((i, h.at_ms));
                    }
                }
            }
            i += 1;
        }
        match pick {
            None => None,
            Some((k, at_ms)) => {
                if let Some(h) = self.slots[k] {
                    if let Report::Position(b) = h.report {
                        let mut packet: [u8; POSITION_PACKET_LEN] = [0u8; POSITION_PACKET_LEN];
                        put(&mut packet, 0, &b.as_slice()[3..REMOTE_LEN]);
                        assert(packet@ =~= b@.skip(3));
                        assert(target(self@.slots, now_ms, k as int));
                        return Some((b[0], packet, age_of(at_ms, now_ms), word_i16(u16_at(b.as_slice(), 1))));
                    }
                }
                None
            },
        }
    }

    /// Nodes currently remembered.
    pub fn len(&self) -> (r: usize)
        ensures
            r == table::taken(self@.slots),
    {
        count(&self.slots)
    }

    /// Whether nobody is.
    pub fn is_empty(&self) -> (r: bool)
        ensures
            r == (forall|i: int| 0 <= i < self@.slots.len() ==> (#[trigger] self@.slots[i]) is None),
    {
        proof {
            table::lemma_taken_bounds(self.slots@);
        }
        self.len() == 0
    }
}

impl Board {
    /// The roster with everything in it waiting to go out again.
    pub open spec fn rearmed(self) -> Board {
        Board {
            slots: Seq::new(
                self.slots.len(),
                |i: int|
                    match self.slots[i] {
                        Some(h) => Some(Heard { dirty: true, ..h }),
                        None => None,
                    },
            ),
            names: Seq::new(
                self.names.len(),
                |i: int|
                    match self.names[i] {
                        Some(n) => Some(Called { dirty: true, ..n }),
                        None => None,
                    },
            ),
        }
    }
}

/// Whether two name fields hold the same bytes.
fn same_field(a: &[u8; NAME_FIELD_LEN], b: &[u8; NAME_FIELD_LEN]) -> (r: bool)
    ensures
        r == (a@ == b@),
{
    let mut i: usize = 0;
    while i < NAME_FIELD_LEN
        invariant
            i <= NAME_FIELD_LEN,
            a@.len() == NAME_FIELD_LEN,
            b@.len() == NAME_FIELD_LEN,
            forall|j: int| 0 <= j < i ==> a@[j] == b@[j],
        decreases NAME_FIELD_LEN - i,
    {
        if a[i] != b[i] {
            return false;
        }
        i += 1;
    }
    assert(a@ =~= b@);
    true
}

/// A roster whose names differ from one in order in one entry, that entry a
/// label of a node no other entry names, is in order.
proof fn lemma_names_wf(f: Board, after: Board, k: int)
    requires
        f.wf(),
        0 <= k < SLOTS,
        after.slots == f.slots,
        after.names.len() == SLOTS,
        forall|i: int| 0 <= i < SLOTS && i != k ==> #[trigger] after.names[i] == f.names[i],
        after.names[k] is Some ==> holds_label(after.names[k]->0.label@),
        forall|i: int|
            0 <= i < SLOTS && i != k && (#[trigger] f.names[i]) is Some && after.names[k] is Some ==> f.names[i]->0.src
                != after.names[k]->0.src,
    ensures
        after.wf(),
{
    assert forall|i: int, j: int|
        0 <= i < j < SLOTS && (#[trigger] after.names[i]) is Some && (#[trigger] after.names[j]) is Some
        implies after.names[i]->0.src != after.names[j]->0.src by {
        if i == k {
            assert(f.names[j] is Some);
        } else if j == k {
            assert(f.names[i] is Some);
        } else {
            assert(f.names[i] is Some && f.names[j] is Some);
        }
    }
    assert forall|i: int| 0 <= i < SLOTS && (#[trigger] after.names[i]) is Some implies holds_label(
        after.names[i]->0.label@,
    ) by {
        if i != k {
            assert(f.names[i] is Some);
        }
    }
}

/// Seconds since `at_ms`, held at the most the field can say.
fn age_of(at_ms: u64, now_ms: u64) -> (r: u16)
    ensures
        r == age_s(at_ms, now_ms),
{
    let s: u64 = now_ms.saturating_sub(at_ms) / 1000;
    if s < AGE_MAX_S as u64 {
        s as u16
    } else {
        AGE_MAX_S
    }
}

/// A report with its age behind it.
fn aged(report: &Report, age: u16) -> (r: Value)
    ensures
        r.wire() == report.wire() + bytes::le16(age),
        r is Position <==> report is Position,
{
    let w: [u8; 2] = u16_bytes(age);
    match report {
        Report::Position(b) => {
            let mut v: [u8; REMOTE_LEN_V2] = [0u8; REMOTE_LEN_V2];
            put(&mut v, 0, b.as_slice());
            put(&mut v, REMOTE_LEN, w.as_slice());
            assert(v@ =~= b@ + bytes::le16(age));
            Value::Position(v)
        },
        Report::Ping(b) => {
            let mut v: [u8; NODE_PING_LEN] = [0u8; NODE_PING_LEN];
            put(&mut v, 0, b.as_slice());
            put(&mut v, PING_LEN, w.as_slice());
            assert(v@ =~= b@ + bytes::le16(age));
            Value::Ping(v)
        },
    }
}

// -- What holds of every roster --------------------------------------------------

/// The newest report of a node wins: once recorded it is the one report of
/// that node, and it waits to go out.
pub proof fn law_the_newest_report_wins(b: Board, now_ms: u64, report: Report, after: Board, k: int)
    requires
        b.wf(),
        after.wf(),
        b.recorded(now_ms, report, after),
        report_of(after.slots, k, report.from()),
    ensures
        after.slots[k] == Some(Heard { report, at_ms: now_ms, dirty: true }),
{
    let f = b.fresh(now_ms);
    let p = choose|p: int|
        #[trigger] report_place(f.slots, report.from(), p) && after.slots == f.slots.update(
            p,
            Some(Heard { report, at_ms: now_ms, dirty: true }),
        );
    assert(after.slots[p] is Some && after.slots[k] is Some);
}

/// Every node heard is kept while there is room: recording one node's report
/// forgets no other still inside the TTL unless the table is full of nodes
/// that are, and then it forgets the one longest unheard.
pub proof fn law_a_full_table_gives_up_the_quietest(b: Board, now_ms: u64, report: Report, after: Board, i: int)
    requires
        b.wf(),
        b.recorded(now_ms, report, after),
        0 <= i < SLOTS,
        b.slots[i] matches Some(h) && !lapsed(h.at_ms, now_ms) && h.report.from() != report.from(),
    ensures
        after.slots[i] == b.slots[i] || (table::full(b.fresh(now_ms).slots) && (forall|j: int|
            0 <= j < SLOTS ==> b.slots[i]->0.at_ms <= (#[trigger] b.slots[j])->0.at_ms)),
{
    let f = b.fresh(now_ms);
    let p = choose|p: int|
        #[trigger] report_place(f.slots, report.from(), p) && after.slots == f.slots.update(
            p,
            Some(Heard { report, at_ms: now_ms, dirty: true }),
        );
    assert(f.slots[i] == b.slots[i]);
    if p == i {
        if exists|j: int| #[trigger] report_of(f.slots, j, report.from()) {
            assert(report_of(f.slots, p, report.from()));
        } else {
            assert(!table::first_free(f.slots, p));
            assert forall|j: int| 0 <= j < SLOTS implies b.slots[i]->0.at_ms <= (#[trigger] b.slots[j])->0.at_ms by {
                assert(f.slots[j] is Some);
            }
        }
    }
}

/// A report is handed out once, and the ones that wait are handed out in the
/// order they were heard.
pub proof fn law_reports_go_out_once_and_in_order(s: Seq<Option<Heard>>, k: int, next: int)
    requires
        report_due(s, k),
        report_due(s.update(k, Some(Heard { dirty: false, ..s[k]->0 })), next),
    ensures
        next != k,
        s[k]->0.at_ms <= s[next]->0.at_ms,
{
    let after = s.update(k, Some(Heard { dirty: false, ..s[k]->0 }));
    assert(after[next] is Some);
    assert(after[k] is Some);
}

/// A name recorded is the name read, until another is: the node is known by
/// it, and by nothing else, and hearing a report from the node keeps it.
pub proof fn law_a_name_recorded_is_the_name_read(
    b: Board,
    now_ms: u64,
    src: u8,
    label: Seq<u8>,
    news: bool,
    after: Board,
    other: Seq<u8>,
    report: Report,
    later: Board,
    later_ms: u64,
)
    requires
        b.wf(),
        after.wf(),
        ble::is_label(label),
        b.named(now_ms, src, label, news, after),
        report.from() == src,
        after.recorded(later_ms, report, later),
        !lapsed(now_ms, later_ms),
    ensures
        after.calls(src, label),
        after.calls(src, other) ==> other == label,
        later.calls(src, label),
{
    let f = b.fresh(now_ms);
    ble::law_padded_label_round_trip(label);
    let k = choose|k: int|
        {
            &&& #[trigger] name_place(f.names, src, k)
            &&& after.names.len() == f.names.len()
            &&& forall|i: int| 0 <= i < f.names.len() && i != k ==> #[trigger] after.names[i] == f.names[i]
            &&& after.names[k] matches Some(n) && {
                &&& n.src == src
                &&& n.at_ms == now_ms
                &&& n.label@ == ble::padded(label)
                &&& n.dirty == (news || f.names[k]->0.dirty)
            }
        };
    assert(name_of(after.names, k, src));
    if after.calls(src, other) {
        let j = choose|j: int|
            #[trigger] name_of(after.names, j, src) && ble::field_label(after.names[j]->0.label@) == other;
        assert(after.names[j] is Some && after.names[k] is Some);
    }
    assert(name_of(later.names, k, src));
}

/// A node that goes off the air is forgotten, report and name: neither is in
/// what is left once the TTL has run, and what is left is what had not run
/// out.
pub proof fn law_a_node_off_the_air_is_forgotten(b: Board, now_ms: u64, i: int)
    requires
        b.wf(),
        0 <= i < SLOTS,
    ensures
        b.fresh(now_ms).slots[i] == (if b.slots[i] is Some && lapsed(b.slots[i]->0.at_ms, now_ms) {
            None
        } else {
            b.slots[i]
        }),
        b.fresh(now_ms).names[i] == (if b.names[i] is Some && lapsed(b.names[i]->0.at_ms, now_ms) {
            None
        } else {
            b.names[i]
        }),
        b.slots[i] is Some && time::elapsed(b.slots[i]->0.at_ms, now_ms) > TTL_MS ==> !target(b.slots, now_ms, i),
{
}

/// A node is forgotten half an hour after it was last heard, and its age is
/// told in whole seconds since, as far as two bytes count.
pub proof fn law_a_node_ages_in_seconds(at_ms: u64, now_ms: u64)
    ensures
        lapsed(at_ms, now_ms) <==> now_ms >= at_ms + 1_800_000,
        now_ms <= at_ms ==> age_s(at_ms, now_ms) == 0,
        at_ms <= now_ms && now_ms - at_ms < 65_536_000 ==> age_s(at_ms, now_ms) * 1000 <= now_ms - at_ms < age_s(
            at_ms,
            now_ms,
        ) * 1000 + 1000,
        now_ms - at_ms >= 65_535_000 ==> age_s(at_ms, now_ms) == 65_535,
{
}

/// What the compass points at is a position no older than half an hour, and no
/// position that is newer; and it points at something wherever there is one.
pub proof fn law_the_compass_points_at_the_newest_position(s: Seq<Option<Heard>>, now_ms: u64, k: int, i: int)
    requires
        0 <= i < s.len(),
        s[i] is Some,
        s[i]->0.report is Position,
        now_ms <= s[i]->0.at_ms + 1_800_000,
    ensures
        target(s, now_ms, k) ==> s[k] is Some && s[k]->0.report is Position && now_ms <= s[k]->0.at_ms + 1_800_000
            && s[i]->0.at_ms <= s[k]->0.at_ms,
        exists|t: int| target(s, now_ms, t),
{
    assert(is_target(s[i]->0, now_ms));
    if target(s, now_ms, k) {
        assert(s[i] is Some);
    }
    let t = lemma_newest(s, now_ms, s.len() as int, i);
    assert(target(s, now_ms, t));
}

proof fn lemma_newest(s: Seq<Option<Heard>>, now_ms: u64, n: int, i: int) -> (t: int)
    requires
        0 <= i < n <= s.len(),
        s[i] is Some && is_target(s[i]->0, now_ms),
    ensures
        0 <= t < n,
        s[t] is Some && is_target(s[t]->0, now_ms),
        forall|j: int|
            0 <= j < n && ((#[trigger] s[j]) matches Some(o) && is_target(o, now_ms)) ==> s[j]->0.at_ms <= s[t]->0.at_ms,
        forall|j: int|
            0 <= j < t && ((#[trigger] s[j]) matches Some(o) && is_target(o, now_ms)) ==> s[j]->0.at_ms < s[t]->0.at_ms,
    decreases n,
{
    if exists|b: int| 0 <= b < n - 1 && ((#[trigger] s[b]) matches Some(o) && is_target(o, now_ms)) {
        let b = choose|b: int| 0 <= b < n - 1 && ((#[trigger] s[b]) matches Some(o) && is_target(o, now_ms));
        let t = lemma_newest(s, now_ms, n - 1, b);
        if s[n - 1] is Some && is_target(s[n - 1]->0, now_ms) && s[n - 1]->0.at_ms > s[t]->0.at_ms {
            n - 1
        } else {
            t
        }
    } else {
        i
    }
}

/// What goes out next is news, and the news that has waited longest; and
/// something goes out wherever there is news.
pub proof fn law_the_longest_waiting_news_goes_first(s: Seq<Option<Heard>>, c: Seq<Option<Called>>, k: int, i: int)
    ensures
        report_due(s, k) && 0 <= i < s.len() && s[i] is Some && s[i]->0.dirty ==> s[k]->0.at_ms <= s[i]->0.at_ms,
        report_due(s, k) ==> s[k] is Some && s[k]->0.dirty,
        name_due(c, k) && 0 <= i < c.len() && c[i] is Some && c[i]->0.dirty ==> c[k]->0.at_ms <= c[i]->0.at_ms,
        name_due(c, k) ==> c[k] is Some && c[k]->0.dirty,
{
    if report_due(s, k) && 0 <= i < s.len() && s[i] is Some && s[i]->0.dirty {
        assert(s[i] is Some);
    }
    if name_due(c, k) && 0 <= i < c.len() && c[i] is Some && c[i]->0.dirty {
        assert(c[i] is Some);
    }
}

/// A report recorded is on the roster under its sender, the first byte of it,
/// as news heard now. It keeps its sender's name alive and leaves what anyone
/// is called, and everyone else's name, alone.
pub proof fn law_a_report_recorded_is_on_the_roster(b: Board, now_ms: u64, report: Report, after: Board, i: int)
    requires
        b.wf(),
        b.recorded(now_ms, report, after),
        0 <= i < SLOTS,
    ensures
        exists|k: int|
            0 <= k < SLOTS && #[trigger] after.slots[k] == Some(Heard { report, at_ms: now_ms, dirty: true }),
        b.names[i] is Some && now_ms < b.names[i]->0.at_ms + 1_800_000 ==> after.names[i] == Some(
            Called {
                at_ms: if b.names[i]->0.src == report.wire()[0] {
                    now_ms
                } else {
                    b.names[i]->0.at_ms
                },
                ..b.names[i]->0
            },
        ),
        b.names[i] is None ==> after.names[i] is None,
        after.slots[i] is Some ==> after.slots[i] == b.slots[i] || after.slots[i] == Some(
            Heard { report, at_ms: now_ms, dirty: true },
        ),
{
    let f = b.fresh(now_ms);
    let p = choose|p: int|
        #[trigger] report_place(f.slots, report.from(), p) && after.slots == f.slots.update(
            p,
            Some(Heard { report, at_ms: now_ms, dirty: true }),
        );
    assert(0 <= p < SLOTS) by {
        if exists|j: int| #[trigger] report_of(f.slots, j, report.from()) {
            assert(report_of(f.slots, p, report.from()));
        }
    }
    assert(after.slots[p] == Some(Heard { report, at_ms: now_ms, dirty: true }));
}

/// Recording one node leaves every other node's report that has not run out,
/// where there is room for both.
pub proof fn law_recording_one_node_leaves_the_others(b: Board, now_ms: u64, report: Report, after: Board, i: int, j: int)
    requires
        b.wf(),
        b.recorded(now_ms, report, after),
        0 <= i < SLOTS,
        0 <= j < SLOTS,
        b.slots[i] is Some,
        now_ms < b.slots[i]->0.at_ms + 1_800_000,
        b.slots[i]->0.report.wire()[0] != report.wire()[0],
        b.slots[j] is None || now_ms >= b.slots[j]->0.at_ms + 1_800_000 || b.slots[j]->0.report.wire()[0] == report.wire()[0]
            || b.slots[j]->0.at_ms < b.slots[i]->0.at_ms,
    ensures
        after.slots[i] == b.slots[i],
{
    let f = b.fresh(now_ms);
    law_a_full_table_gives_up_the_quietest(b, now_ms, report, after, i);
    if after.slots[i] != b.slots[i] {
        assert(f.slots[j] is Some);
        let p = choose|p: int|
            #[trigger] report_place(f.slots, report.from(), p) && after.slots == f.slots.update(
                p,
                Some(Heard { report, at_ms: now_ms, dirty: true }),
            );
        assert(f.slots[i] == b.slots[i]);
        assert(p == i);
        if f.slots[j]->0.report.from() == report.from() {
            assert(report_of(f.slots, j, report.from()));
            assert(report_of(f.slots, p, report.from()));
        }
        assert(b.slots[i]->0.at_ms <= b.slots[j]->0.at_ms);
    }
}

/// A name is news once: exactly where the node was not known by it, and the
/// reports are left alone but for the ones that have run out.
pub proof fn law_a_name_is_news_once(b: Board, now_ms: u64, src: u8, label: Seq<u8>, news: bool, after: Board, i: int)
    requires
        b.wf(),
        ble::is_label(label),
        b.named(now_ms, src, label, news, after),
        0 <= i < SLOTS,
    ensures
        news <==> !(exists|k: int|
            0 <= k < SLOTS && ((#[trigger] b.names[k]) matches Some(n) && n.src == src && now_ms < n.at_ms + 1_800_000
                && ble::field_label(n.label@) == label)),
        b.slots[i] is Some && now_ms < b.slots[i]->0.at_ms + 1_800_000 ==> after.slots[i] == b.slots[i],
        exists|k: int|
            0 <= k < SLOTS && ((#[trigger] after.names[k]) matches Some(n) && n.src == src && n.at_ms == now_ms && (news
                ==> n.dirty)),
{
    let f = b.fresh(now_ms);
    if f.calls(src, label) {
        let k = choose|k: int|
            #[trigger] name_of(f.names, k, src) && ble::field_label(f.names[k]->0.label@) == label;
        assert(b.names[k] is Some);
    }
    if exists|k: int|
        0 <= k < SLOTS && ((#[trigger] b.names[k]) matches Some(n) && n.src == src && now_ms < n.at_ms + 1_800_000
            && ble::field_label(n.label@) == label) {
        let k = choose|k: int|
            0 <= k < SLOTS && ((#[trigger] b.names[k]) matches Some(n) && n.src == src && now_ms < n.at_ms + 1_800_000
                && ble::field_label(n.label@) == label);
        assert(name_of(f.names, k, src));
    }
    let k = choose|k: int|
        {
            &&& #[trigger] name_place(f.names, src, k)
            &&& after.names.len() == f.names.len()
            &&& forall|i: int| 0 <= i < f.names.len() && i != k ==> #[trigger] after.names[i] == f.names[i]
            &&& after.names[k] matches Some(n) && {
                &&& n.src == src
                &&& n.at_ms == now_ms
                &&& n.label@ == ble::padded(label)
                &&& n.dirty == (news || f.names[k]->0.dirty)
            }
        };
    assert(0 <= k < SLOTS) by {
        if exists|j: int| #[trigger] name_of(f.names, j, src) {
            assert(name_of(f.names, k, src));
        }
    }
    assert(after.names[k] is Some);
}

/// A replay puts everything still on the roster up again as news, and changes
/// nothing else of it.
pub proof fn law_a_replay_is_everything_still_heard(b: Board, now_ms: u64, i: int)
    requires
        b.wf(),
        0 <= i < SLOTS,
    ensures
        ({
            let r = b.fresh(now_ms).rearmed();
            &&& r.slots[i] is Some <==> b.slots[i] is Some && now_ms < b.slots[i]->0.at_ms + 1_800_000
            &&& r.slots[i] matches Some(h) ==> h.dirty && h.report == b.slots[i]->0.report && h.at_ms
                == b.slots[i]->0.at_ms
            &&& r.names[i] is Some <==> b.names[i] is Some && now_ms < b.names[i]->0.at_ms + 1_800_000
            &&& r.names[i] matches Some(n) ==> n.dirty && n.src == b.names[i]->0.src && n.label == b.names[i]->0.label
                && n.at_ms == b.names[i]->0.at_ms
        }),
{
}

/// Of several heard at one instant the first in the table goes first: to the
/// app, out of a full table and as the compass's target.
pub proof fn law_the_first_of_one_instant_goes_first(
    s: Seq<Option<Heard>>,
    c: Seq<Option<Called>>,
    now_ms: u64,
    i: int,
    k: int,
)
    requires
        0 <= i < k,
    ensures
        report_due(s, k) && s[i] is Some && s[i]->0.dirty ==> s[k]->0.at_ms < s[i]->0.at_ms,
        name_due(c, k) && c[i] is Some && c[i]->0.dirty ==> c[k]->0.at_ms < c[i]->0.at_ms,
        quietest_report(s, k) ==> s[k]->0.at_ms < s[i]->0.at_ms,
        quietest_name(c, k) ==> c[k]->0.at_ms < c[i]->0.at_ms,
        target(s, now_ms, k) && s[i] is Some && is_target(s[i]->0, now_ms) ==> s[i]->0.at_ms < s[k]->0.at_ms,
{
    if report_due(s, k) && s[i] is Some && s[i]->0.dirty {
        assert(s[i] is Some);
    }
    if name_due(c, k) && c[i] is Some && c[i]->0.dirty {
        assert(c[i] is Some);
    }
    if target(s, now_ms, k) && s[i] is Some && is_target(s[i]->0, now_ms) {
        assert(s[i] is Some);
    }
}

/// Every label has a field that holds it, and a field holds one where it is
/// that label's.
pub proof fn law_what_field_holds_a_label(label: Seq<u8>, field: Seq<u8>)
    ensures
        ble::is_label(label) ==> holds_label(ble::padded(label)),
        holds_label(field) ==> ble::is_label(ble::field_label(field)) && field == ble::padded(ble::field_label(field)),
{
    if ble::is_label(label) {
        ble::law_padded_label_round_trip(label);
    }
}

/// A report goes over its sender's own, else in the first free place, else over
/// the longest unheard; and a name likewise.
pub proof fn law_where_a_report_and_a_name_go(s: Seq<Option<Heard>>, c: Seq<Option<Called>>, src: u8, k: int, i: int)
    requires
        0 <= i < s.len(),
        s.len() == c.len(),
    ensures
        report_place(s, src, k) && s[i] is Some && s[i]->0.report.from() == src ==> s[k] is Some && s[k]->0.report.from()
            == src,
        report_place(s, src, k) && s[i] is None && !(s[k] is Some && s[k]->0.report.from() == src) ==> s[k] is None && k <= i,
        report_place(s, src, k) && s[k] is Some && s[k]->0.report.from() != src ==> s[i] is Some && s[k]->0.at_ms
            <= s[i]->0.at_ms,
        name_place(c, src, k) && c[i] is Some && c[i]->0.src == src ==> c[k] is Some && c[k]->0.src == src,
        name_place(c, src, k) && c[i] is None && !(c[k] is Some && c[k]->0.src == src) ==> c[k] is None && k <= i,
        name_place(c, src, k) && c[k] is Some && c[k]->0.src != src ==> c[i] is Some && c[k]->0.at_ms <= c[i]->0.at_ms,
{
    if s[i] is Some && s[i]->0.report.from() == src {
        assert(report_of(s, i, src));
    }
    if c[i] is Some && c[i]->0.src == src {
        assert(name_of(c, i, src));
    }
}

/// What is handed out is a report as it was heard, its age behind it low byte
/// first; it is news no more, and nothing else has changed.
pub proof fn law_what_is_handed_out(b: Board, k: int, now_ms: u64, v: Value, after: Board, i: int)
    requires
        b.wf(),
        b.hands_out(k, now_ms, v, after),
        0 <= i < SLOTS,
    ensures
        ({
            let h = b.slots[k]->0;
            let n = h.report.wire().len();
            &&& v.wire().len() == n + 2
            &&& v.wire().take(n as int) == h.report.wire()
            &&& bytes::le16_at(v.wire(), n as int) == age_s(h.at_ms, now_ms)
            &&& after.slots[k] == Some(Heard { dirty: false, ..h })
            &&& i != k ==> after.slots[i] == b.slots[i]
            &&& after.names == b.names
            &&& v is Position <==> h.report is Position
        }),
{
    let h = b.slots[k]->0;
    let n = h.report.wire().len() as int;
    assert(v.wire().take(n) =~= h.report.wire());
    bytes::lemma_le16_slice(v.wire(), n, age_s(h.at_ms, now_ms));
}

/// A name handed out is its node's address and the field it is kept in; it is
/// news no more, and nothing else has changed.
pub proof fn law_what_name_is_handed_out(b: Board, k: int, v: Seq<u8>, after: Board, i: int, j: int)
    requires
        b.wf(),
        b.hands_out_name(k, v, after),
        0 <= i < SLOTS,
        0 <= j < 16,
    ensures
        ({
            let n = b.names[k]->0;
            &&& v.len() == 17
            &&& v[0] == n.src && v[1 + j] == n.label@[j]
            &&& after.names[k] == Some(Called { dirty: false, ..n })
            &&& i != k ==> after.names[i] == b.names[i]
            &&& after.slots == b.slots
        }),
{
}

/// What the compass reads of its target: who it is, the packet behind the
/// three bytes of the link, how old, and how loud.
pub proof fn law_what_the_compass_reads(h: Heard, now_ms: u64, j: int)
    requires
        h.report is Position,
        0 <= j < 20,
    ensures
        ({
            let w = h.report.wire();
            let (src, packet, age, rssi) = h.pointed(now_ms);
            &&& src == w[0]
            &&& packet.len() == 20 && packet[j] == w[3 + j]
            &&& age == age_s(h.at_ms, now_ms)
            &&& (rssi - bytes::le16_at(w, 1)) % 0x1_0000 == 0
        }),
{
    reveal(bytes::to_i16);
}

} // verus!
