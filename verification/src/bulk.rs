//! The bulk transfer a radio config or a firmware image arrives in.
//!
//! One write is one op ([`ble::OP_BEGIN`], [`ble::OP_DATA`], [`ble::OP_END`],
//! [`ble::OP_ABORT`]) and every op is answered with an ack. The same bytes
//! arrive two ways - a BLE write on the bulk characteristic, or a framed
//! command on the USB console - so the state machine lives here rather than in
//! either transport.
//!
//! The two kinds differ in where the bytes go. A config is small and has to be
//! parsed as a whole, so it is buffered here and handed over complete. A
//! firmware image is hundreds of kilobytes, so it streams through a [`Sink`]
//! as it arrives and only its CRC is accumulated.

use vstd::prelude::*;
use crate::ack::{Ack, AckStatus, Echo};
use crate::ble;
use crate::bytes;
use crate::bytes::{put, u16_at, u32_at};
use crate::link;
use crate::link::{crc32, crc32_continue};
use crate::time;

verus! {

/// Largest `RADIO.CFG` a transfer will accept, matching the firmware's own
/// read buffer.
pub const CONFIG_MAX: usize = 1024;

/// How long a transfer may sit idle before it is abandoned: a host that
/// vanishes mid-upload must not wedge the board until someone power-cycles it.
pub const IDLE_TIMEOUT_MS: u64 = 5_000;

/// Which transport owns an in-flight transfer.
///
/// A transfer is stateful across several writes, so two transports pushing at
/// once would interleave into one buffer. The second one to start is refused
/// with [`AckStatus::BadState`] instead.
#[derive(Clone, Copy, Debug, PartialEq, Eq, Structural)]
pub enum Owner {
    Ble,
    Usb,
}

/// What the firmware has to do once [`Transfer::handle`] has processed an op.
#[derive(Clone, Copy, Debug, PartialEq, Eq, Structural)]
pub enum Event {
    /// Nothing beyond sending the ack back.
    Nothing,
    /// A complete, CRC-verified config is in [`Transfer::bytes`]. Parse, apply
    /// and store it, then call [`Transfer::mark_applied`] - a repeated
    /// `OP_END` is only answerable as the success it was once that is done.
    Config,
    /// A complete, CRC-verified firmware image has been written and
    /// [`Sink::finish`] accepted it. Reboot into it when convenient.
    Firmware,
}

/// One call of a [`Sink`].
pub enum SinkCall {
    Begin(u32),
    Write(u32, Seq<u8>),
    Finish,
    Cancel,
}

/// Where a firmware image's bytes go as they arrive.
///
/// Separate from the transfer because an image is far too big to buffer. A
/// board with no OTA partitions refuses at [`Sink::begin`], which is what
/// makes firmware support optional rather than assumed.
///
/// What a sink does with a call is its own: `did` relates the sink before and
/// after one to the answer it gave. A cancel gives none, and counts as
/// answered yes.
pub trait Sink: Sized {
    /// Whether a call on `pre` may answer `ok` and leave `post`. A sink that
    /// does not say may do anything.
    open spec fn did(pre: Self, call: SinkCall, ok: bool, post: Self) -> bool {
        true
    }

    /// Prepare to receive `total` bytes. `false` refuses the transfer.
    fn begin(&mut self, total: u32) -> (r: bool)
        ensures
            Self::did(*old(self), SinkCall::Begin(total), r, *final(self)),
    ;

    /// Write `bytes` at `offset` from the start of the image. `false` fails
    /// the transfer.
    fn write(&mut self, offset: u32, bytes: &[u8]) -> (r: bool)
        ensures
            Self::did(*old(self), SinkCall::Write(offset, bytes@), r, *final(self)),
    ;

    /// The image is complete and its CRC matched. `false` fails the transfer.
    fn finish(&mut self) -> (r: bool)
        ensures
            Self::did(*old(self), SinkCall::Finish, r, *final(self)),
    ;

    /// The transfer ended without completing. Release whatever `begin`
    /// claimed.
    fn cancel(&mut self)
        ensures
            Self::did(*old(self), SinkCall::Cancel, true, *final(self)),
    ;
}

/// A [`Sink`] that accepts no firmware at all, for a build that only takes
/// configs.
#[derive(Clone, Copy, Debug, PartialEq, Eq, Structural)]
pub struct NoFirmware;

impl Sink for NoFirmware {
    open spec fn did(pre: Self, call: SinkCall, ok: bool, post: Self) -> bool {
        pre == post && ok == (call is Cancel)
    }

    fn begin(&mut self, total: u32) -> (r: bool) {
        false
    }

    fn write(&mut self, offset: u32, bytes: &[u8]) -> (r: bool) {
        false
    }

    fn finish(&mut self) -> (r: bool) {
        false
    }

    fn cancel(&mut self) {
    }
}

/// What one sink call answers, where every call but a cancel answers `ok`.
pub open spec fn answered(call: SinkCall, ok: bool) -> bool {
    call is Cancel || ok
}

/// Whether a sink went from `pre` to `post` by `calls`, in order, the one that
/// decides answering `ok`.
pub open spec fn ran<S: Sink>(pre: S, calls: Seq<SinkCall>, ok: bool, post: S) -> bool
    decreases calls.len(),
{
    if calls.len() == 0 {
        pre == post
    } else {
        exists|mid: S|
            #[trigger] S::did(pre, calls[0], answered(calls[0], ok), mid) && ran(mid, calls.skip(1), ok, post)
    }
}

/// No calls leave a sink as it was.
proof fn lemma_ran_none<S: Sink>(pre: S, ok: bool)
    ensures
        ran(pre, Seq::<SinkCall>::empty(), ok, pre),
{
}

/// One call.
proof fn lemma_ran_one<S: Sink>(pre: S, call: SinkCall, ok: bool, post: S)
    requires
        S::did(pre, call, answered(call, ok), post),
    ensures
        ran(pre, seq![call], ok, post),
{
    assert(seq![call].skip(1) =~= Seq::<SinkCall>::empty());
    lemma_ran_none(post, ok);
    assert(S::did(pre, seq![call][0], answered(seq![call][0], ok), post));
}

/// Two calls.
proof fn lemma_ran_two<S: Sink>(pre: S, a: SinkCall, mid: S, b: SinkCall, ok: bool, post: S)
    requires
        S::did(pre, a, answered(a, ok), mid),
        S::did(mid, b, answered(b, ok), post),
    ensures
        ran(pre, seq![a, b], ok, post),
{
    assert(seq![a, b].skip(1) =~= seq![b]);
    lemma_ran_one(mid, b, ok, post);
    assert(S::did(pre, seq![a, b][0], answered(seq![a, b][0], ok), mid));
}

// -- The transfer, as contracts speak of it --------------------------------------

/// One transfer at a time, in whichever of the two kinds is running.
#[derive(Clone, Copy, Debug, PartialEq, Eq)]
pub struct Transfer {
    active: bool,
    owner: Owner,
    kind: u8,
    /// Total bytes the sender declared in `OP_BEGIN`.
    total: u32,
    /// Bytes accepted so far.
    received: u32,
    /// Next sequence number expected on `OP_DATA`.
    next_seq: u16,
    /// CRC32 the sender declared, checked at `OP_END`.
    want_crc: u32,
    /// Running CRC of a streaming (firmware) transfer.
    running_crc: u32,
    /// When the last op arrived, for [`IDLE_TIMEOUT_MS`].
    last_ms: u64,
    /// CRC of the last transfer that verified, and whether the caller went on
    /// to apply it: together they let a repeated `OP_END` be answered as the
    /// success it was.
    last_crc: u32,
    applied: bool,
    buf: [u8; CONFIG_MAX],
}

/// A transfer, as its contracts speak of it.
#[verifier::ext_equal]
pub struct Moving {
    pub active: bool,
    pub owner: Owner,
    pub kind: u8,
    pub total: u32,
    pub received: u32,
    pub next_seq: u16,
    pub want_crc: u32,
    pub running_crc: u32,
    pub last_ms: u64,
    pub last_crc: u32,
    pub applied: bool,
    pub buf: Seq<u8>,
}

impl View for Transfer {
    type V = Moving;

    closed spec fn view(&self) -> Moving {
        Moving {
            active: self.active,
            owner: self.owner,
            kind: self.kind,
            total: self.total,
            received: self.received,
            next_seq: self.next_seq,
            want_crc: self.want_crc,
            running_crc: self.running_crc,
            last_ms: self.last_ms,
            last_crc: self.last_crc,
            applied: self.applied,
            buf: self.buf@,
        }
    }
}

/// What an op comes to: the transfer after it, what the firmware has to do,
/// the ack, and the calls made on the sink.
#[verifier::ext_equal]
pub struct Handled {
    pub next: Moving,
    pub event: Event,
    pub ack: Ack,
    pub calls: Seq<SinkCall>,
}

/// An ack to a bulk op.
pub open spec fn bulk_ack(status: AckStatus, echo: Echo) -> Ack {
    Ack { id: ble::ACK_ID_BULK, status, echo }
}

/// A buffer with `chunk` laid down at `at`.
pub open spec fn laid(buf: Seq<u8>, at: int, chunk: Seq<u8>) -> Seq<u8> {
    Seq::new(
        buf.len(),
        |i: int|
            if at <= i < at + chunk.len() {
                chunk[i - at]
            } else {
                buf[i]
            },
    )
}

impl Moving {
    /// No transfer.
    pub open spec fn idle() -> Moving {
        Moving {
            active: false,
            owner: Owner::Ble,
            kind: 0,
            total: 0,
            received: 0,
            next_seq: 0,
            want_crc: 0,
            running_crc: 0,
            last_ms: 0,
            last_crc: 0,
            applied: false,
            buf: Seq::new(CONFIG_MAX as nat, |i: int| 0u8),
        }
    }

    /// What every transfer keeps: a running one is of a known kind and has
    /// taken no more than was declared, and a config fits the buffer.
    pub open spec fn wf(self) -> bool {
        &&& self.buf.len() == CONFIG_MAX
        &&& self.active ==> self.kind == ble::KIND_TOML || self.kind == ble::KIND_OTA
        &&& self.active ==> self.received <= self.total
        &&& self.active && self.kind == ble::KIND_TOML ==> self.total <= CONFIG_MAX
        &&& self.kind != ble::KIND_OTA ==> self.received <= CONFIG_MAX
    }

    /// The bytes of a config received so far.
    pub open spec fn text(self) -> Seq<u8> {
        self.buf.take(self.received as int)
    }

    /// The transfer dropped.
    pub open spec fn dropped(self) -> Moving {
        Moving { active: false, ..self }
    }

    /// What dropping it asks of the sink: only an image claimed anything.
    pub open spec fn releasing(self) -> Seq<SinkCall> {
        if self.active && self.kind == ble::KIND_OTA {
            seq![SinkCall::Cancel]
        } else {
            seq![]
        }
    }

    /// An op that was not taken: the transfer as it was, and why.
    pub open spec fn turned_down(self, status: AckStatus) -> Handled {
        Handled { next: self, event: Event::Nothing, ack: bulk_ack(status, Echo::Empty), calls: seq![] }
    }

    /// An op that ended the transfer without completing it.
    pub open spec fn given_up(self, calls: Seq<SinkCall>, status: AckStatus) -> Handled {
        Handled {
            next: self.dropped(),
            event: Event::Nothing,
            ack: bulk_ack(status, Echo::Empty),
            calls: calls + self.releasing(),
        }
    }

    /// A transfer begun.
    pub open spec fn begun(self, owner: Owner, now_ms: u64, kind: u8, total: u32, want_crc: u32) -> Moving {
        Moving {
            active: true,
            owner,
            kind,
            total,
            received: 0,
            next_seq: 0,
            want_crc,
            running_crc: 0,
            applied: false,
            last_ms: now_ms,
            ..self
        }
    }

    /// `[OP_BEGIN, kind u8, total u32le, crc32 u32le, version u16le]`.
    ///
    /// A begin from the transport that already owns a transfer restarts it;
    /// one from the other is refused. A restart releases whatever the previous
    /// attempt claimed before the new one claims it again.
    pub open spec fn beginning(self, owner: Owner, now_ms: u64, data: Seq<u8>, ok: bool) -> Handled {
        let kind = data[1];
        let total = bytes::le32_at(data, 2);
        let want_crc = bytes::le32_at(data, 6);
        let taken = Handled {
            next: self.begun(owner, now_ms, kind, total, want_crc),
            event: Event::Nothing,
            ack: bulk_ack(AckStatus::Applied, Echo::Word(0)),
            calls: self.releasing(),
        };
        if data.len() < 12 {
            self.turned_down(AckStatus::BadValue)
        } else if self.active && self.owner != owner {
            self.turned_down(AckStatus::BadState)
        } else if kind == ble::KIND_TOML && 0 < total <= CONFIG_MAX {
            taken
        } else if kind == ble::KIND_OTA && total > 0 {
            let calls = self.releasing() + seq![SinkCall::Begin(total)];
            if ok {
                Handled { calls, ..taken }
            } else {
                Handled {
                    next: self.dropped(),
                    event: Event::Nothing,
                    ack: bulk_ack(AckStatus::BoardError, Echo::Empty),
                    calls,
                }
            }
        } else {
            self.given_up(seq![], AckStatus::BadValue)
        }
    }

    /// The chunk laid down, and the next one expected.
    pub open spec fn taking(self, chunk: Seq<u8>) -> Moving {
        Moving {
            received: (self.received + chunk.len()) as u32,
            next_seq: ((self.next_seq + 1) % 0x1_0000) as u16,
            running_crc: if self.kind == ble::KIND_OTA {
                link::crc32_next(self.running_crc, chunk)
            } else {
                self.running_crc
            },
            buf: if self.kind == ble::KIND_OTA {
                self.buf
            } else {
                laid(self.buf, self.received as int, chunk)
            },
            ..self
        }
    }

    /// `[OP_DATA, seq u16le, bytes...]`.
    ///
    /// The chunk before the one expected is one whose ack went missing: it is
    /// acked again and changes nothing. Anything else out of order is a
    /// desync.
    pub open spec fn receiving(self, owner: Owner, data: Seq<u8>, ok: bool) -> Handled {
        let seq = bytes::le16_at(data, 1);
        let chunk = data.skip(3);
        if !self.active || self.owner != owner {
            self.turned_down(AckStatus::BadState)
        } else if data.len() < 4 || data.len() - 3 > ble::BULK_DATA_MAX {
            self.turned_down(AckStatus::BadValue)
        } else if seq != self.next_seq {
            if (seq + 1) % 0x1_0000 == self.next_seq {
                Handled {
                    next: self,
                    event: Event::Nothing,
                    ack: bulk_ack(AckStatus::Applied, Echo::Word(self.next_seq as u32)),
                    calls: seq![],
                }
            } else {
                self.turned_down(AckStatus::BadValue)
            }
        } else if self.received + chunk.len() > self.total {
            self.given_up(seq![], AckStatus::BadValue)
        } else if self.kind == ble::KIND_OTA && !ok {
            self.given_up(seq![SinkCall::Write(self.received, chunk)], AckStatus::BoardError)
        } else {
            Handled {
                next: self.taking(chunk),
                event: Event::Nothing,
                ack: bulk_ack(AckStatus::Applied, Echo::Word(self.taking(chunk).next_seq as u32)),
                calls: if self.kind == ble::KIND_OTA {
                    seq![SinkCall::Write(self.received, chunk)]
                } else {
                    seq![]
                },
            }
        }
    }

    /// The CRC of what has arrived.
    pub open spec fn crc(self) -> u32 {
        if self.kind == ble::KIND_OTA {
            self.running_crc
        } else {
            link::crc32_of(self.text())
        }
    }

    /// `[OP_END]`. The CRC declared at begin is what is checked.
    ///
    /// With no transfer of this owner's running, it is a retry of an end that
    /// already landed or a stray op, and whether the last transfer was applied
    /// tells them apart.
    pub open spec fn ending(self, owner: Owner, ok: bool) -> Handled {
        let done = Moving { active: false, last_crc: self.want_crc, ..self };
        if !self.active || self.owner != owner {
            Handled {
                next: self,
                event: Event::Nothing,
                ack: bulk_ack(
                    if self.applied {
                        AckStatus::Applied
                    } else {
                        AckStatus::BadState
                    },
                    Echo::Empty,
                ),
                calls: seq![],
            }
        } else if self.received != self.total || self.crc() != self.want_crc {
            self.given_up(seq![], AckStatus::BadValue)
        } else if self.kind != ble::KIND_OTA {
            Handled {
                next: done,
                event: Event::Config,
                ack: bulk_ack(AckStatus::Applied, Echo::Empty),
                calls: seq![],
            }
        } else if ok {
            Handled {
                next: Moving { applied: true, ..done },
                event: Event::Firmware,
                ack: bulk_ack(AckStatus::Applied, Echo::Empty),
                calls: seq![SinkCall::Finish],
            }
        } else {
            Handled {
                next: done,
                event: Event::Nothing,
                ack: bulk_ack(AckStatus::BoardError, Echo::Empty),
                calls: seq![SinkCall::Finish],
            }
        }
    }

    /// The transfer kept alive by an op of its owner's.
    pub open spec fn touched(self, owner: Owner, now_ms: u64) -> Moving {
        if self.active && self.owner == owner {
            Moving { last_ms: now_ms, ..self }
        } else {
            self
        }
    }

    /// What one op comes to, where the sink call it turns on answers `ok`.
    pub open spec fn handling(self, owner: Owner, now_ms: u64, data: Seq<u8>, ok: bool) -> Handled {
        let t = self.touched(owner, now_ms);
        if data.len() == 0 {
            self.turned_down(AckStatus::BadValue)
        } else if data[0] == ble::OP_BEGIN {
            t.beginning(owner, now_ms, data, ok)
        } else if data[0] == ble::OP_DATA {
            t.receiving(owner, data, ok)
        } else if data[0] == ble::OP_END {
            t.ending(owner, ok)
        } else if data[0] == ble::OP_ABORT {
            // Only the owner may abort.
            if t.active && t.owner == owner {
                Handled {
                    next: t.dropped(),
                    event: Event::Nothing,
                    ack: bulk_ack(AckStatus::Applied, Echo::Empty),
                    calls: t.releasing(),
                }
            } else {
                t.turned_down(AckStatus::Applied)
            }
        } else {
            t.turned_down(AckStatus::BadValue)
        }
    }

    /// Whether a transfer has gone quiet for [`IDLE_TIMEOUT_MS`].
    pub open spec fn stale(self, now_ms: u64) -> bool {
        self.active && time::elapsed(self.last_ms, now_ms) >= IDLE_TIMEOUT_MS
    }
}

/// Whether an op did what `h` says, on the transfer and on the sink.
pub open spec fn carried_out<S: Sink>(h: Handled, t: Moving, r: (Event, Ack), pre: S, ok: bool, post: S) -> bool {
    &&& t == h.next
    &&& r == (h.event, h.ack)
    &&& ran(pre, h.calls, ok, post)
}

fn answer(status: AckStatus, echo: Echo) -> (r: Ack)
    ensures
        r == bulk_ack(status, echo),
{
    Ack { id: ble::ACK_ID_BULK, status, echo }
}

fn nak(status: AckStatus) -> (r: (Event, Ack))
    ensures
        r == (Event::Nothing, bulk_ack(status, Echo::Empty)),
{
    (Event::Nothing, answer(status, Echo::Empty))
}

impl Default for Transfer {
    fn default() -> (r: Self)
        ensures
            r@ == Moving::idle(),
            r@.wf(),
    {
        Self::new()
    }
}

impl Transfer {
    /// No transfer.
    pub fn new() -> (r: Self)
        ensures
            r@ == Moving::idle(),
            r@.wf(),
    {
        let r: Transfer = Self {
            active: false,
            owner: Owner::Ble,
            kind: 0,
            total: 0,
            received: 0,
            next_seq: 0,
            want_crc: 0,
            running_crc: 0,
            last_ms: 0,
            last_crc: 0,
            applied: false,
            buf: [0; CONFIG_MAX],
        };
        assert(r@ =~= Moving::idle());
        r
    }

    /// Whether a transfer is in flight. While one is, the console stays quiet
    /// and the radio is held off the air.
    pub fn is_active(&self) -> (r: bool)
        ensures
            r == self@.active,
    {
        self.active
    }

    /// The kind of the transfer in flight ([`ble::KIND_TOML`] or
    /// [`ble::KIND_OTA`]); meaningless when none is.
    pub fn kind(&self) -> (r: u8)
        ensures
            r == self@.kind,
    {
        self.kind
    }

    /// The received config text. Valid after [`Event::Config`].
    pub fn bytes(&self) -> (r: &[u8])
        requires
            self@.received <= CONFIG_MAX,
        ensures
            r@ == self@.text(),
    {
        let r: &[u8] = &self.buf.as_slice()[0..self.received as usize];
        assert(r@ =~= self@.text());
        r
    }

    /// Record that the caller parsed and adopted the completed config, so a
    /// repeated `OP_END` answers OK rather than "no such transfer".
    ///
    /// A config that verified but would not parse is never marked, and a
    /// retry of that one keeps failing - which is the truth.
    pub fn mark_applied(&mut self)
        ensures
            final(self)@ == (Moving { applied: true, ..old(self)@ }),
    {
        self.applied = true;
    }

    /// Drop an in-flight transfer, e.g. because the connection carrying it
    /// went away. Returns whether there was one.
    pub fn abort<S: Sink>(&mut self, sink: &mut S) -> (r: bool)
        ensures
            r == old(self)@.active,
            final(self)@ == old(self)@.dropped(),
            ran(*old(sink), old(self)@.releasing(), true, *final(sink)),
    {
        let was: bool = self.active;
        self.cancel(sink);
        was
    }

    /// Drop a transfer that has gone quiet for [`IDLE_TIMEOUT_MS`], returning
    /// whether it did. A host that vanished mid-upload must not hold the board
    /// hostage.
    pub fn expire<S: Sink>(&mut self, now_ms: u64, sink: &mut S) -> (r: bool)
        ensures
            r == old(self)@.stale(now_ms),
            r ==> final(self)@ == old(self)@.dropped() && ran(*old(sink), old(self)@.releasing(), true, *final(sink)),
            !r ==> final(self)@ == old(self)@ && *final(sink) == *old(sink),
    {
        if !self.active || now_ms.saturating_sub(self.last_ms) < IDLE_TIMEOUT_MS {
            return false;
        }
        self.cancel(sink);
        true
    }

    fn cancel<S: Sink>(&mut self, sink: &mut S)
        ensures
            final(self)@ == old(self)@.dropped(),
            forall|ok: bool| #[trigger] ran(*old(sink), old(self)@.releasing(), ok, *final(sink)),
            old(self)@.releasing().len() == 0 ==> *final(sink) == *old(sink),
            old(self)@.releasing().len() > 0 ==> S::did(*old(sink), SinkCall::Cancel, true, *final(sink)),
    {
        let ghost pre = *sink;
        let ghost was = self@;
        if self.active && self.kind == ble::KIND_OTA {
            sink.cancel();
        }
        self.active = false;
        proof {
            assert forall|ok: bool| #[trigger] ran(pre, was.releasing(), ok, *sink) by {
                if was.active && was.kind == ble::KIND_OTA {
                    lemma_ran_one(pre, SinkCall::Cancel, ok, *sink);
                } else {
                    lemma_ran_none(pre, ok);
                }
            }
        }
    }

    /// Process one bulk op and return what to do plus the ack to send back.
    ///
    /// `now_ms` is a monotonic millisecond clock, used only for the idle
    /// timeout. Where an op turns on what the sink answers, that answer
    /// decides between the two outcomes.
    pub fn handle<S: Sink>(&mut self, owner: Owner, now_ms: u64, data: &[u8], sink: &mut S) -> (r: (Event, Ack))
        requires
            old(self)@.wf(),
        ensures
            final(self)@.wf(),
            exists|ok: bool|
                #[trigger] carried_out(
                    old(self)@.handling(owner, now_ms, data@, ok),
                    final(self)@,
                    r,
                    *old(sink),
                    ok,
                    *final(sink),
                ),
    {
        let ghost pre = *sink;
        let ghost was = self@;
        if data.len() == 0 {
            proof {
                lemma_ran_none(pre, true);
                assert(carried_out(was.handling(owner, now_ms, data@, true), self@, nak_pair(AckStatus::BadValue), pre, true, *sink));
            }
            return nak(AckStatus::BadValue);
        }
        let op: u8 = data[0];
        // Any op from the transport that owns the transfer keeps it alive. An
        // op from the other one does not, or a second host could hold a
        // stalled transfer open indefinitely by polling it.
        if self.active && self.owner == owner {
            self.last_ms = now_ms;
        }
        let ghost t = self@;
        assert(t =~= was.touched(owner, now_ms));
        if op == ble::OP_BEGIN {
            let r: (Event, Ack) = self.begin(owner, now_ms, data, sink);
            proof {
                let ok = choose|ok: bool| #[trigger] carried_out(t.beginning(owner, now_ms, data@, ok), self@, r, pre, ok, *sink);
                assert(carried_out(was.handling(owner, now_ms, data@, ok), self@, r, pre, ok, *sink));
            }
            return r;
        }
        if op == ble::OP_DATA {
            let r: (Event, Ack) = self.data(owner, data, sink);
            proof {
                let ok = choose|ok: bool| #[trigger] carried_out(t.receiving(owner, data@, ok), self@, r, pre, ok, *sink);
                assert(carried_out(was.handling(owner, now_ms, data@, ok), self@, r, pre, ok, *sink));
            }
            return r;
        }
        if op == ble::OP_END {
            let r: (Event, Ack) = self.end(owner, sink);
            proof {
                let ok = choose|ok: bool| #[trigger] carried_out(t.ending(owner, ok), self@, r, pre, ok, *sink);
                assert(carried_out(was.handling(owner, now_ms, data@, ok), self@, r, pre, ok, *sink));
            }
            return r;
        }
        if op == ble::OP_ABORT {
            let r: (Event, Ack) = (Event::Nothing, answer(AckStatus::Applied, Echo::Empty));
            if self.active && self.owner == owner {
                self.cancel(sink);
                assert(carried_out(was.handling(owner, now_ms, data@, true), self@, r, pre, true, *sink));
            } else {
                proof {
                    lemma_ran_none(pre, true);
                }
                assert(carried_out(was.handling(owner, now_ms, data@, true), self@, r, pre, true, *sink));
            }
            return r;
        }
        proof {
            lemma_ran_none(pre, true);
            assert(carried_out(was.handling(owner, now_ms, data@, true), self@, nak_pair(AckStatus::BadValue), pre, true, *sink));
        }
        nak(AckStatus::BadValue)
    }

    /// `[OP_BEGIN, kind u8, total u32le, crc32 u32le, version u16le]`.
    fn begin<S: Sink>(&mut self, owner: Owner, now_ms: u64, data: &[u8], sink: &mut S) -> (r: (Event, Ack))
        requires
            old(self)@.wf(),
        ensures
            final(self)@.wf(),
            exists|ok: bool|
                #[trigger] carried_out(
                    old(self)@.beginning(owner, now_ms, data@, ok),
                    final(self)@,
                    r,
                    *old(sink),
                    ok,
                    *final(sink),
                ),
    {
        let ghost pre = *sink;
        let ghost was = self@;
        proof {
            lemma_ran_none(pre, true);
        }
        if data.len() < 12 {
            assert(carried_out(was.beginning(owner, now_ms, data@, true), self@, nak_pair(AckStatus::BadValue), pre, true, *sink));
            return nak(AckStatus::BadValue);
        }
        if self.active && self.owner != owner {
            assert(carried_out(was.beginning(owner, now_ms, data@, true), self@, nak_pair(AckStatus::BadState), pre, true, *sink));
            return nak(AckStatus::BadState);
        }
        let kind: u8 = data[1];
        let total: u32 = u32_at(data, 2);
        let want_crc: u32 = u32_at(data, 6);
        self.cancel(sink);
        let ghost mid = *sink;
        let ghost mut answer_ok: bool = true;
        if kind == ble::KIND_TOML {
            if total == 0 || total as usize > CONFIG_MAX {
                proof {
                    assert(Seq::<SinkCall>::empty() + was.releasing() =~= was.releasing());
                }
                assert(carried_out(was.beginning(owner, now_ms, data@, true), self@, nak_pair(AckStatus::BadValue), pre, true, *sink));
                return nak(AckStatus::BadValue);
            }
        } else if kind == ble::KIND_OTA {
            if total == 0 {
                proof {
                    assert(Seq::<SinkCall>::empty() + was.releasing() =~= was.releasing());
                }
                assert(carried_out(was.beginning(owner, now_ms, data@, true), self@, nak_pair(AckStatus::BadValue), pre, true, *sink));
                return nak(AckStatus::BadValue);
            }
            let ok: bool = sink.begin(total);
            proof {
                answer_ok = ok;
                let b = SinkCall::Begin(total);
                if was.releasing().len() > 0 {
                    lemma_ran_two(pre, SinkCall::Cancel, mid, b, ok, *sink);
                    assert(was.releasing() + seq![b] =~= seq![SinkCall::Cancel, b]);
                } else {
                    lemma_ran_one(pre, b, ok, *sink);
                    assert(was.releasing() + seq![b] =~= seq![b]);
                }
            }
            if !ok {
                assert(carried_out(was.beginning(owner, now_ms, data@, ok), self@, nak_pair(AckStatus::BoardError), pre, ok, *sink));
                return nak(AckStatus::BoardError);
            }
        } else {
            proof {
                assert(Seq::<SinkCall>::empty() + was.releasing() =~= was.releasing());
            }
            assert(carried_out(was.beginning(owner, now_ms, data@, true), self@, nak_pair(AckStatus::BadValue), pre, true, *sink));
            return nak(AckStatus::BadValue);
        }
        self.active = true;
        self.owner = owner;
        self.kind = kind;
        self.total = total;
        self.received = 0;
        self.next_seq = 0;
        self.want_crc = want_crc;
        self.running_crc = 0;
        self.applied = false;
        self.last_ms = now_ms;
        let r: (Event, Ack) = (Event::Nothing, answer(AckStatus::Applied, Echo::Word(0)));
        assert(carried_out(was.beginning(owner, now_ms, data@, answer_ok), self@, r, pre, answer_ok, *sink));
        r
    }

    /// `[OP_DATA, seq u16le, bytes...]`.
    fn data<S: Sink>(&mut self, owner: Owner, data: &[u8], sink: &mut S) -> (r: (Event, Ack))
        requires
            old(self)@.wf(),
        ensures
            final(self)@.wf(),
            exists|ok: bool|
                #[trigger] carried_out(
                    old(self)@.receiving(owner, data@, ok),
                    final(self)@,
                    r,
                    *old(sink),
                    ok,
                    *final(sink),
                ),
    {
        let ghost pre = *sink;
        let ghost was = self@;
        proof {
            lemma_ran_none(pre, true);
        }
        if !self.active || self.owner != owner {
            assert(carried_out(was.receiving(owner, data@, true), self@, nak_pair(AckStatus::BadState), pre, true, *sink));
            return nak(AckStatus::BadState);
        }
        if data.len() < 4 || data.len() - 3 > ble::BULK_DATA_MAX {
            assert(carried_out(was.receiving(owner, data@, true), self@, nak_pair(AckStatus::BadValue), pre, true, *sink));
            return nak(AckStatus::BadValue);
        }
        let seq: u16 = u16_at(data, 1);
        let chunk: &[u8] = &data[3..data.len()];
        assert(chunk@ =~= data@.skip(3));
        if seq != self.next_seq {
            let after: u16 = if seq == 0xFFFF { 0 } else { seq + 1 };
            if after == self.next_seq {
                let r: (Event, Ack) = (Event::Nothing, answer(AckStatus::Applied, Echo::Word(self.next_seq as u32)));
                assert(carried_out(was.receiving(owner, data@, true), self@, r, pre, true, *sink));
                return r;
            }
            assert(carried_out(was.receiving(owner, data@, true), self@, nak_pair(AckStatus::BadValue), pre, true, *sink));
            return nak(AckStatus::BadValue);
        }
        if chunk.len() as u32 > self.total - self.received {
            self.cancel(sink);
            proof {
                assert(Seq::<SinkCall>::empty() + was.releasing() =~= was.releasing());
            }
            assert(carried_out(was.receiving(owner, data@, true), self@, nak_pair(AckStatus::BadValue), pre, true, *sink));
            return nak(AckStatus::BadValue);
        }
        let ghost call = SinkCall::Write(was.received, chunk@);
        if self.kind == ble::KIND_OTA {
            let ok: bool = sink.write(self.received, chunk);
            if !ok {
                let ghost mid = *sink;
                self.cancel(sink);
                proof {
                    lemma_ran_two(pre, call, mid, SinkCall::Cancel, false, *sink);
                    assert(seq![call] + was.releasing() =~= seq![call, SinkCall::Cancel]);
                }
                assert(carried_out(was.receiving(owner, data@, false), self@, nak_pair(AckStatus::BoardError), pre, false, *sink));
                return nak(AckStatus::BoardError);
            }
            proof {
                lemma_ran_one(pre, call, true, *sink);
            }
            self.running_crc = crc32_continue(self.running_crc, chunk);
        } else {
            put(&mut self.buf, self.received as usize, chunk);
            assert(self.buf@ =~= laid(was.buf, was.received as int, chunk@));
        }
        self.received = self.received + chunk.len() as u32;
        self.next_seq = if seq == 0xFFFF { 0 } else { seq + 1 };
        let r: (Event, Ack) = (Event::Nothing, answer(AckStatus::Applied, Echo::Word(self.next_seq as u32)));
        assert(self@ =~= was.taking(chunk@));
        assert(carried_out(was.receiving(owner, data@, true), self@, r, pre, true, *sink));
        r
    }

    /// `[OP_END]`. The CRC declared at begin is what is checked; the op itself
    /// carries nothing.
    fn end<S: Sink>(&mut self, owner: Owner, sink: &mut S) -> (r: (Event, Ack))
        requires
            old(self)@.wf(),
        ensures
            final(self)@.wf(),
            exists|ok: bool|
                #[trigger] carried_out(old(self)@.ending(owner, ok), final(self)@, r, *old(sink), ok, *final(sink)),
    {
        let ghost pre = *sink;
        let ghost was = self@;
        proof {
            lemma_ran_none(pre, true);
        }
        if !self.active || self.owner != owner {
            let status: AckStatus = if self.applied { AckStatus::Applied } else { AckStatus::BadState };
            let r: (Event, Ack) = nak(status);
            assert(carried_out(was.ending(owner, true), self@, r, pre, true, *sink));
            return r;
        }
        if self.received != self.total {
            self.cancel(sink);
            proof {
                assert(Seq::<SinkCall>::empty() + was.releasing() =~= was.releasing());
            }
            assert(carried_out(was.ending(owner, true), self@, nak_pair(AckStatus::BadValue), pre, true, *sink));
            return nak(AckStatus::BadValue);
        }
        let got: u32 = if self.kind == ble::KIND_OTA {
            self.running_crc
        } else {
            crc32(self.bytes())
        };
        if got != self.want_crc {
            self.cancel(sink);
            proof {
                assert(Seq::<SinkCall>::empty() + was.releasing() =~= was.releasing());
            }
            assert(carried_out(was.ending(owner, true), self@, nak_pair(AckStatus::BadValue), pre, true, *sink));
            return nak(AckStatus::BadValue);
        }
        // The transfer is over either way; only the buffered config outlives
        // it, so `active` drops without cancelling the sink.
        self.active = false;
        self.last_crc = self.want_crc;
        if self.kind == ble::KIND_OTA {
            let ok: bool = sink.finish();
            proof {
                lemma_ran_one(pre, SinkCall::Finish, ok, *sink);
            }
            if !ok {
                assert(carried_out(was.ending(owner, false), self@, nak_pair(AckStatus::BoardError), pre, false, *sink));
                return nak(AckStatus::BoardError);
            }
            self.applied = true;
            let r: (Event, Ack) = (Event::Firmware, answer(AckStatus::Applied, Echo::Empty));
            assert(carried_out(was.ending(owner, true), self@, r, pre, true, *sink));
            return r;
        }
        let r: (Event, Ack) = (Event::Config, answer(AckStatus::Applied, Echo::Empty));
        assert(carried_out(was.ending(owner, true), self@, r, pre, true, *sink));
        r
    }

    /// CRC of the last transfer that verified. Diagnostics only.
    pub fn last_crc(&self) -> (r: u32)
        ensures
            r == self@.last_crc,
    {
        self.last_crc
    }
}

/// What a refused op returns.
spec fn nak_pair(status: AckStatus) -> (Event, Ack) {
    (Event::Nothing, bulk_ack(status, Echo::Empty))
}

// -- What holds of every transfer ------------------------------------------------

/// The transport that does not own a transfer cannot touch it: no op of its
/// own changes it, keeps it alive, reaches the sink or fires the firmware.
pub proof fn law_the_other_transport_changes_nothing(t: Moving, owner: Owner, now_ms: u64, data: Seq<u8>, ok: bool)
    requires
        t.active,
        owner != t.owner,
    ensures
        ({
            let h = t.handling(owner, now_ms, data, ok);
            &&& h.next == t
            &&& h.event is Nothing
            &&& h.calls.len() == 0
        }),
{
}

/// Every op keeps a transfer in order, and an event is fired only by an end
/// that checked the whole of what was declared against its CRC.
pub proof fn law_an_event_is_a_verified_transfer(t: Moving, owner: Owner, now_ms: u64, data: Seq<u8>, ok: bool)
    requires
        t.wf(),
    ensures
        ({
            let h = t.handling(owner, now_ms, data, ok);
            &&& h.next.wf()
            &&& !(h.event is Nothing) ==> t.active && t.owner == owner && t.received == t.total && t.crc() == t.want_crc
                && !h.next.active
            &&& h.event is Config ==> t.kind == ble::KIND_TOML && h.next.text() == t.text() && link::crc32_of(
                h.next.text(),
            ) == t.want_crc
            &&& h.event is Firmware ==> t.kind == ble::KIND_OTA && ok && h.calls == seq![SinkCall::Finish]
        }),
{
}

/// A chunk sent again, because its ack went missing, is acked again and lands
/// once - however much later it comes, whatever the sink would have said, and
/// however often: the repeat is itself a chunk that was acked.
pub proof fn law_a_repeated_chunk_lands_once(
    t: Moving,
    owner: Owner,
    now_ms: u64,
    data: Seq<u8>,
    ok: bool,
    later_ms: u64,
    again_ok: bool,
)
    requires
        data.len() > 0,
        data[0] == ble::OP_DATA,
        t.handling(owner, now_ms, data, ok).ack.status is Applied,
    ensures
        ({
            let h = t.handling(owner, now_ms, data, ok);
            let again = h.next.handling(owner, later_ms, data, again_ok);
            &&& again.event is Nothing
            &&& again.ack == h.ack
            &&& again.calls.len() == 0
            &&& h.next.active
            &&& again.next == (Moving { last_ms: later_ms, ..h.next })
        }),
{
}

/// A repeated end answers as the one before it did once the work is committed,
/// and fires nothing again.
pub proof fn law_a_repeated_end_answers_the_applied(t: Moving, owner: Owner, now_ms: u64, data: Seq<u8>, ok: bool)
    requires
        !t.active,
        data.len() > 0,
        data[0] == ble::OP_END,
    ensures
        ({
            let h = t.handling(owner, now_ms, data, ok);
            &&& h.next == t
            &&& h.event is Nothing
            &&& h.calls.len() == 0
            &&& h.ack.status == (if t.applied { AckStatus::Applied } else { AckStatus::BadState })
        }),
{
}

/// A transfer nobody feeds goes stale, and an op of the other transport does
/// not keep it from it.
pub proof fn law_a_quiet_transfer_goes_stale(t: Moving, now_ms: u64, owner: Owner, data: Seq<u8>, ok: bool, poll_ms: u64)
    requires
        t.active,
        t.last_ms + IDLE_TIMEOUT_MS <= now_ms,
        owner != t.owner,
    ensures
        t.stale(now_ms),
        t.handling(owner, poll_ms, data, ok).next.stale(now_ms),
        !t.dropped().stale(now_ms),
{
    law_the_other_transport_changes_nothing(t, owner, poll_ms, data, ok);
}

/// The `OP_DATA` write that carries `chunk` as the chunk numbered `seq`.
pub open spec fn data_op(seq: u16, chunk: Seq<u8>) -> Seq<u8> {
    seq![ble::OP_DATA] + bytes::le16(seq) + chunk
}

/// The `OP_BEGIN` write that declares a payload.
pub open spec fn begin_op(kind: u8, payload: Seq<u8>, version: u16) -> Seq<u8> {
    seq![ble::OP_BEGIN, kind] + bytes::le32(payload.len() as u32) + bytes::le32(link::crc32_of(payload)) + bytes::le16(
        version,
    )
}

/// A chunk on its way: when it is sent, and what the sink answers to it where
/// it is asked.
pub struct Sent {
    pub at_ms: u64,
    pub chunk: Seq<u8>,
    pub ok: bool,
}

/// A transfer once chunks have been sent from the one it expects on.
pub open spec fn after_chunks(t: Moving, owner: Owner, sent: Seq<Sent>) -> Moving
    decreases sent.len(),
{
    if sent.len() == 0 {
        t
    } else {
        after_chunks(chunk_handled(t, owner, sent[0]).next, owner, sent.skip(1))
    }
}

/// What sending one chunk comes to, numbered as the transfer expects.
#[verifier::opaque]
pub open spec fn chunk_handled(t: Moving, owner: Owner, s: Sent) -> Handled {
    t.handling(owner, s.at_ms, data_op(t.next_seq, s.chunk), s.ok)
}

/// The calls those chunks make on the sink.
pub open spec fn chunk_calls(t: Moving, owner: Owner, sent: Seq<Sent>) -> Seq<SinkCall>
    decreases sent.len(),
{
    if sent.len() == 0 {
        seq![]
    } else {
        let h = chunk_handled(t, owner, sent[0]);
        h.calls + chunk_calls(h.next, owner, sent.skip(1))
    }
}

/// The acks those chunks get.
pub open spec fn chunk_acks(t: Moving, owner: Owner, sent: Seq<Sent>) -> Seq<Ack>
    decreases sent.len(),
{
    if sent.len() == 0 {
        seq![]
    } else {
        let h = chunk_handled(t, owner, sent[0]);
        seq![h.ack] + chunk_acks(h.next, owner, sent.skip(1))
    }
}

/// The acks that take `n` chunks from the one numbered `seq` on: each names
/// the chunk expected next.
pub open spec fn taken_acks(seq: int, n: nat) -> Seq<Ack> {
    Seq::new(n, |i: int| bulk_ack(AckStatus::Applied, Echo::Word(((seq + i + 1) % 0x1_0000) as u32)))
}

/// The chunks end to end.
pub open spec fn joined(sent: Seq<Sent>) -> Seq<u8>
    decreases sent.len(),
{
    if sent.len() == 0 {
        seq![]
    } else {
        sent[0].chunk + joined(sent.skip(1))
    }
}

/// The writes that lay chunks down one after the other from `at`.
pub open spec fn writes(at: int, sent: Seq<Sent>) -> Seq<SinkCall>
    decreases sent.len(),
{
    if sent.len() == 0 {
        seq![]
    } else {
        seq![SinkCall::Write(at as u32, sent[0].chunk)] + writes(at + sent[0].chunk.len(), sent.skip(1))
    }
}

/// Whether every chunk is one an op can carry.
pub open spec fn are_chunks(sent: Seq<Sent>) -> bool {
    forall|i: int| 0 <= i < sent.len() ==> 1 <= (#[trigger] sent[i]).chunk.len() <= ble::BULK_DATA_MAX
}

/// Whether the sink takes every chunk.
pub open spec fn all_written(sent: Seq<Sent>) -> bool {
    forall|i: int| 0 <= i < sent.len() ==> (#[trigger] sent[i]).ok
}

/// One chunk taken.
proof fn lemma_chunk(t: Moving, owner: Owner, s: Sent)
    requires
        t.wf(),
        t.active,
        t.owner == owner,
        1 <= s.chunk.len() <= ble::BULK_DATA_MAX,
        t.kind == ble::KIND_OTA ==> s.ok,
        t.received + s.chunk.len() <= t.total,
    ensures
        ({
            let h = chunk_handled(t, owner, s);
            &&& h.next == t.touched(owner, s.at_ms).taking(s.chunk)
            &&& h.next.wf()
            &&& h.ack == bulk_ack(AckStatus::Applied, Echo::Word(((t.next_seq + 1) % 0x1_0000) as u32))
            &&& h.calls == (if t.kind == ble::KIND_OTA {
                seq![SinkCall::Write(t.received, s.chunk)]
            } else {
                seq![]
            })
        }),
{
    reveal(chunk_handled);
    let op = data_op(t.next_seq, s.chunk);
    bytes::lemma_le16_slice(op, 1, t.next_seq);
    assert(op.skip(3) =~= s.chunk);
}

/// Chunks sent in order are each acked, and end up end to end: in the buffer
/// for a config, in the sink - each at its offset - for an image, with the
/// running CRC that of all of it.
proof fn lemma_chunks(t: Moving, owner: Owner, before: Seq<u8>, sent: Seq<Sent>)
    requires
        t.wf(),
        t.kind == ble::KIND_OTA ==> t.running_crc == link::crc32_of(before) && all_written(sent),
        t.active,
        t.owner == owner,
        are_chunks(sent),
        t.received + joined(sent).len() <= t.total,
    ensures
        ({
            let r = after_chunks(t, owner, sent);
            &&& r.wf()
            &&& r.active && r.owner == owner && r.kind == t.kind && r.total == t.total && r.want_crc == t.want_crc
            &&& r.received == t.received + joined(sent).len()
            &&& t.kind == ble::KIND_TOML ==> r.text() == t.text() + joined(sent)
            &&& t.kind == ble::KIND_OTA ==> r.running_crc == link::crc32_of(before + joined(sent))
        }),
        chunk_acks(t, owner, sent) == taken_acks(t.next_seq as int, sent.len()),
        t.kind == ble::KIND_TOML ==> chunk_calls(t, owner, sent).len() == 0,
        t.kind == ble::KIND_OTA ==> chunk_calls(t, owner, sent) == writes(t.received as int, sent),
    decreases sent.len(),
{
    if sent.len() == 0 {
        assert(t.text() + joined(sent) =~= t.text());
        assert(before + joined(sent) =~= before);
        assert(chunk_acks(t, owner, sent) =~= taken_acks(t.next_seq as int, 0));
    } else {
        let s = sent[0];
        let rest = sent.skip(1);
        assert(t.kind == ble::KIND_OTA ==> s.ok);
        lemma_chunk(t, owner, s);
        let n = chunk_handled(t, owner, s).next;
        assert forall|i: int| 0 <= i < rest.len() implies 1 <= (#[trigger] rest[i]).chunk.len()
            <= ble::BULK_DATA_MAX by {
            assert(rest[i] == sent[i + 1]);
        }
        assert forall|i: int| t.kind == ble::KIND_OTA && 0 <= i < rest.len() implies (#[trigger] rest[i]).ok by {
            assert(rest[i] == sent[i + 1]);
        }
        link::law_crc32_streams(before, s.chunk);
        lemma_chunks(n, owner, before + s.chunk, rest);
        assert(before + s.chunk + joined(rest) =~= before + joined(sent));
        assert(chunk_acks(t, owner, sent) =~= taken_acks(t.next_seq as int, sent.len()));
        if t.kind == ble::KIND_TOML {
            assert(n.text() =~= t.text() + s.chunk);
            assert(t.text() + s.chunk + joined(rest) =~= t.text() + joined(sent));
        }
    }
}

/// The `OP_BEGIN` of a payload reads as what it declares.
proof fn lemma_begin_op(kind: u8, payload: Seq<u8>, version: u16)
    requires
        payload.len() <= u32::MAX,
    ensures
        ({
            let op = begin_op(kind, payload, version);
            &&& op.len() == 12
            &&& op[0] == ble::OP_BEGIN
            &&& op[1] == kind
            &&& bytes::le32_at(op, 2) == payload.len()
            &&& bytes::le32_at(op, 6) == link::crc32_of(payload)
        }),
{
    let op = begin_op(kind, payload, version);
    bytes::lemma_le32_slice(op, 2, payload.len() as u32);
    bytes::lemma_le32_slice(op, 6, link::crc32_of(payload));
}

/// A config sent is the config received: begun, sent in chunks and ended by
/// one transport, whenever each op comes, it is handed over whole and
/// verified, whatever transfer of that transport's it restarted. Every op is
/// acked as taken, each chunk with the one expected next, and none of its
/// bytes reach the sink.
pub proof fn law_a_config_sent_is_the_config_received(
    t: Moving,
    owner: Owner,
    begin_ms: u64,
    begin_ok: bool,
    sent: Seq<Sent>,
    end_ms: u64,
    end_ok: bool,
    version: u16,
)
    requires
        t.wf(),
        t.active ==> t.owner == owner,
        are_chunks(sent),
        0 < joined(sent).len() <= CONFIG_MAX,
    ensures
        ({
            let b = t.handling(owner, begin_ms, begin_op(ble::KIND_TOML, joined(sent), version), begin_ok);
            let r = after_chunks(b.next, owner, sent);
            let e = r.handling(owner, end_ms, seq![ble::OP_END], end_ok);
            &&& b.event is Nothing && b.calls == t.releasing()
            &&& b.ack == bulk_ack(AckStatus::Applied, Echo::Word(0))
            &&& chunk_acks(b.next, owner, sent) == taken_acks(0, sent.len())
            &&& chunk_calls(b.next, owner, sent).len() == 0
            &&& e.event is Config && e.calls.len() == 0
            &&& e.ack == bulk_ack(AckStatus::Applied, Echo::Empty)
            &&& e.next.text() == joined(sent)
            &&& e.next.last_crc == link::crc32_of(joined(sent))
            &&& !e.next.active
        }),
{
    let payload = joined(sent);
    lemma_begin_op(ble::KIND_TOML, payload, version);
    let b = t.handling(owner, begin_ms, begin_op(ble::KIND_TOML, payload, version), begin_ok);
    assert(t.touched(owner, begin_ms).releasing() == t.releasing());
    assert(b.next.wf());
    lemma_chunks(b.next, owner, Seq::empty(), sent);
    assert(b.next.text() + payload =~= payload);
}

/// An image sent is the image the sink gets: with a sink that accepts it,
/// whenever each op comes, it is laid down chunk by chunk from the start and
/// in order, and finished once its CRC matched. Every op is acked as taken,
/// each chunk with the one expected next.
pub proof fn law_an_image_sent_is_the_image_written(
    t: Moving,
    owner: Owner,
    begin_ms: u64,
    sent: Seq<Sent>,
    end_ms: u64,
    version: u16,
)
    requires
        t.wf(),
        t.active ==> t.owner == owner,
        are_chunks(sent),
        all_written(sent),
        0 < joined(sent).len() <= u32::MAX,
    ensures
        ({
            let b = t.handling(owner, begin_ms, begin_op(ble::KIND_OTA, joined(sent), version), true);
            let r = after_chunks(b.next, owner, sent);
            let e = r.handling(owner, end_ms, seq![ble::OP_END], true);
            &&& b.event is Nothing && b.calls == t.releasing() + seq![SinkCall::Begin(joined(sent).len() as u32)]
            &&& b.ack == bulk_ack(AckStatus::Applied, Echo::Word(0))
            &&& chunk_acks(b.next, owner, sent) == taken_acks(0, sent.len())
            &&& chunk_calls(b.next, owner, sent) == writes(0, sent)
            &&& e.event is Firmware && e.calls == seq![SinkCall::Finish]
            &&& e.ack == bulk_ack(AckStatus::Applied, Echo::Empty)
            &&& e.next.last_crc == link::crc32_of(joined(sent))
            &&& e.next.applied && !e.next.active
        }),
{
    let payload = joined(sent);
    lemma_begin_op(ble::KIND_OTA, payload, version);
    let b = t.handling(owner, begin_ms, begin_op(ble::KIND_OTA, payload, version), true);
    assert(t.touched(owner, begin_ms).releasing() == t.releasing());
    assert(b.next.wf());
    link::law_crc32_streams(Seq::empty(), Seq::empty());
    lemma_chunks(b.next, owner, Seq::empty(), sent);
    assert(Seq::<u8>::empty() + payload =~= payload);
}

/// What begins a transfer: twelve bytes, from a transport that nobody else is
/// in the way of, for a config of up to 1024 bytes or an image the sink takes.
/// It is then of the kind, length and crc they say, from the first chunk on.
pub proof fn law_what_begins_a_transfer(t: Moving, owner: Owner, now_ms: u64, data: Seq<u8>, ok: bool)
    requires
        data.len() > 0,
        data[0] == 1,
    ensures
        ({
            let h = t.handling(owner, now_ms, data, ok);
            let total = bytes::le32_at(data, 2);
            let free = !t.active || t.owner == owner;
            let config = data[1] == 1 && 0 < total <= 1024;
            let image = data[1] == 3 && 0 < total;
            &&& h.event is Nothing
            &&& h.ack.id == 0x20
            &&& h.ack.status is Applied <==> data.len() >= 12 && free && (config || (image && ok))
            &&& h.ack.status is BoardError <==> data.len() >= 12 && free && image && !ok
            &&& h.ack.status is BadState <==> data.len() >= 12 && !free
            &&& h.ack.status is BadValue <==> data.len() < 12 || (free && !config && !image)
            &&& h.ack.status is Applied ==> h.next.active && h.next.owner == owner && h.next.kind == data[1] && h.next.total
                == total && h.next.want_crc == bytes::le32_at(data, 6) && h.next.received == 0 && h.next.next_seq == 0
                && h.next.running_crc == 0 && !h.next.applied && h.next.last_ms == now_ms && h.ack.echo == Echo::Word(0)
            &&& h.ack.status is BoardError ==> !h.next.active
            &&& data.len() >= 12 && h.ack.status is BadValue ==> !h.next.active
            &&& h.next.buf == t.buf
        }),
{
}

/// What takes a chunk: the transport's own transfer, one to 192 bytes, the
/// number expected, room for it in what was declared, and - for an image - a
/// sink that takes it.
pub proof fn law_what_takes_a_chunk(t: Moving, owner: Owner, now_ms: u64, data: Seq<u8>, ok: bool)
    requires
        t.wf(),
        data.len() > 0,
        data[0] == 2,
    ensures
        ({
            let h = t.handling(owner, now_ms, data, ok);
            let mine = t.active && t.owner == owner;
            let sized = 4 <= data.len() <= 195;
            let expected = bytes::le16_at(data, 1) == t.next_seq;
            let repeated = !expected && (t.next_seq - bytes::le16_at(data, 1) - 1) % 0x1_0000 == 0;
            let fits = t.received + data.len() - 3 <= t.total;
            let written = t.kind != 3 || ok;
            &&& h.event is Nothing
            &&& h.ack.status is BadState <==> !mine
            &&& h.ack.status is Applied <==> mine && sized && (repeated || (expected && fits && written))
            &&& h.ack.status is BoardError <==> mine && sized && expected && fits && !written
            &&& h.ack.status is BadValue <==> mine && (!sized || (!expected && !repeated) || (expected && !fits))
            &&& h.next.received - t.received == (if mine && sized && expected && fits && written {
                data.len() - 3
            } else {
                0
            })
            &&& h.next.active <==> t.active && !(mine && sized && expected && !(fits && written))
            &&& mine && sized && expected && fits && written ==> h.ack.echo == Echo::Word(h.next.next_seq as u32) && (
            h.next.next_seq - t.next_seq - 1) % 0x1_0000 == 0
            &&& mine && sized && repeated ==> h.next.next_seq == t.next_seq && h.calls.len() == 0
        }),
{
}

/// A chunk taken lands behind what came before it, and touches nothing else:
/// in the buffer for a config, on the sink for an image.
pub proof fn law_a_chunk_lands_behind_the_last(t: Moving, owner: Owner, now_ms: u64, data: Seq<u8>, ok: bool, i: int)
    requires
        t.wf(),
        t.active && t.owner == owner,
        data.len() > 0,
        data[0] == 2,
        bytes::le16_at(data, 1) == t.next_seq,
        t.handling(owner, now_ms, data, ok).ack.status is Applied,
        0 <= i < 1024,
    ensures
        ({
            let h = t.handling(owner, now_ms, data, ok);
            let at = i - t.received;
            &&& t.kind == 1 ==> h.calls.len() == 0 && h.next.buf[i] == (if 0 <= at < data.len() - 3 {
                data[3 + at]
            } else {
                t.buf[i]
            })
            &&& t.kind == 3 ==> h.next.buf[i] == t.buf[i] && h.calls.len() == 1 && (h.calls[0] matches SinkCall::Write(
                offset,
                chunk,
            ) && offset == t.received && chunk == data.skip(3))
            &&& t.kind == 3 ==> h.next.running_crc == link::crc32_next(t.running_crc, data.skip(3))
        }),
{
}

/// What an end comes to: a config handed over or an image finished where all of
/// it has come and its crc is the one declared, and the transfer given up
/// where not. Either way it is over.
pub proof fn law_what_ends_a_transfer(t: Moving, owner: Owner, now_ms: u64, data: Seq<u8>, ok: bool)
    requires
        t.wf(),
        t.active && t.owner == owner,
        data.len() > 0,
        data[0] == 3,
    ensures
        ({
            let h = t.handling(owner, now_ms, data, ok);
            let crc = if t.kind == 3 {
                t.running_crc
            } else {
                link::crc32_of(t.buf.take(t.received as int))
            };
            let whole = t.received == t.total && crc == t.want_crc;
            &&& h.event is Config <==> whole && t.kind == 1
            &&& h.event is Firmware <==> whole && t.kind == 3 && ok
            &&& h.ack.status is Applied <==> whole && (t.kind == 1 || ok)
            &&& h.ack.status is BoardError <==> whole && t.kind == 3 && !ok
            &&& h.ack.status is BadValue <==> !whole
            &&& !h.next.active
            &&& whole ==> h.next.last_crc == t.want_crc
            &&& !whole ==> h.next.last_crc == t.last_crc
            &&& t.kind == 3 ==> h.calls == seq![if whole { SinkCall::Finish } else { SinkCall::Cancel }]
            &&& t.kind == 1 ==> h.calls.len() == 0
        }),
{
    if t.received == t.total && t.touched(owner, now_ms).crc() == t.want_crc {
    } else if t.kind == 3 {
        let u = t.touched(owner, now_ms);
        assert(u.given_up(seq![], AckStatus::BadValue).calls =~= seq![SinkCall::Cancel]);
    }
}

/// An abort drops its owner's transfer, releasing what an image claimed, and is
/// acked as done whether or not there was one to drop.
pub proof fn law_an_abort_drops_ones_own(t: Moving, owner: Owner, now_ms: u64, data: Seq<u8>, ok: bool)
    requires
        data.len() > 0,
        data[0] == 4,
    ensures
        ({
            let h = t.handling(owner, now_ms, data, ok);
            &&& h.event is Nothing
            &&& h.ack.status is Applied
            &&& h.next.active <==> t.active && t.owner != owner
            &&& h.calls == (if t.active && t.owner == owner && t.kind == 3 {
                seq![SinkCall::Cancel]
            } else {
                seq![]
            })
        }),
{
}

/// An op that is none of the four, or empty, is a bad value and does nothing;
/// and any op of its owner's keeps a transfer that goes on alive.
pub proof fn law_an_op_of_its_owner_keeps_it_alive(t: Moving, owner: Owner, now_ms: u64, data: Seq<u8>, ok: bool)
    ensures
        ({
            let h = t.handling(owner, now_ms, data, ok);
            &&& data.len() == 0 ==> h.next == t
            &&& data.len() == 0 || data[0] < 1 || data[0] > 4 ==> h.ack.status is BadValue && h.event is Nothing
                && h.calls.len() == 0 && h.next.active == t.active && h.next.received == t.received && h.next.buf == t.buf
            &&& data.len() > 0 && t.active && t.owner == owner && h.next.active ==> h.next.last_ms == now_ms
            &&& h.ack.id == 0x20
        }),
{
}

/// A transfer is given up five seconds after its last op, and not before.
pub proof fn law_a_transfer_lives_five_seconds(t: Moving, now_ms: u64)
    ensures
        t.stale(now_ms) <==> t.active && now_ms >= t.last_ms + 5_000,
        t.dropped().active == false && t.dropped().buf == t.buf && t.dropped().applied == t.applied,
        t.releasing().len() == (if t.active && t.kind == 3 {
            1nat
        } else {
            0nat
        }),
{
}

/// A board that takes no firmware refuses every call but a cancel, and nothing
/// comes of any.
pub proof fn law_a_board_without_firmware_refuses(pre: NoFirmware, call: SinkCall, ok: bool, post: NoFirmware)
    ensures
        NoFirmware::did(pre, call, ok, post) && !(call is Cancel) ==> !ok,
        NoFirmware::did(pre, call, ok, post) && call is Cancel ==> ok,
        NoFirmware::did(pre, call, call is Cancel, pre),
{
}

/// A cancel needs no answer; every other call is answered as it is answered.
pub proof fn law_a_cancel_needs_no_answer(total: u32, offset: u32, chunk: Seq<u8>, ok: bool)
    ensures
        answered(SinkCall::Cancel, ok),
        answered(SinkCall::Begin(total), ok) == ok,
        answered(SinkCall::Write(offset, chunk), ok) == ok,
        answered(SinkCall::Finish, ok) == ok,
{
}

/// A fresh transfer is none: nothing declared, nothing received, nothing
/// applied before it.
pub proof fn law_a_fresh_transfer_is_none(i: int)
    requires
        0 <= i < 1024,
    ensures
        ({
            let t = Moving::idle();
            &&& !t.active && !t.applied
            &&& t.total == 0 && t.received == 0 && t.next_seq == 0 && t.kind == 0
            &&& t.want_crc == 0 && t.running_crc == 0 && t.last_crc == 0 && t.last_ms == 0
            &&& t.buf.len() == 1024 && t.buf[i] == 0
            &&& t.wf()
        }),
{
}

} // verus!
