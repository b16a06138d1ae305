//! What a write is answered with.
//!
//! An ack is the id it answers, a status, and up to four bytes of value. The
//! bytes a status is on the wire belong to the position protocol's packet
//! layer; this is what the board says, and that layer is how it is spelled.

use vstd::prelude::*;
use crate::bytes;
use crate::bytes::u32_bytes;

verus! {

/// How a write went.
#[derive(Clone, Copy, Debug, PartialEq, Eq, Hash, Structural)]
pub enum AckStatus {
    /// The write was applied; the value says what was.
    Applied,
    /// The id is not one this board knows.
    UnknownId,
    /// The value is not one the id takes.
    BadValue,
    /// The board could not do it.
    BoardError,
    /// The op does not belong to the state the board is in.
    BadState,
    /// A status of the position protocol's own.
    Other(u8),
}

/// Why the position protocol turned a write down. Whatever it says, it is not
/// that the write was applied.
#[derive(Clone, Copy, Debug, PartialEq, Eq, Hash, Structural)]
pub enum Refusal {
    /// The id is not one it knows.
    UnknownId,
    /// The value is not one the id takes.
    BadValue,
    /// A status of its own.
    Other(u8),
}

impl Refusal {
    /// The status a refusal is acked with.
    pub open spec fn acked(self) -> AckStatus {
        match self {
            Refusal::UnknownId => AckStatus::UnknownId,
            Refusal::BadValue => AckStatus::BadValue,
            Refusal::Other(b) => AckStatus::Other(b),
        }
    }

    /// The status a refusal is acked with.
    pub fn status(self) -> (r: AckStatus)
        ensures
            r == self.acked(),
            !(r is Applied),
    {
        match self {
            Refusal::UnknownId => AckStatus::UnknownId,
            Refusal::BadValue => AckStatus::BadValue,
            Refusal::Other(b) => AckStatus::Other(b),
        }
    }
}

/// The value an ack carries.
#[derive(Clone, Copy, Debug, PartialEq, Eq, Hash, Structural)]
pub enum Echo {
    Empty,
    One(u8),
    Two(u8, u8),
    Word(u32),
}

/// The reply to one write.
#[derive(Clone, Copy, Debug, PartialEq, Eq, Hash, Structural)]
pub struct Ack {
    /// The id it answers.
    pub id: u8,
    pub status: AckStatus,
    pub echo: Echo,
}

impl Echo {
    /// The value, byte by byte.
    pub open spec fn wire(self) -> Seq<u8> {
        match self {
            Echo::Empty => seq![],
            Echo::One(a) => seq![a],
            Echo::Two(a, b) => seq![a, b],
            Echo::Word(v) => bytes::le32(v),
        }
    }

    /// The value, byte by byte.
    pub fn bytes(self) -> (r: Vec<u8>)
        ensures
            r@ == self.wire(),
            r@.len() <= 4,
    {
        let mut r: Vec<u8> = Vec::new();
        match self {
            Echo::Empty => {},
            Echo::One(a) => {
                r.push(a);
            },
            Echo::Two(a, b) => {
                r.push(a);
                r.push(b);
            },
            Echo::Word(v) => {
                let w: [u8; 4] = u32_bytes(v);
                r.push(w[0]);
                r.push(w[1]);
                r.push(w[2]);
                r.push(w[3]);
            },
        }
        assert(r@ =~= self.wire());
        r
    }
}

/// What is echoed is what was put in it, low byte first.
pub proof fn law_an_echo_is_its_value(a: u8, b: u8, v: u32)
    ensures
        Echo::Empty.wire().len() == 0,
        Echo::One(a).wire().len() == 1 && Echo::One(a).wire()[0] == a,
        Echo::Two(a, b).wire().len() == 2 && Echo::Two(a, b).wire()[0] == a && Echo::Two(a, b).wire()[1] == b,
        Echo::Word(v).wire().len() == 4 && bytes::le32_at(Echo::Word(v).wire(), 0) == v,
{
    bytes::lemma_le32_slice(Echo::Word(v).wire(), 0, v);
}

/// A refusal is acked as the refusal it is: no two come to the same status,
/// and none to that of a write applied.
pub proof fn law_a_refusal_keeps_its_reason(a: Refusal, b: Refusal)
    ensures
        a.acked() == b.acked() <==> a == b,
        !(a.acked() is Applied),
        a is UnknownId <==> a.acked() is UnknownId,
        a is BadValue <==> a.acked() is BadValue,
        a matches Refusal::Other(s) ==> a.acked() == AckStatus::Other(s),
{
}

} // verus!
