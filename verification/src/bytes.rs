//! Little-endian integers inside byte strings.
//!
//! Every wire format in this crate is a fixed sequence of bytes with its
//! integers little-endian, so the layouts are stated byte by byte over these
//! functions and the round trips follow from theirs.

use vstd::prelude::*;

verus! {

/// Byte `0` of a `u16`, the low one.
#[verifier::opaque]
pub open spec fn lo(v: u16) -> u8 {
    (v % 256) as u8
}

/// Byte `1` of a `u16`.
#[verifier::opaque]
pub open spec fn hi(v: u16) -> u8 {
    (v / 256) as u8
}

/// Byte `k` of a `u32`, counted from the low end.
#[verifier::opaque]
pub open spec fn byte_of(v: u32, k: int) -> u8 {
    if k == 0 {
        (v % 256) as u8
    } else if k == 1 {
        (v / 0x100 % 256) as u8
    } else if k == 2 {
        (v / 0x1_0000 % 256) as u8
    } else {
        (v / 0x100_0000) as u8
    }
}

/// The two bytes of a `u16`.
pub open spec fn le16(v: u16) -> Seq<u8> {
    seq![lo(v), hi(v)]
}

/// The four bytes of a `u32`.
pub open spec fn le32(v: u32) -> Seq<u8> {
    seq![byte_of(v, 0), byte_of(v, 1), byte_of(v, 2), byte_of(v, 3)]
}

/// The `u16` at offset `i`.
#[verifier::opaque]
pub open spec fn le16_at(b: Seq<u8>, i: int) -> u16 {
    (b[i] + 256 * b[i + 1]) as u16
}

/// The `u32` at offset `i`.
#[verifier::opaque]
pub open spec fn le32_at(b: Seq<u8>, i: int) -> u32 {
    (b[i] + 0x100 * b[i + 1] + 0x1_0000 * b[i + 2] + 0x100_0000 * b[i + 3]) as u32
}

/// A signed byte as it travels.
#[verifier::opaque]
pub open spec fn of_i8(v: i8) -> u8 {
    if v >= 0 {
        v as u8
    } else {
        (v + 256) as u8
    }
}

/// A byte read as signed.
#[verifier::opaque]
pub open spec fn to_i8(v: u8) -> i8 {
    if v < 128 {
        v as i8
    } else {
        (v - 256) as i8
    }
}

/// A signed half word as it travels.
#[verifier::opaque]
pub open spec fn of_i16(v: i16) -> u16 {
    if v >= 0 {
        v as u16
    } else {
        (v + 0x1_0000) as u16
    }
}

/// A half word read as signed.
#[verifier::opaque]
pub open spec fn to_i16(v: u16) -> i16 {
    if v < 0x8000 {
        v as i16
    } else {
        (v - 0x1_0000) as i16
    }
}

/// A signed word as it travels.
#[verifier::opaque]
pub open spec fn of_i32(v: i32) -> u32 {
    if v >= 0 {
        v as u32
    } else {
        (v + 0x1_0000_0000) as u32
    }
}

/// A word read as signed.
#[verifier::opaque]
pub open spec fn to_i32(v: u32) -> i32 {
    if v < 0x8000_0000 {
        v as i32
    } else {
        (v - 0x1_0000_0000) as i32
    }
}

/// A `u16` laid down at offset `i` reads back as itself.
pub proof fn lemma_le16_read(b: Seq<u8>, i: int, v: u16)
    requires
        0 <= i,
        i + 2 <= b.len(),
        b[i] == lo(v),
        b[i + 1] == hi(v),
    ensures
        le16_at(b, i) == v,
{
    reveal(lo);
    reveal(hi);
    reveal(le16_at);
}

/// A `u32` laid down at offset `i` reads back as itself.
pub proof fn lemma_le32_read(b: Seq<u8>, i: int, v: u32)
    requires
        0 <= i,
        i + 4 <= b.len(),
        b[i] == byte_of(v, 0),
        b[i + 1] == byte_of(v, 1),
        b[i + 2] == byte_of(v, 2),
        b[i + 3] == byte_of(v, 3),
    ensures
        le32_at(b, i) == v,
{
    reveal(byte_of);
    reveal(le32_at);
    let w0: int = (v % 256) as int;
    let w1: int = (v / 0x100 % 256) as int;
    let w2: int = (v / 0x1_0000 % 256) as int;
    let w3: int = (v / 0x100_0000) as int;
    assert(v == w0 + 0x100 * (v / 0x100));
    assert(v / 0x100 == w1 + 0x100 * (v / 0x1_0000));
    assert(v / 0x1_0000 == w2 + 0x100 * w3);
}

/// The bytes of a `u16` laid down at offset `i` read back as it.
pub proof fn lemma_le16_slice(b: Seq<u8>, i: int, v: u16)
    requires
        0 <= i,
        i + 2 <= b.len(),
        forall|k: int| i <= k < i + 2 ==> #[trigger] b[k] == le16(v)[k - i],
    ensures
        le16_at(b, i) == v,
{
    assert(b[i] == le16(v)[0]);
    assert(b[i + 1] == le16(v)[1]);
    lemma_le16_read(b, i, v);
}

/// The bytes of a `u32` laid down at offset `i` read back as it.
pub proof fn lemma_le32_slice(b: Seq<u8>, i: int, v: u32)
    requires
        0 <= i,
        i + 4 <= b.len(),
        forall|k: int| i <= k < i + 4 ==> #[trigger] b[k] == le32(v)[k - i],
    ensures
        le32_at(b, i) == v,
{
    assert(b[i] == le32(v)[0]);
    assert(b[i + 1] == le32(v)[1]);
    assert(b[i + 2] == le32(v)[2]);
    assert(b[i + 3] == le32(v)[3]);
    lemma_le32_read(b, i, v);
}

/// A `u32` with one of its bytes changed is another.
pub proof fn lemma_le32_changed(b: Seq<u8>, i: int, k: int, v: u8)
    requires
        0 <= i <= k < i + 4 <= b.len(),
        b[k] != v,
    ensures
        le32_at(b.update(k, v), i) != le32_at(b, i),
{
    reveal(le32_at);
}

/// The signed encodings are inverse to their readings.
pub proof fn lemma_signed(a: i8, b: i16, c: i32)
    ensures
        to_i8(of_i8(a)) == a,
        to_i16(of_i16(b)) == b,
        to_i32(of_i32(c)) == c,
{
    reveal(of_i8);
    reveal(to_i8);
    reveal(of_i16);
    reveal(to_i16);
    reveal(of_i32);
    reveal(to_i32);
}

/// The two bytes of a `u16`.
pub fn u16_bytes(v: u16) -> (r: [u8; 2])
    ensures
        r@ == le16(v),
{
    proof {
        reveal(lo);
        reveal(hi);
    }
    [(v % 256) as u8, (v / 256) as u8]
}

/// The four bytes of a `u32`.
pub fn u32_bytes(v: u32) -> (r: [u8; 4])
    ensures
        r@ == le32(v),
{
    proof {
        reveal(byte_of);
    }
    [
        (v % 256) as u8,
        (v / 0x100 % 256) as u8,
        (v / 0x1_0000 % 256) as u8,
        (v / 0x100_0000) as u8,
    ]
}

/// The `u16` at offset `i`.
pub fn u16_at(b: &[u8], i: usize) -> (r: u16)
    requires
        i + 2 <= b@.len(),
    ensures
        r == le16_at(b@, i as int),
{
    proof {
        reveal(le16_at);
    }
    b[i] as u16 + 256 * (b[i + 1] as u16)
}

/// The `u32` at offset `i`.
pub fn u32_at(b: &[u8], i: usize) -> (r: u32)
    requires
        i + 4 <= b@.len(),
    ensures
        r == le32_at(b@, i as int),
{
    proof {
        reveal(le32_at);
    }
    b[i] as u32 + 0x100 * (b[i + 1] as u32) + 0x1_0000 * (b[i + 2] as u32) + 0x100_0000 * (b[i + 3] as u32)
}

/// A signed byte as it travels.
pub fn i8_byte(v: i8) -> (r: u8)
    ensures
        r == of_i8(v),
{
    proof {
        reveal(of_i8);
    }
    if v >= 0 {
        v as u8
    } else {
        (v as i16 + 256) as u8
    }
}

/// A byte read as signed.
pub fn byte_i8(v: u8) -> (r: i8)
    ensures
        r == to_i8(v),
{
    proof {
        reveal(to_i8);
    }
    if v < 128 {
        v as i8
    } else {
        (v as i16 - 256) as i8
    }
}

/// A signed half word as it travels.
pub fn i16_word(v: i16) -> (r: u16)
    ensures
        r == of_i16(v),
{
    proof {
        reveal(of_i16);
    }
    if v >= 0 {
        v as u16
    } else {
        (v as i32 + 0x1_0000) as u16
    }
}

/// A half word read as signed.
pub fn word_i16(v: u16) -> (r: i16)
    ensures
        r == to_i16(v),
{
    proof {
        reveal(to_i16);
    }
    if v < 0x8000 {
        v as i16
    } else {
        (v as i32 - 0x1_0000) as i16
    }
}

/// A signed word as it travels.
pub fn i32_word(v: i32) -> (r: u32)
    ensures
        r == of_i32(v),
{
    proof {
        reveal(of_i32);
    }
    if v >= 0 {
        v as u32
    } else {
        (v as i64 + 0x1_0000_0000) as u32
    }
}

/// A word read as signed.
pub fn word_i32(v: u32) -> (r: i32)
    ensures
        r == to_i32(v),
{
    proof {
        reveal(to_i32);
    }
    if v < 0x8000_0000 {
        v as i32
    } else {
        (v as i64 - 0x1_0000_0000) as i32
    }
}

/// Copy `src` into `dst` from offset `at`.
pub fn put<const N: usize>(dst: &mut [u8; N], at: usize, src: &[u8])
    requires
        at + src@.len() <= N,
    ensures
        final(dst)@.len() == N,
        forall|i: int| 0 <= i < N ==> final(dst)@[i] == (if at <= i < at + src@.len() {
            src@[i - at]
        } else {
            old(dst)@[i]
        }),
{
    let mut k: usize = 0;
    while k < src.len()
        invariant
            k <= src@.len(),
            at + src@.len() <= N,
            dst@.len() == N,
            forall|i: int| 0 <= i < N ==> dst@[i] == (if at <= i < at + k {
                src@[i - at]
            } else {
                old(dst)@[i]
            }),
        decreases src@.len() - k,
    {
        dst[at + k] = src[k];
        k += 1;
    }
}

/// Words travel low byte first: the first byte of one is its lowest eight
/// bits, and so on up.
pub proof fn law_words_travel_low_byte_first(v: u32, h: u16, b: Seq<u8>, i: int)
    ensures
        le32(v).len() == 4 && le16(h).len() == 2,
        le32(v)[0] == v & 0xFF && le32(v)[1] == (v >> 8) & 0xFF && le32(v)[2] == (v >> 16) & 0xFF && le32(v)[3] == v >> 24,
        le16(h)[0] == h & 0xFF && le16(h)[1] == h >> 8,
        le32_at(b, i) & 0xFF == b[i] && (le32_at(b, i) >> 8) & 0xFF == b[i + 1] && (le32_at(b, i) >> 16) & 0xFF == b[i + 2]
            && le32_at(b, i) >> 24 == b[i + 3],
        le16_at(b, i) & 0xFF == b[i] && le16_at(b, i) >> 8 == b[i + 1],
{
    reveal(byte_of);
    reveal(lo);
    reveal(hi);
    assert(v % 256 == v & 0xFF && v / 0x100 % 256 == (v >> 8) & 0xFF && v / 0x1_0000 % 256 == (v >> 16) & 0xFF && v
        / 0x100_0000 == v >> 24) by (bit_vector);
    assert(h % 256 == h & 0xFF && h / 256 == h >> 8) by (bit_vector);
    reveal(le32_at);
    reveal(le16_at);
    let w = le32_at(b, i);
    let x = le16_at(b, i);
    let (p, q, r, s) = (b[i] as u32, b[i + 1] as u32, b[i + 2] as u32, b[i + 3] as u32);
    let (y, z) = (b[i] as u16, b[i + 1] as u16);
    assert(w == p + 0x100 * q + 0x1_0000 * r + 0x100_0000 * s);
    assert(x == y + 256 * z);
    assert(w & 0xFF == p && (w >> 8) & 0xFF == q && (w >> 16) & 0xFF == r && w >> 24 == s) by (bit_vector)
        requires
            w == p + 0x100 * q + 0x1_0000 * r + 0x100_0000 * s,
            p < 256,
            q < 256,
            r < 256,
            s < 256,
    ;
    assert(x & 0xFF == y && x >> 8 == z) by (bit_vector)
        requires
            x == y + 256 * z,
            y < 256,
            z < 256,
    ;
}

/// Signed words travel as their two's complement.
pub proof fn law_signed_words_are_twos_complement(a: i8, b: i16, c: i32)
    ensures
        (of_i8(a) - a) % 256 == 0,
        (of_i16(b) - b) % 0x1_0000 == 0,
        (of_i32(c) - c) % 0x1_0000_0000 == 0,
        a >= 0 ==> of_i8(a) == a,
        b >= 0 ==> of_i16(b) == b,
        c >= 0 ==> of_i32(c) == c,
{
    reveal(of_i8);
    reveal(of_i16);
    reveal(of_i32);
}

} // verus!
