//! The radio config's copy in the board's own flash.
//!
//! What is kept is the config *text* rather than the parsed form: the bytes
//! somebody wrote survive a firmware that later learns a new key.
//!
//! ```text
//! offset  size  field
//! 0       4     magic
//! 4       4     version
//! 8       4     length of the text
//! 12      4     crc32 of the text
//! 16      len   the text
//! ```
//!
//! The length and the crc sit in front of the text, so a header and a text
//! that were never written together cannot be read as a pair.

use vstd::prelude::*;
use crate::bytes;
use crate::link;
use crate::bytes::{u32_at, u32_bytes};
use crate::link::crc32;

verus! {

/// Marks the record as this firmware's ("midC").
pub const MAGIC: u32 = 0x6D69_6443;

/// Layout version of the backup record. A version this build does not know
/// reads as nothing stored.
pub const VERSION: u32 = 1;

/// magic, version, text length, crc32 of the text.
pub const HEADER_LEN: usize = 16;

/// Longest config text a record holds, which is the longest one the firmware
/// accepts in a transfer.
pub const TEXT_MAX: usize = crate::bulk::CONFIG_MAX;

/// Header plus the longest text: what the flash has to have room for.
pub const RECORD_MAX: usize = HEADER_LEN + TEXT_MAX;

/// What sits in front of the stored text.
#[derive(Clone, Copy, Debug, PartialEq, Eq, Structural)]
pub struct Header {
    /// Bytes of config text behind this header.
    pub len: usize,
    /// crc32 over those bytes.
    pub crc: u32,
}

/// The header a text is stored behind.
pub open spec fn header_of(text: Seq<u8>) -> Header {
    Header { len: text.len() as usize, crc: link::crc32_of(text) }
}

/// The header a text is stored behind, where it can be stored.
pub open spec fn header_for(text: Seq<u8>) -> Option<Header> {
    if text.len() > TEXT_MAX {
        None
    } else {
        Some(header_of(text))
    }
}

/// A header, byte by byte; the length travels as its low 32 bits.
pub open spec fn header_bytes(h: Header) -> Seq<u8> {
    let len = (h.len as int % 0x1_0000_0000) as u32;
    seq![
        bytes::byte_of(MAGIC, 0), bytes::byte_of(MAGIC, 1), bytes::byte_of(MAGIC, 2), bytes::byte_of(MAGIC, 3),
        bytes::byte_of(VERSION, 0), bytes::byte_of(VERSION, 1), bytes::byte_of(VERSION, 2), bytes::byte_of(VERSION, 3),
        bytes::byte_of(len, 0), bytes::byte_of(len, 1), bytes::byte_of(len, 2), bytes::byte_of(len, 3),
        bytes::byte_of(h.crc, 0), bytes::byte_of(h.crc, 1), bytes::byte_of(h.crc, 2), bytes::byte_of(h.crc, 3),
    ]
}

/// The header a byte string starts with, if it starts with one.
pub open spec fn header_read(b: Seq<u8>) -> Option<Header> {
    if b.len() < HEADER_LEN || bytes::le32_at(b, 0) != MAGIC || bytes::le32_at(b, 4) != VERSION || bytes::le32_at(b, 8) > TEXT_MAX {
        None
    } else {
        Some(Header { len: bytes::le32_at(b, 8) as usize, crc: bytes::le32_at(b, 12) })
    }
}

impl Header {
    /// The header `text` is stored behind, or `None` for text too long to
    /// store.
    ///
    /// Empty text is a header like any other: an empty config file is a
    /// valid one meaning "every setting at its default".
    pub fn for_text(text: &[u8]) -> (r: Option<Self>)
        ensures
            r == header_for(text@),
    {
        if text.len() > TEXT_MAX {
            return None;
        }
        Some(Self { len: text.len(), crc: crc32(text) })
    }

    /// The header as it is stored.
    pub fn encode(&self) -> (r: [u8; HEADER_LEN])
        ensures
            r@ == header_bytes(*self),
    {
        let magic: [u8; 4] = u32_bytes(MAGIC);
        let version: [u8; 4] = u32_bytes(VERSION);
        let len: [u8; 4] = u32_bytes((self.len as u64 % 0x1_0000_0000) as u32);
        let crc: [u8; 4] = u32_bytes(self.crc);
        let r: [u8; HEADER_LEN] = [
            magic[0], magic[1], magic[2], magic[3],
            version[0], version[1], version[2], version[3],
            len[0], len[1], len[2], len[3],
            crc[0], crc[1], crc[2], crc[3],
        ];
        assert(r@ =~= header_bytes(*self));
        r
    }

    /// Read a header back. `None` for anything that is not one: a short
    /// read, erased flash, another program's bytes, a version this build
    /// does not understand, or a length no transfer could have produced.
    pub fn decode(bytes: &[u8]) -> (r: Option<Self>)
        ensures
            r == header_read(bytes@),
    {
        if bytes.len() < HEADER_LEN {
            return None;
        }
        if u32_at(bytes, 0) != MAGIC || u32_at(bytes, 4) != VERSION {
            return None;
        }
        let len: u32 = u32_at(bytes, 8);
        if len as usize > TEXT_MAX {
            return None;
        }
        Some(Self { len: len as usize, crc: u32_at(bytes, 12) })
    }

    /// Whether `text` is the text this header was written for.
    pub fn matches(&self, text: &[u8]) -> (r: bool)
        ensures
            r == (*self == header_of(text@)),
    {
        text.len() == self.len && crc32(text) == self.crc
    }
}

/// What was written comes back: a header stored for a text that fits reads
/// back from whatever starts with it, and is the header of that text.
pub proof fn law_header_round_trip(text: Seq<u8>, tail: Seq<u8>)
    requires
        text.len() <= TEXT_MAX,
    ensures
        header_read(header_bytes(header_of(text)) + tail) == Some(header_of(text)),
{
    let h = header_of(text);
    let b = header_bytes(h) + tail;
    bytes::lemma_le32_read(b, 0, MAGIC);
    bytes::lemma_le32_read(b, 4, VERSION);
    bytes::lemma_le32_read(b, 8, h.len as u32);
    bytes::lemma_le32_read(b, 12, h.crc);
}

/// A header goes with no text but its own as far as one changed byte goes:
/// the same length, and still refused.
pub proof fn law_a_changed_text_does_not_match(text: Seq<u8>, k: int, v: u8)
    requires
        text.len() <= TEXT_MAX,
        0 <= k < text.len(),
        text[k] != v,
    ensures
        header_of(text.update(k, v)).len == header_of(text).len,
        header_of(text.update(k, v)) != header_of(text),
{
    link::law_crc32_notices_a_changed_byte(text, k, v);
}

/// Where each part of a header stands in its 16 bytes.
pub proof fn law_a_header_is_laid_out(h: Header)
    requires
        h.len <= 1024,
    ensures
        ({
            let b = header_bytes(h);
            &&& b.len() == 16
            &&& b[0] == 0x43 && b[1] == 0x64 && b[2] == 0x69 && b[3] == 0x6D
            &&& b[4] == 1 && b[5] == 0 && b[6] == 0 && b[7] == 0
            &&& bytes::le32_at(b, 8) == h.len
            &&& bytes::le32_at(b, 12) == h.crc
        }),
{
    let b = header_bytes(h);
    reveal(bytes::byte_of);
    bytes::lemma_le32_read(b, 8, h.len as u32);
    bytes::lemma_le32_read(b, 12, h.crc);
}

/// What is no header: anything shorter, with another mark or version, or for a
/// text longer than a transfer carries; and a header says what it read.
pub proof fn law_what_is_no_header(b: Seq<u8>)
    ensures
        header_read(b) is Some <==> b.len() >= 16 && bytes::le32_at(b, 0) == 0x6D69_6443 && bytes::le32_at(b, 4) == 1
            && bytes::le32_at(b, 8) <= 1024,
        header_read(b) matches Some(h) ==> h.len == bytes::le32_at(b, 8) && h.crc == bytes::le32_at(b, 12),
{
}

/// A header counts its text and carries its crc, so two texts share one only
/// where both agree.
pub proof fn law_a_header_is_of_its_text(a: Seq<u8>, b: Seq<u8>)
    requires
        a.len() <= 1024,
        b.len() <= 1024,
    ensures
        header_of(a).len == a.len(),
        header_of(a) == header_of(b) <==> a.len() == b.len() && link::crc32_of(a) == link::crc32_of(b),
{
}

/// A text of up to 1024 bytes has a header, its own, and a longer one has none.
pub proof fn law_a_text_that_fits_has_a_header(text: Seq<u8>)
    ensures
        header_for(text) is Some <==> text.len() <= 1024,
        header_for(text) matches Some(h) ==> h.len == text.len() && h.crc == link::crc32_of(text),
{
}

} // verus!
