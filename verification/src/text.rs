//! Text as bytes and bytes as text.

use vstd::prelude::*;
use vstd::string::StringSliceAdditionalSpecFns;
use vstd::utf8::*;

verus! {

/// Bytes below 0x80 read one for one as characters.
pub open spec fn ascii_chars(b: Seq<u8>) -> Seq<char> {
    Seq::new(b.len(), |i: int| b[i] as char)
}

/// Whether every byte is below 0x80.
pub open spec fn is_ascii_bytes(b: Seq<u8>) -> bool {
    forall|i: int| 0 <= i < b.len() ==> b[i] < 0x80
}

/// ASCII bytes are text, character for character.
pub proof fn lemma_ascii_text(b: Seq<u8>)
    requires
        is_ascii_bytes(b),
    ensures
        valid_utf8(b),
        decode_utf8(b) == ascii_chars(b),
    decreases b.len(),
{
    if b.len() == 0 {
        assert(decode_utf8(b) =~= ascii_chars(b));
    } else {
        let first = b[0];
        assert(first < 0x80 ==> first & 0x7f == first && first & 0x80 == 0) by (bit_vector);
        let rest = b.subrange(1, b.len() as int);
        assert(pop_first_scalar(b) =~= rest);
        lemma_ascii_text(rest);
        assert(ascii_chars(b) =~= seq![first as char] + ascii_chars(rest));
    }
}

/// The text `bytes` hold, or `None` where they are not UTF-8.
///
/// Calls `core::str::from_utf8`, whose documentation says that it converts a
/// slice of bytes to a string slice and returns an error exactly when the
/// slice is not UTF-8. Nothing is claimed of the error.
#[verifier::external_body]
pub(crate) fn utf8(bytes: &[u8]) -> (r: Option<&str>)
    ensures
        r is Some <==> valid_utf8(bytes@),
        r matches Some(s) ==> s@ == decode_utf8(bytes@) && s.spec_bytes() == bytes@,
{
    match core::str::from_utf8(bytes) {
        Ok(s) => Some(s),
        Err(_) => None,
    }
}

} // verus!
