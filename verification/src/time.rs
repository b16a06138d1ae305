//! Spans on the millisecond clock the caller supplies.

use vstd::prelude::*;

verus! {

/// How long it has been since `since_ms`, nothing where that is still ahead.
pub open spec fn elapsed(since_ms: u64, now_ms: u64) -> int {
    if now_ms > since_ms {
        now_ms - since_ms
    } else {
        0
    }
}

/// The smaller of two numbers.
pub open spec fn least(a: int, b: int) -> int {
    if a < b {
        a
    } else {
        b
    }
}

/// `a` brought inside `lo..=hi`.
pub open spec fn clamped(a: int, lo: int, hi: int) -> int {
    if a < lo {
        lo
    } else if a > hi {
        hi
    } else {
        a
    }
}

} // verus!
