//! Fixed tables of optional entries: how many are taken, and which is first.

use vstd::prelude::*;

verus! {

/// How many entries are taken.
pub open spec fn taken<T>(s: Seq<Option<T>>) -> nat
    decreases s.len(),
{
    if s.len() == 0 {
        0
    } else {
        taken(s.drop_last()) + (if s.last() is Some { 1nat } else { 0 })
    }
}

/// Whether `k` is the first free entry.
pub open spec fn first_free<T>(s: Seq<Option<T>>, k: int) -> bool {
    &&& 0 <= k < s.len()
    &&& s[k] is None
    &&& forall|i: int| 0 <= i < k ==> s[i] is Some
}

/// Whether every entry is taken.
pub open spec fn full<T>(s: Seq<Option<T>>) -> bool {
    forall|i: int| 0 <= i < s.len() ==> s[i] is Some
}

/// No more entries are taken than there are, none in a table of free ones,
/// all in a full one.
pub proof fn lemma_taken_bounds<T>(s: Seq<Option<T>>)
    ensures
        taken(s) <= s.len(),
        taken(s) == 0 <==> (forall|i: int| 0 <= i < s.len() ==> s[i] is None),
        taken(s) == s.len() <==> full(s),
    decreases s.len(),
{
    if s.len() > 0 {
        let rest = s.drop_last();
        lemma_taken_bounds(rest);
        assert forall|i: int| 0 <= i < rest.len() implies rest[i] == s[i] by {}
        if taken(s) == 0 {
            assert forall|i: int| 0 <= i < s.len() implies s[i] is None by {
                if i < rest.len() {
                    assert(rest[i] is None);
                }
            }
        }
        if forall|i: int| 0 <= i < s.len() ==> s[i] is None {
            assert(s.last() is None);
            assert forall|i: int| 0 <= i < rest.len() implies rest[i] is None by {
                assert(s[i] is None);
            }
        }
        if taken(s) == s.len() {
            assert forall|i: int| 0 <= i < s.len() implies s[i] is Some by {
                if i < rest.len() {
                    assert(rest[i] is Some);
                }
            }
        }
        if full(s) {
            assert(s[s.len() - 1] is Some);
            assert forall|i: int| 0 <= i < rest.len() implies rest[i] is Some by {
                assert(s[i] is Some);
            }
        }
    }
}

/// How many entries of a table are taken.
pub fn count<T, const N: usize>(s: &[Option<T>; N]) -> (r: usize)
    ensures
        r == taken(s@),
{
    let mut n: usize = 0;
    let mut i: usize = 0;
    while i < N
        invariant
            i <= N,
            s@.len() == N,
            n == taken(s@.take(i as int)),
            n <= i,
        decreases N - i,
    {
        assert(s@.take(i + 1).drop_last() =~= s@.take(i as int));
        if s[i].is_some() {
            n += 1;
        }
        i += 1;
    }
    assert(s@.take(N as int) =~= s@);
    n
}

/// The first free entry of a table, if there is one.
pub fn free<T, const N: usize>(s: &[Option<T>; N]) -> (r: Option<usize>)
    ensures
        r matches Some(k) ==> first_free(s@, k as int),
        r is None ==> full(s@),
{
    let mut i: usize = 0;
    while i < N
        invariant
            i <= N,
            s@.len() == N,
            forall|j: int| 0 <= j < i ==> (#[trigger] s@[j]) is Some,
        decreases N - i,
    {
        if s[i].is_none() {
            return Some(i);
        }
        i += 1;
    }
    None
}

/// Every entry taken counts once, and a free one does not count.
pub proof fn law_every_entry_counts_once<T>(a: Seq<Option<T>>, b: Seq<Option<T>>, entry: Option<T>)
    ensures
        taken(Seq::<Option<T>>::empty()) == 0,
        taken(a + b) == taken(a) + taken(b),
        taken(seq![entry]) == (if entry is Some {
            1nat
        } else {
            0nat
        }),
    decreases b.len(),
{
    if b.len() == 0 {
        assert(a + b =~= a);
    } else {
        law_every_entry_counts_once(a, b.drop_last(), entry);
        assert((a + b).drop_last() =~= a + b.drop_last());
    }
    assert(seq![entry].drop_last() =~= Seq::empty());
}

/// The first free entry is free, and everything before it is taken; a table
/// that is full has none.
pub proof fn law_the_first_free_entry_is_one<T>(s: Seq<Option<T>>, j: int, k: int)
    ensures
        first_free(s, j) && first_free(s, k) ==> j == k,
        first_free(s, k) ==> s[k] is None && 0 <= k < s.len(),
        first_free(s, k) && 0 <= j < k ==> s[j] is Some,
        full(s) ==> !first_free(s, k),
        full(s) && 0 <= j < s.len() ==> s[j] is Some,
        0 <= k < s.len() && s[k] is None && (forall|i: int| 0 <= i < k ==> s[i] is Some) ==> first_free(s, k) && !full(s),
{
}

} // verus!
