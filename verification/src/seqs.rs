//! Searching a sequence from the front.

use vstd::prelude::*;

verus! {

/// The index of the first element of `s` that meets `p`, or the length of `s`
/// where none does.
pub open spec fn first_index<T>(s: Seq<T>, p: spec_fn(T) -> bool) -> int
    decreases s.len(),
{
    if s.len() == 0 {
        0
    } else if p(s[0]) {
        0
    } else {
        1 + first_index(s.skip(1), p)
    }
}

/// [`first_index`] is in range, meets `p` where it is an index, and no element
/// before it does.
pub proof fn lemma_first_index<T>(s: Seq<T>, p: spec_fn(T) -> bool)
    ensures
        0 <= first_index(s, p) <= s.len(),
        forall|j: int| 0 <= j < first_index(s, p) ==> !p(#[trigger] s[j]),
        first_index(s, p) < s.len() ==> p(s[first_index(s, p)]),
    decreases s.len(),
{
    if s.len() == 0 {
    } else if p(s[0]) {
    } else {
        let rest = s.skip(1);
        lemma_first_index(rest, p);
        let k = first_index(rest, p);
        assert forall|j: int| 0 <= j < 1 + k implies !p(#[trigger] s[j]) by {
            if j > 0 {
                assert(rest[j - 1] == s[j]);
            }
        }
        if 1 + k < s.len() {
            assert(rest[k] == s[1 + k]);
        }
    }
}

/// An index that meets `p`, with none before it that does, is [`first_index`].
pub proof fn lemma_first_index_is<T>(s: Seq<T>, p: spec_fn(T) -> bool, at: int)
    requires
        0 <= at <= s.len(),
        forall|j: int| 0 <= j < at ==> !p(#[trigger] s[j]),
        at < s.len() ==> p(s[at]),
    ensures
        first_index(s, p) == at,
    decreases s.len(),
{
    if s.len() == 0 {
    } else if at == 0 {
    } else {
        assert(!p(s[0]));
        let rest = s.skip(1);
        assert forall|j: int| 0 <= j < at - 1 implies !p(#[trigger] rest[j]) by {
            assert(rest[j] == s[j + 1]);
        }
        if at < s.len() {
            assert(rest[at - 1] == s[at]);
        }
        lemma_first_index_is(rest, p, at - 1);
    }
}

} // verus!
