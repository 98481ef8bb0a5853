//! First matches in sequences.

use vstd::prelude::*;

verus! {

/// The index of the first item of `s` that satisfies `pred`, or `s.len()` where
/// none does.
pub open spec fn first_index<T>(s: Seq<T>, pred: spec_fn(T) -> bool) -> int
    decreases s.len(),
{
    if s.len() == 0 {
        0
    } else if pred(s[0]) {
        0
    } else {
        1 + first_index(s.drop_first(), pred)
    }
}

/// The first item of `s` that satisfies `pred`, if there is one.
pub open spec fn find<T>(s: Seq<T>, pred: spec_fn(T) -> bool) -> Option<T> {
    if first_index(s, pred) < s.len() {
        Some(s[first_index(s, pred)])
    } else {
        None
    }
}

/// What `f` makes of the first item of `s` of which it makes anything.
pub open spec fn find_map<T, U>(s: Seq<T>, f: spec_fn(T) -> Option<U>) -> Option<U> {
    match find(s, |x: T| f(x) is Some) {
        Some(x) => f(x),
        None => None,
    }
}

/// The first index satisfies the predicate, and no earlier one does.
pub proof fn lemma_first_index<T>(s: Seq<T>, pred: spec_fn(T) -> bool)
    ensures
        0 <= first_index(s, pred) <= s.len(),
        first_index(s, pred) < s.len() ==> pred(s[first_index(s, pred)]),
        forall|j: int| 0 <= j < first_index(s, pred) ==> !pred(#[trigger] s[j]),
    decreases s.len(),
{
    if s.len() > 0 && !pred(s[0]) {
        let tail = s.drop_first();
        lemma_first_index(tail, pred);
        assert forall|j: int| 0 <= j < first_index(s, pred) implies !pred(#[trigger] s[j]) by {
            if j > 0 {
                assert(s[j] == tail[j - 1]);
            }
        }
    }
}

/// An index that satisfies the predicate after only failures is the first one.
pub proof fn lemma_is_first<T>(s: Seq<T>, pred: spec_fn(T) -> bool, i: int)
    requires
        0 <= i <= s.len(),
        i < s.len() ==> pred(s[i]),
        forall|j: int| 0 <= j < i ==> !pred(#[trigger] s[j]),
    ensures
        first_index(s, pred) == i,
{
    lemma_first_index(s, pred);
    let k = first_index(s, pred);
    if k < i {
        assert(!pred(s[k]));
    }
    if i < k {
        assert(!pred(s[i]));
    }
}

} // verus!
