//! What filtering a sequence keeps.

use vstd::prelude::*;

verus! {

/// Where every item fits, all are kept.
pub(crate) proof fn lemma_filter_all<T>(s: Seq<T>, pred: spec_fn(T) -> bool)
    requires
        forall|i: int| 0 <= i < s.len() ==> pred(#[trigger] s[i]),
    ensures
        s.filter(pred) == s,
    decreases s.len(),
{
    reveal(Seq::filter);
    if s.len() > 0 {
        lemma_filter_all(s.drop_last(), pred);
        assert(s.drop_last().push(s.last()) =~= s);
    } else {
        assert(s.filter(pred) =~= s);
    }
}

/// An item at the end is kept where it fits.
pub(crate) proof fn lemma_filter_push<T>(s: Seq<T>, x: T, pred: spec_fn(T) -> bool)
    ensures
        pred(x) ==> s.push(x).filter(pred) == s.filter(pred).push(x),
        !pred(x) ==> s.push(x).filter(pred) == s.filter(pred),
{
    reveal(Seq::filter);
    assert(s.push(x).drop_last() =~= s);
}

/// To filter twice is to filter by both predicates.
pub(crate) proof fn lemma_filter_twice<T>(
    s: Seq<T>,
    first: spec_fn(T) -> bool,
    second: spec_fn(T) -> bool,
    both: spec_fn(T) -> bool,
)
    requires
        forall|x: T| #[trigger] both(x) <==> first(x) && second(x),
    ensures
        s.filter(first).filter(second) == s.filter(both),
    decreases s.len(),
{
    reveal(Seq::filter);
    if s.len() > 0 {
        let rest = s.drop_last();
        lemma_filter_twice(rest, first, second, both);
        assert(rest.push(s.last()) =~= s);
        lemma_filter_push(rest, s.last(), first);
        lemma_filter_push(rest, s.last(), both);
        lemma_filter_push(rest.filter(first), s.last(), second);
    } else {
        assert(s.filter(first) =~= s);
        assert(s.filter(first).filter(second) =~= s.filter(both));
    }
}

/// An item that does not fit may as well go before.
pub(crate) proof fn lemma_filter_remove<T>(s: Seq<T>, i: int, pred: spec_fn(T) -> bool)
    requires
        0 <= i < s.len(),
        !pred(s[i]),
    ensures
        s.remove(i).filter(pred) == s.filter(pred),
{
    let front = s.take(i);
    let back = s.skip(i + 1);
    assert(s.remove(i) =~= front + back);
    assert(s =~= front.push(s[i]) + back);
    Seq::filter_distributes_over_add(front, back, pred);
    Seq::filter_distributes_over_add(front.push(s[i]), back, pred);
    lemma_filter_push(front, s[i], pred);
}

/// Where one item alone does not fit, filtering removes it.
pub(crate) proof fn lemma_filter_is_remove<T>(s: Seq<T>, i: int, pred: spec_fn(T) -> bool)
    requires
        0 <= i < s.len(),
        forall|j: int| 0 <= j < s.len() ==> (pred(#[trigger] s[j]) <==> j != i),
    ensures
        s.filter(pred) == s.remove(i),
{
    lemma_filter_remove(s, i, pred);
    let rest = s.remove(i);
    assert forall|j: int| 0 <= j < rest.len() implies pred(#[trigger] rest[j]) by {
        let from = if j < i {
            j
        } else {
            j + 1
        };
        assert(rest[j] == s[from]);
    }
    lemma_filter_all(rest, pred);
}

/// Where one item alone fits, it alone is kept.
pub(crate) proof fn lemma_filter_one<T>(s: Seq<T>, i: int, pred: spec_fn(T) -> bool)
    requires
        0 <= i < s.len(),
        forall|j: int| 0 <= j < s.len() ==> (pred(#[trigger] s[j]) <==> j == i),
    ensures
        s.filter(pred) == seq![s[i]],
{
    let front = s.take(i);
    let back = s.skip(i + 1);
    assert(s =~= front.push(s[i]) + back);
    Seq::filter_distributes_over_add(front.push(s[i]), back, pred);
    lemma_filter_push(front, s[i], pred);
    assert forall|j: int| 0 <= j < front.len() implies !pred(#[trigger] front[j]) by {
        assert(front[j] == s[j]);
    }
    assert forall|j: int| 0 <= j < back.len() implies !pred(#[trigger] back[j]) by {
        assert(back[j] == s[j + i + 1]);
    }
    front.lemma_all_neg_filter_empty(pred);
    back.lemma_all_neg_filter_empty(pred);
    assert(s.filter(pred) =~= seq![s[i]]);
}

/// Whether an item is mapped before or after does not matter, where the predicates
/// agree.
pub(crate) proof fn lemma_filter_map<T, U>(
    s: Seq<T>,
    f: spec_fn(T) -> U,
    before: spec_fn(T) -> bool,
    after: spec_fn(U) -> bool,
)
    requires
        forall|x: T| #[trigger] before(x) <==> after(f(x)),
    ensures
        s.filter(before).map_values(f) == s.map_values(f).filter(after),
    decreases s.len(),
{
    reveal(Seq::filter);
    if s.len() > 0 {
        let rest = s.drop_last();
        let x = s.last();
        lemma_filter_map(rest, f, before, after);
        assert(rest.push(x) =~= s);
        assert(rest.map_values(f).push(f(x)) =~= s.map_values(f));
        lemma_filter_push(rest, x, before);
        lemma_filter_push(rest.map_values(f), f(x), after);
        assert(rest.filter(before).push(x).map_values(f) =~= rest.filter(before).map_values(f).push(
            f(x),
        ));
        assert(before(x) <==> after(f(x)));
    } else {
        assert(s.filter(before).map_values(f) =~= s.map_values(f).filter(after));
    }
}

} // verus!
