use vstd::prelude::*;

verus! {

/// `i` is the position of the first item of `s` that satisfies `pred`.
pub open spec fn is_first_where<T>(s: Seq<T>, pred: spec_fn(T) -> bool, i: int) -> bool {
    &&& 0 <= i < s.len()
    &&& pred(s[i])
    &&& forall|j: int| 0 <= j < i ==> !pred(#[trigger] s[j])
}

/// Every item of `s` fails `pred`.
pub open spec fn none_where<T>(s: Seq<T>, pred: spec_fn(T) -> bool) -> bool {
    forall|j: int| 0 <= j < s.len() ==> !pred(#[trigger] s[j])
}

/// The position of the first item of `s` that satisfies `pred`, if there is one.
pub open spec fn first_where<T>(s: Seq<T>, pred: spec_fn(T) -> bool) -> Option<int> {
    if exists|i: int| is_first_where(s, pred, i) {
        Some(choose|i: int| is_first_where(s, pred, i))
    } else {
        None
    }
}

/// A first position is the only one: `first_where` returns it.
pub proof fn lemma_first_where_some<T>(s: Seq<T>, pred: spec_fn(T) -> bool, i: int)
    requires
        is_first_where(s, pred, i),
    ensures
        first_where(s, pred) == Some(i),
{
    let k = choose|k: int| is_first_where(s, pred, k);
    if k < i {
        assert(!pred(s[k]));
    } else if i < k {
        assert(!pred(s[i]));
    }
}

/// Where no item satisfies `pred`, `first_where` returns nothing.
pub proof fn lemma_first_where_none<T>(s: Seq<T>, pred: spec_fn(T) -> bool)
    requires
        none_where(s, pred),
    ensures
        first_where(s, pred) is None,
{
    if exists|i: int| is_first_where(s, pred, i) {
        let k = choose|k: int| is_first_where(s, pred, k);
        assert(!pred(s[k]));
    }
}

/// What `first_where` returns is a first position, or nothing satisfies `pred`.
pub proof fn lemma_first_where_is_first<T>(s: Seq<T>, pred: spec_fn(T) -> bool)
    ensures
        match first_where(s, pred) {
            Some(i) => is_first_where(s, pred, i),
            None => none_where(s, pred),
        },
{
    if exists|i: int| is_first_where(s, pred, i) {
    } else {
        assert forall|j: int| 0 <= j < s.len() implies !pred(#[trigger] s[j]) by {
            if pred(s[j]) {
                lemma_exists_first(s, pred, j);
            }
        }
    }
}

/// Where some item satisfies `pred`, one of them is the first.
pub proof fn lemma_exists_first<T>(s: Seq<T>, pred: spec_fn(T) -> bool, j: int)
    requires
        0 <= j < s.len(),
        pred(s[j]),
    ensures
        exists|i: int| is_first_where(s, pred, i),
    decreases j,
{
    if exists|k: int| 0 <= k < j && pred(s[k]) {
        let k = choose|k: int| 0 <= k < j && pred(s[k]);
        lemma_exists_first(s, pred, k);
    } else {
        assert(is_first_where(s, pred, j));
    }
}

/// `i` is the position of the last item of `s` that satisfies `pred`.
pub open spec fn is_last_where<T>(s: Seq<T>, pred: spec_fn(T) -> bool, i: int) -> bool {
    &&& 0 <= i < s.len()
    &&& pred(s[i])
    &&& forall|j: int| i < j < s.len() ==> !pred(#[trigger] s[j])
}

/// The position of the last item of `s` that satisfies `pred`, if there is one.
pub open spec fn last_where<T>(s: Seq<T>, pred: spec_fn(T) -> bool) -> Option<int> {
    if exists|i: int| is_last_where(s, pred, i) {
        Some(choose|i: int| is_last_where(s, pred, i))
    } else {
        None
    }
}

/// A last position is the only one: `last_where` returns it.
pub proof fn lemma_last_where_some<T>(s: Seq<T>, pred: spec_fn(T) -> bool, i: int)
    requires
        is_last_where(s, pred, i),
    ensures
        last_where(s, pred) == Some(i),
{
    let k = choose|k: int| is_last_where(s, pred, k);
    if k < i {
        assert(!pred(s[i]));
    } else if i < k {
        assert(!pred(s[k]));
    }
}

/// Where no item satisfies `pred`, `last_where` returns nothing.
pub proof fn lemma_last_where_none<T>(s: Seq<T>, pred: spec_fn(T) -> bool)
    requires
        none_where(s, pred),
    ensures
        last_where(s, pred) is None,
{
    if exists|i: int| is_last_where(s, pred, i) {
        let k = choose|k: int| is_last_where(s, pred, k);
        assert(!pred(s[k]));
    }
}

} // verus!
