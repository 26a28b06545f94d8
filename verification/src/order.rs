use vstd::prelude::*;
use vstd::string::*;
use crate::repo::{RepoInfo, RepoInfoView};
use crate::text::chars_of;

verus! {

/// The character `x` has a smaller code than the character `y`.
pub open spec fn char_lt(x: char, y: char) -> bool {
    (x as u32) < (y as u32)
}

/// Of two characters that differ, one has the smaller code; and the order of the codes
/// is transitive.
pub proof fn lemma_char_order(x: char, y: char, z: char)
    ensures
        x != y ==> (char_lt(x, y) <==> !char_lt(y, x)),
        !char_lt(x, x),
        char_lt(x, y) && char_lt(y, z) ==> char_lt(x, z),
{
}

/// Whether `x` has a smaller code than `y`.
fn char_before(x: char, y: char) -> (r: bool)
    ensures
        r == char_lt(x, y),
{
    x < y
}

/// `a` comes before `b`, or equals it, in the order of the dictionary: at the first
/// position where they differ, the character with the smaller code comes first; a text
/// comes before every text that it begins.
pub open spec fn text_le(a: Seq<char>, b: Seq<char>) -> bool
    decreases a.len(),
{
    if a.len() == 0 {
        true
    } else if b.len() == 0 {
        false
    } else if a[0] != b[0] {
        char_lt(a[0], b[0])
    } else {
        text_le(a.drop_first(), b.drop_first())
    }
}

/// Of two texts, one comes before the other or they are equal in order.
pub proof fn lemma_text_le_total(a: Seq<char>, b: Seq<char>)
    ensures
        text_le(a, b) || text_le(b, a),
    decreases a.len(),
{
    if a.len() > 0 && b.len() > 0 {
        if a[0] == b[0] {
            lemma_text_le_total(a.drop_first(), b.drop_first());
        } else {
            lemma_char_order(a[0], b[0], a[0]);
        }
    }
}

/// The order of texts is transitive.
pub proof fn lemma_text_le_transitive(a: Seq<char>, b: Seq<char>, c: Seq<char>)
    requires
        text_le(a, b),
        text_le(b, c),
    ensures
        text_le(a, c),
    decreases a.len(),
{
    if a.len() > 0 && b.len() > 0 && c.len() > 0 {
        lemma_char_order(a[0], b[0], c[0]);
        lemma_char_order(b[0], c[0], a[0]);
        lemma_char_order(c[0], a[0], b[0]);
        if a[0] == b[0] && b[0] == c[0] {
            lemma_text_le_transitive(a.drop_first(), b.drop_first(), c.drop_first());
        }
    }
}

/// Whether `a` comes before `b` or equals it in order.
pub fn text_before_or_equal(a: &Vec<char>, b: &Vec<char>) -> (r: bool)
    ensures
        r == text_le(a@, b@),
{
    let mut i: usize = 0;
    assert(a@.skip(0) =~= a@ && b@.skip(0) =~= b@);
    while i < a.len() && i < b.len()
        invariant
            i <= a.len(),
            i <= b.len(),
            text_le(a@, b@) == text_le(a@.skip(i as int), b@.skip(i as int)),
        decreases a.len() - i,
    {
        let ghost ra = a@.skip(i as int);
        let ghost rb = b@.skip(i as int);
        assert(ra[0] == a@[i as int] && rb[0] == b@[i as int]);
        if a[i] != b[i] {
            return char_before(a[i], b[i]);
        }
        assert(ra.drop_first() =~= a@.skip(i + 1));
        assert(rb.drop_first() =~= b@.skip(i + 1));
        i += 1;
    }
    i == a.len()
}

/// The keys of `items` ascend: each comes before, or equals in order, all that follow.
pub open spec fn ascending<T>(items: Seq<(Seq<char>, T)>) -> bool {
    forall|i: int, j: int|
        0 <= i < j < items.len() ==> text_le((#[trigger] items[i]).0, (#[trigger] items[j]).0)
}

/// `item` put into the ascending list `sorted`, behind every item whose key does not
/// come after its own.
pub open spec fn insert_sorted<T>(sorted: Seq<(Seq<char>, T)>, item: (Seq<char>, T)) -> Seq<
    (Seq<char>, T),
>
    decreases sorted.len(),
{
    if sorted.len() == 0 {
        seq![item]
    } else if text_le(sorted.last().0, item.0) {
        sorted.push(item)
    } else {
        insert_sorted(sorted.drop_last(), item).push(sorted.last())
    }
}

/// The items in ascending order of their keys; items with keys that are equal in order
/// keep the order in which they came.
pub open spec fn stable_sort<T>(items: Seq<(Seq<char>, T)>) -> Seq<(Seq<char>, T)>
    decreases items.len(),
{
    if items.len() == 0 {
        Seq::empty()
    } else {
        insert_sorted(stable_sort(items.drop_last()), items.last())
    }
}

/// The second part of each pair.
pub open spec fn values_of<T>(items: Seq<(Seq<char>, T)>) -> Seq<T> {
    items.map_values(|p: (Seq<char>, T)| p.1)
}

/// Where `at` is the position behind the last item whose key does not come after the
/// new item's, inserting puts the new item at `at`.
pub proof fn lemma_insert_sorted_at<T>(sorted: Seq<(Seq<char>, T)>, item: (Seq<char>, T), at: int)
    requires
        0 <= at <= sorted.len(),
        forall|j: int| at <= j < sorted.len() ==> !text_le((#[trigger] sorted[j]).0, item.0),
        at > 0 ==> text_le(sorted[at - 1].0, item.0),
    ensures
        insert_sorted(sorted, item) == sorted.take(at).push(item) + sorted.skip(at),
    decreases sorted.len(),
{
    if sorted.len() == 0 {
        assert(seq![item] =~= sorted.take(at).push(item) + sorted.skip(at));
    } else if at == sorted.len() {
        assert(sorted.push(item) =~= sorted.take(at).push(item) + sorted.skip(at));
    } else {
        assert(!text_le(sorted[sorted.len() - 1].0, item.0));
        let init = sorted.drop_last();
        assert forall|j: int| at <= j < init.len() implies !text_le((#[trigger] init[j]).0, item.0) by {
            assert(init[j] == sorted[j]);
        }
        lemma_insert_sorted_at(init, item, at);
        assert(insert_sorted(init, item).push(sorted.last()) =~= sorted.take(at).push(item)
            + sorted.skip(at));
    }
}

/// Inserting keeps every item and adds the new one.
pub proof fn lemma_insert_sorted_multiset<T>(sorted: Seq<(Seq<char>, T)>, item: (Seq<char>, T))
    ensures
        insert_sorted(sorted, item).to_multiset() == sorted.to_multiset().insert(item),
        insert_sorted(sorted, item).len() == sorted.len() + 1,
    decreases sorted.len(),
{
    broadcast use vstd::seq_lib::group_to_multiset_ensures;

    if sorted.len() == 0 {
        assert(seq![item] =~= sorted.push(item));
    } else if text_le(sorted.last().0, item.0) {
    } else {
        let init = sorted.drop_last();
        lemma_insert_sorted_multiset(init, item);
        assert(sorted =~= init.push(sorted.last()));
        assert(insert_sorted(sorted, item).to_multiset() =~= sorted.to_multiset().insert(item));
    }
}

/// Inserting into an ascending list yields an ascending list.
pub proof fn lemma_insert_sorted_ascending<T>(sorted: Seq<(Seq<char>, T)>, item: (Seq<char>, T))
    requires
        ascending(sorted),
    ensures
        ascending(insert_sorted(sorted, item)),
        forall|k: int|
            0 <= k < insert_sorted(sorted, item).len() ==> (#[trigger] insert_sorted(
                sorted,
                item,
            )[k]) == item || sorted.contains(insert_sorted(sorted, item)[k]),
    decreases sorted.len(),
{
    let out = insert_sorted(sorted, item);
    if sorted.len() == 0 {
    } else if text_le(sorted.last().0, item.0) {
        assert forall|i: int, j: int| 0 <= i < j < out.len() implies text_le(
            (#[trigger] out[i]).0,
            (#[trigger] out[j]).0,
        ) by {
            if j == sorted.len() {
                if i < sorted.len() - 1 {
                    assert(text_le(sorted[i].0, sorted[sorted.len() - 1].0));
                    lemma_text_le_transitive(sorted[i].0, sorted.last().0, item.0);
                }
            } else {
                assert(text_le(sorted[i].0, sorted[j].0));
            }
        }
        assert forall|k: int| 0 <= k < out.len() implies (#[trigger] out[k]) == item
            || sorted.contains(out[k]) by {
            if k < sorted.len() {
                assert(sorted[k] == out[k]);
            }
        }
    } else {
        let init = sorted.drop_last();
        let last = sorted.last();
        assert(ascending(init)) by {
            assert forall|i: int, j: int| 0 <= i < j < init.len() implies text_le(
                (#[trigger] init[i]).0,
                (#[trigger] init[j]).0,
            ) by {
                assert(init[i] == sorted[i] && init[j] == sorted[j]);
            }
        }
        lemma_insert_sorted_ascending(init, item);
        let inner = insert_sorted(init, item);
        lemma_text_le_total(last.0, item.0);
        assert forall|i: int, j: int| 0 <= i < j < out.len() implies text_le(
            (#[trigger] out[i]).0,
            (#[trigger] out[j]).0,
        ) by {
            if j == out.len() - 1 {
                assert(out[i] == inner[i]);
                if inner[i] == item {
                } else {
                    assert(init.contains(inner[i]));
                    let m = choose|m: int| 0 <= m < init.len() && init[m] == inner[i];
                    assert(text_le(sorted[m].0, sorted[sorted.len() - 1].0));
                }
            } else {
                assert(out[i] == inner[i] && out[j] == inner[j]);
            }
        }
        assert forall|k: int| 0 <= k < out.len() implies (#[trigger] out[k]) == item
            || sorted.contains(out[k]) by {
            if k < out.len() - 1 {
                assert(out[k] == inner[k]);
                if inner[k] != item {
                    let m = choose|m: int| 0 <= m < init.len() && init[m] == inner[k];
                    assert(sorted[m] == out[k]);
                }
            } else {
                assert(sorted[sorted.len() - 1] == out[k]);
            }
        }
    }
}

/// Sorting orders the items by their keys and neither drops nor adds one.
pub proof fn law_stable_sort_orders<T>(items: Seq<(Seq<char>, T)>)
    ensures
        ascending(stable_sort(items)),
        stable_sort(items).to_multiset() == items.to_multiset(),
        stable_sort(items).len() == items.len(),
    decreases items.len(),
{
    broadcast use vstd::seq_lib::group_to_multiset_ensures;

    if items.len() == 0 {
        assert(stable_sort(items).to_multiset() =~= items.to_multiset());
    } else {
        let init = items.drop_last();
        law_stable_sort_orders(init);
        lemma_insert_sorted_ascending(stable_sort(init), items.last());
        lemma_insert_sorted_multiset(stable_sort(init), items.last());
        assert(items =~= init.push(items.last()));
    }
}

/// A list that ascends already stays as it is: items with equal keys are never swapped.
pub proof fn law_stable_sort_keeps_sorted<T>(items: Seq<(Seq<char>, T)>)
    requires
        ascending(items),
    ensures
        stable_sort(items) == items,
    decreases items.len(),
{
    if items.len() > 0 {
        let init = items.drop_last();
        assert(ascending(init)) by {
            assert forall|i: int, j: int| 0 <= i < j < init.len() implies text_le(
                (#[trigger] init[i]).0,
                (#[trigger] init[j]).0,
            ) by {
                assert(init[i] == items[i] && init[j] == items[j]);
            }
        }
        law_stable_sort_keeps_sorted(init);
        if init.len() > 0 {
            assert(text_le(items[init.len() - 1].0, items[items.len() - 1].0));
            assert(init.last() == items[init.len() - 1]);
        }
        assert(items =~= init.push(items.last()));
    }
}

/// The test that an item's key is equal in order to `key`: neither comes before the
/// other.
pub open spec fn same_rank<T>(key: Seq<char>) -> spec_fn((Seq<char>, T)) -> bool {
    |p: (Seq<char>, T)| text_le(p.0, key) && text_le(key, p.0)
}

/// Inserting puts the new item behind every item of its rank and moves no other.
pub proof fn lemma_insert_sorted_keeps_ranks<T>(
    sorted: Seq<(Seq<char>, T)>,
    item: (Seq<char>, T),
    key: Seq<char>,
)
    ensures
        insert_sorted(sorted, item).filter(same_rank(key)) == if same_rank(key)(item) {
            sorted.filter(same_rank(key)).push(item)
        } else {
            sorted.filter(same_rank(key))
        },
    decreases sorted.len(),
{
    let of_rank = same_rank::<T>(key);
    if sorted.len() == 0 {
        let none = Seq::<(Seq<char>, T)>::empty();
        assert(sorted =~= none);
        assert(seq![item] =~= none.push(item));
        none.lemma_filter_push(item, of_rank);
    } else if text_le(sorted.last().0, item.0) {
        sorted.lemma_filter_push(item, of_rank);
    } else {
        let init = sorted.drop_last();
        let last = sorted.last();
        lemma_insert_sorted_keeps_ranks(init, item, key);
        assert(sorted =~= init.push(last));
        init.lemma_filter_push(last, of_rank);
        insert_sorted(init, item).lemma_filter_push(last, of_rank);
        if of_rank(item) && of_rank(last) {
            lemma_text_le_transitive(last.0, key, item.0);
        }
    }
}

/// Sorting is stable: the items of any one rank come out in the order in which they
/// went in.
pub proof fn law_stable_sort_is_stable<T>(items: Seq<(Seq<char>, T)>, key: Seq<char>)
    ensures
        stable_sort(items).filter(same_rank(key)) == items.filter(same_rank(key)),
    decreases items.len(),
{
    let of_rank = same_rank::<T>(key);
    if items.len() == 0 {
        assert(stable_sort(items) =~= items);
    } else {
        let init = items.drop_last();
        law_stable_sort_is_stable(init, key);
        lemma_insert_sorted_keeps_ranks(stable_sort(init), items.last(), key);
        assert(items =~= init.push(items.last()));
        init.lemma_filter_push(items.last(), of_rank);
    }
}

/// Sorts repositories by the keys they come with, ascending; repositories with keys that
/// are equal in order keep the order in which they came.
pub fn sort_keyed(items: Vec<(String, RepoInfo)>) -> (r: Vec<RepoInfo>)
    ensures
        r.deep_view() == values_of(stable_sort(items.deep_view())),
{
    let ghost all = items.deep_view();
    let mut items = items;
    let mut keys: Vec<Vec<char>> = Vec::new();
    let mut out: Vec<RepoInfo> = Vec::new();
    let ghost mut done: int = 0;
    let ghost mut sorted: Seq<(Seq<char>, RepoInfoView)> = Seq::empty();
    assert(all.take(0) =~= Seq::<(Seq<char>, RepoInfoView)>::empty());
    assert(values_of(sorted) =~= out.deep_view());
    while items.len() > 0
        invariant
            0 <= done <= all.len(),
            items.deep_view() == all.skip(done),
            sorted == stable_sort(all.take(done)),
            sorted.len() == out.len(),
            keys.len() == out.len(),
            forall|k: int| 0 <= k < out.len() ==> (#[trigger] keys[k])@ == sorted[k].0,
            forall|k: int| 0 <= k < out.len() ==> (#[trigger] out[k])@ == sorted[k].1,
        decreases items.len(),
    {
        let ghost before_items = items.deep_view();
        let ghost before = items@;
        assert(before_items.len() == all.len() - done);
        let (key, repo) = items.remove(0);
        let ghost item = (key@, repo@);
        assert(before_items[0] == item);
        assert forall|k: int| 0 <= k < items.len() implies (#[trigger] items.deep_view()[k])
            == all.skip(done + 1)[k] by {
            assert(items@[k] == before[k + 1]);
            assert(before_items[k + 1] == all.skip(done)[k + 1]);
        }
        assert(items.deep_view() =~= all.skip(done + 1));
        assert(all.take(done + 1).drop_last() =~= all.take(done));
        assert(all.take(done + 1).last() == item);
        let key_chars = chars_of(key.as_str());
        let mut at: usize = out.len();
        while at > 0 && !text_before_or_equal(&keys[at - 1], &key_chars)
            invariant
                at <= out.len(),
                keys.len() == out.len(),
                sorted.len() == out.len(),
                key_chars@ == item.0,
                forall|k: int| 0 <= k < out.len() ==> (#[trigger] keys[k])@ == sorted[k].0,
                forall|j: int| at <= j < sorted.len() ==> !text_le((#[trigger] sorted[j]).0, item.0),
            decreases at,
        {
            at -= 1;
        }
        proof {
            lemma_insert_sorted_at(sorted, item, at as int);
        }
        keys.insert(at, key_chars);
        out.insert(at, repo);
        proof {
            sorted = insert_sorted(sorted, item);
            done = done + 1;
        }
    }
    assert(all.take(done) =~= all);
    assert(out.deep_view() =~= values_of(sorted));
    out
}

} // verus!
