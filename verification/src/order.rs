//! Stable sorting by a whole-number key, as a function on sequences.

use vstd::prelude::*;

verus! {

/// `s`, which is in ascending order of key, with `x` put behind every item
/// whose key is not greater than its own.
pub open spec fn insert_by_key<T>(s: Seq<T>, x: T, key: spec_fn(T) -> int) -> Seq<T>
    decreases s.len(),
{
    if s.len() > 0 && key(s.last()) > key(x) {
        insert_by_key(s.drop_last(), x, key).push(s.last())
    } else {
        s.push(x)
    }
}

/// The items of `s` in ascending order of key; items of one key stay in the
/// order in which `s` has them.
pub open spec fn sort_by_key<T>(s: Seq<T>, key: spec_fn(T) -> int) -> Seq<T>
    decreases s.len(),
{
    if s.len() == 0 {
        s
    } else {
        insert_by_key(sort_by_key(s.drop_last(), key), s.last(), key)
    }
}

/// The keys of `s` never fall from one item to the next.
pub open spec fn ascending<T>(s: Seq<T>, key: spec_fn(T) -> int) -> bool {
    forall|i: int, j: int| 0 <= i <= j < s.len() ==> key(s[i]) <= key(s[j])
}

/// Where the item goes: `at` is the place behind the last item whose key is
/// not greater than that of `x`.
pub proof fn lemma_insert_by_key_at<T>(s: Seq<T>, x: T, key: spec_fn(T) -> int, at: int)
    requires
        0 <= at <= s.len(),
        forall|i: int| at <= i < s.len() ==> key(s[i]) > key(x),
        at > 0 ==> key(s[at - 1]) <= key(x),
    ensures
        insert_by_key(s, x, key) == s.insert(at, x),
    decreases s.len() - at,
{
    if at == s.len() {
        assert(s.insert(at, x) =~= s.push(x));
    } else {
        lemma_insert_by_key_at(s.drop_last(), x, key, at);
        assert(s.drop_last().insert(at, x).push(s.last()) =~= s.insert(at, x));
    }
}

/// Inserting keeps the order, adds the one item and loses none.
pub proof fn lemma_insert_by_key<T>(s: Seq<T>, x: T, key: spec_fn(T) -> int)
    requires
        ascending(s, key),
    ensures
        ascending(insert_by_key(s, x, key), key),
        insert_by_key(s, x, key).len() == s.len() + 1,
        insert_by_key(s, x, key).to_multiset() == s.to_multiset().insert(x),
    decreases s.len(),
{
    broadcast use vstd::seq_lib::group_to_multiset_ensures;

    if s.len() > 0 && key(s.last()) > key(x) {
        let head = s.drop_last();
        let r = insert_by_key(head, x, key);
        assert(ascending(head, key)) by {
            assert forall|i: int, j: int| 0 <= i <= j < head.len() implies key(head[i]) <= key(
                head[j],
            ) by {
                assert(head[i] == s[i] && head[j] == s[j]);
            }
        }
        lemma_insert_by_key(head, x, key);
        lemma_members_of_insert(head, x, key);
        assert(s =~= head.push(s.last()));
        assert forall|i: int, j: int| 0 <= i <= j < r.push(s.last()).len() implies key(
            r.push(s.last())[i],
        ) <= key(r.push(s.last())[j]) by {
            if j == r.len() {
                if i < r.len() {
                    if r[i] != x {
                        let k = choose|k: int| 0 <= k < head.len() && head[k] == r[i];
                        assert(head[k] == s[k]);
                    }
                }
            }
        }
        assert(r.push(s.last()).to_multiset() =~= s.to_multiset().insert(x));
    } else {
        assert forall|i: int, j: int| 0 <= i <= j < s.push(x).len() implies key(s.push(x)[i])
            <= key(s.push(x)[j]) by {
            if j == s.len() && i < s.len() {
                assert(key(s[i]) <= key(s.last()));
            }
        }
    }
}

/// Every item of the result of an insertion is the new item or one of the old.
pub proof fn lemma_members_of_insert<T>(s: Seq<T>, x: T, key: spec_fn(T) -> int)
    ensures
        forall|i: int|
            0 <= i < insert_by_key(s, x, key).len() ==> #[trigger] insert_by_key(s, x, key)[i] == x
                || exists|k: int| 0 <= k < s.len() && s[k] == insert_by_key(s, x, key)[i],
    decreases s.len(),
{
    let r = insert_by_key(s, x, key);
    if s.len() > 0 && key(s.last()) > key(x) {
        let head = s.drop_last();
        let h = insert_by_key(head, x, key);
        lemma_members_of_insert(head, x, key);
        assert forall|i: int| 0 <= i < r.len() implies #[trigger] r[i] == x || exists|k: int|
            0 <= k < s.len() && s[k] == r[i] by {
            if i < h.len() {
                assert(r[i] == h[i]);
                if h[i] != x {
                    let k = choose|k: int| 0 <= k < head.len() && head[k] == h[i];
                    assert(s[k] == r[i]);
                }
            } else {
                assert(s[s.len() - 1] == r[i]);
            }
        }
    } else {
        assert forall|i: int| 0 <= i < r.len() implies #[trigger] r[i] == x || exists|k: int|
            0 <= k < s.len() && s[k] == r[i] by {
            if i < s.len() {
                assert(s[i] == r[i]);
            }
        }
    }
}

/// Inserting adds one item.
pub proof fn lemma_insert_by_key_len<T>(s: Seq<T>, x: T, key: spec_fn(T) -> int)
    ensures
        insert_by_key(s, x, key).len() == s.len() + 1,
    decreases s.len(),
{
    if s.len() > 0 && key(s.last()) > key(x) {
        lemma_insert_by_key_len(s.drop_last(), x, key);
    }
}

/// An item whose key is below every key of `s` goes to the front.
pub proof fn lemma_insert_by_key_front<T>(s: Seq<T>, x: T, key: spec_fn(T) -> int)
    requires
        forall|i: int| 0 <= i < s.len() ==> key(#[trigger] s[i]) > key(x),
    ensures
        insert_by_key(s, x, key)[0] == x,
{
    lemma_insert_by_key_at(s, x, key, 0);
}

/// An item whose key is not below that of the first item leaves the first
/// item where it is.
pub proof fn lemma_insert_by_key_behind<T>(s: Seq<T>, x: T, key: spec_fn(T) -> int)
    requires
        s.len() > 0,
        key(s[0]) <= key(x),
    ensures
        insert_by_key(s, x, key)[0] == s[0],
    decreases s.len(),
{
    if key(s.last()) > key(x) {
        assert(s.len() > 1);
        lemma_insert_by_key_behind(s.drop_last(), x, key);
        lemma_insert_by_key_len(s.drop_last(), x, key);
    }
}

/// The items that a filter keeps of an ascending sequence are ascending.
pub proof fn lemma_filter_ascending<T>(s: Seq<T>, key: spec_fn(T) -> int, keep: spec_fn(T) -> bool)
    requires
        ascending(s, key),
    ensures
        ascending(s.filter(keep), key),
    decreases s.len(),
{
    reveal(Seq::filter);
    if s.len() > 0 {
        let head = s.drop_last();
        assert(ascending(head, key)) by {
            assert forall|i: int, j: int| 0 <= i <= j < head.len() implies key(head[i]) <= key(
                head[j],
            ) by {
                assert(head[i] == s[i] && head[j] == s[j]);
            }
        }
        lemma_filter_ascending(head, key, keep);
        let kept = head.filter(keep);
        if keep(s.last()) {
            assert forall|i: int, j: int| 0 <= i <= j < kept.push(s.last()).len() implies key(
                kept.push(s.last())[i],
            ) <= key(kept.push(s.last())[j]) by {
                if j == kept.len() && i < kept.len() {
                    assert(kept.contains(kept[i]));
                    head.lemma_filter_contains_rev(keep, kept[i]);
                    let k = choose|k: int| 0 <= k < head.len() && head[k] == kept[i];
                    assert(head[k] == s[k]);
                }
            }
        }
    }
}

/// Every item of the sorted sequence is an item of the input.
pub proof fn lemma_sort_by_key_members<T>(s: Seq<T>, key: spec_fn(T) -> int)
    ensures
        forall|i: int|
            0 <= i < sort_by_key(s, key).len() ==> s.contains(#[trigger] sort_by_key(s, key)[i]),
{
    broadcast use vstd::seq_lib::group_to_multiset_ensures;

    lemma_sort_by_key(s, key);
    let r = sort_by_key(s, key);
    assert forall|i: int| 0 <= i < r.len() implies s.contains(#[trigger] r[i]) by {
        assert(r.contains(r[i]));
        assert(r.to_multiset().count(r[i]) > 0);
    }
}

/// Sorting puts the items in ascending order of key, and the result holds
/// each item as often as the input does.
pub proof fn lemma_sort_by_key<T>(s: Seq<T>, key: spec_fn(T) -> int)
    ensures
        ascending(sort_by_key(s, key), key),
        sort_by_key(s, key).len() == s.len(),
        sort_by_key(s, key).to_multiset() == s.to_multiset(),
    decreases s.len(),
{
    broadcast use vstd::seq_lib::group_to_multiset_ensures;

    if s.len() > 0 {
        lemma_sort_by_key(s.drop_last(), key);
        lemma_insert_by_key(sort_by_key(s.drop_last(), key), s.last(), key);
        assert(s =~= s.drop_last().push(s.last()));
    }
}

} // verus!
