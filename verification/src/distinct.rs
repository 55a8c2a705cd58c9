//! Keeping the first of each: a list with the later repeats left out.
use vstd::prelude::*;

verus! {

/// Does a list hold an item with this key?
pub open spec fn has_key<T, K>(items: Seq<T>, key: spec_fn(T) -> K, wanted: K) -> bool {
    exists|i: int| 0 <= i < items.len() && key(#[trigger] items[i]) == wanted
}

/// The list without every item whose key an earlier item has.
pub open spec fn first_of_each<T, K>(items: Seq<T>, key: spec_fn(T) -> K) -> Seq<T>
    decreases items.len(),
{
    if items.len() == 0 {
        Seq::empty()
    } else {
        let rest = first_of_each(items.drop_last(), key);
        if has_key(rest, key, key(items.last())) {
            rest
        } else {
            rest.push(items.last())
        }
    }
}

/// No key is kept twice.
pub proof fn lemma_kept_once<T, K>(items: Seq<T>, key: spec_fn(T) -> K)
    ensures
        forall|i: int, j: int|
            0 <= i < j < first_of_each(items, key).len() ==> key(
                #[trigger] first_of_each(items, key)[i],
            ) != key(#[trigger] first_of_each(items, key)[j]),
    decreases items.len(),
{
    if items.len() > 0 {
        lemma_kept_once(items.drop_last(), key);
        let rest = first_of_each(items.drop_last(), key);
        let kept = first_of_each(items, key);
        assert forall|i: int, j: int| 0 <= i < j < kept.len() implies key(#[trigger] kept[i])
            != key(#[trigger] kept[j]) by {
            assert(kept[i] == rest[i]);
            if j < rest.len() {
                assert(kept[j] == rest[j]);
            }
        }
    }
}

/// Every key of the list is kept, and no other.
pub proof fn lemma_every_key_kept<T, K>(items: Seq<T>, key: spec_fn(T) -> K, wanted: K)
    ensures
        has_key(first_of_each(items, key), key, wanted) == has_key(items, key, wanted),
    decreases items.len(),
{
    if items.len() > 0 {
        let init = items.drop_last();
        let rest = first_of_each(init, key);
        let kept = first_of_each(items, key);
        lemma_every_key_kept(init, key, wanted);
        if has_key(init, key, wanted) {
            let i = choose|i: int| 0 <= i < init.len() && key(#[trigger] init[i]) == wanted;
            assert(key(items[i]) == wanted);
            let j = choose|j: int| 0 <= j < rest.len() && key(#[trigger] rest[j]) == wanted;
            assert(kept[j] == rest[j]);
        }
        if key(items.last()) == wanted {
            assert(key(items[items.len() - 1]) == wanted);
            if !has_key(rest, key, wanted) {
                assert(key(kept[kept.len() - 1]) == wanted);
            }
        }
        if has_key(items, key, wanted) && !has_key(init, key, wanted) {
            let i = choose|i: int| 0 <= i < items.len() && key(#[trigger] items[i]) == wanted;
            if i < init.len() {
                assert(key(init[i]) == wanted);
            }
        }
        if has_key(kept, key, wanted) && !has_key(rest, key, wanted) {
            let j = choose|j: int| 0 <= j < kept.len() && key(#[trigger] kept[j]) == wanted;
            if j < rest.len() {
                assert(key(rest[j]) == wanted);
            }
        }
    }
}

/// The item that is kept of those with one key is the first of them.
pub proof fn lemma_first_is_kept<T, K>(items: Seq<T>, key: spec_fn(T) -> K, i: int)
    requires
        0 <= i < items.len(),
        forall|j: int| 0 <= j < i ==> key(#[trigger] items[j]) != key(items[i]),
    ensures
        first_of_each(items, key).contains(items[i]),
    decreases items.len(),
{
    let init = items.drop_last();
    let rest = first_of_each(init, key);
    let kept = first_of_each(items, key);
    if i < init.len() {
        assert forall|j: int| 0 <= j < i implies key(#[trigger] init[j]) != key(init[i]) by {
            assert(init[j] == items[j]);
        }
        lemma_first_is_kept(init, key, i);
        let k = choose|k: int| 0 <= k < rest.len() && rest[k] == init[i];
        assert(kept[k] == items[i]);
    } else {
        lemma_every_key_kept(init, key, key(items[i]));
        if has_key(init, key, key(items[i])) {
            let j = choose|j: int|
                0 <= j < init.len() && key(#[trigger] init[j]) == key(items[i]);
            assert(key(items[j]) == key(items[i]));
        }
        assert(kept[kept.len() - 1] == items[i]);
    }
}

/// What is kept is an item of the list.
pub proof fn lemma_kept_is_listed<T, K>(items: Seq<T>, key: spec_fn(T) -> K, j: int)
    requires
        0 <= j < first_of_each(items, key).len(),
    ensures
        items.contains(first_of_each(items, key)[j]),
    decreases items.len(),
{
    let init = items.drop_last();
    let rest = first_of_each(init, key);
    if j < rest.len() {
        lemma_kept_is_listed(init, key, j);
        let i = choose|i: int| 0 <= i < init.len() && init[i] == rest[j];
        assert(items[i] == rest[j]);
    } else {
        assert(items[items.len() - 1] == first_of_each(items, key)[j]);
    }
}

/// What is picked from two lists, one after the other, is picked from each.
pub proof fn lemma_filter_map_concat<A, B>(a: Seq<A>, b: Seq<A>, pick: spec_fn(A) -> Option<B>)
    ensures
        (a + b).filter_map(pick) == a.filter_map(pick) + b.filter_map(pick),
    decreases b.len(),
{
    if b.len() == 0 {
        assert(a + b =~= a);
    } else {
        lemma_filter_map_concat(a, b.drop_last(), pick);
        assert((a + b).drop_last() =~= a + b.drop_last());
    }
}

/// How many items of a list are to be kept.
pub open spec fn how_many<T>(items: Seq<T>, keep: spec_fn(T) -> bool) -> nat
    decreases items.len(),
{
    if items.len() == 0 {
        0
    } else if keep(items.last()) {
        how_many(items.drop_last(), keep) + 1
    } else {
        how_many(items.drop_last(), keep)
    }
}

/// What is picked from a list is one to each item that gives any.
pub proof fn lemma_picked_count<A, B>(
    items: Seq<A>,
    pick: spec_fn(A) -> Option<B>,
    keep: spec_fn(A) -> bool,
)
    requires
        forall|a: A| #[trigger] keep(a) == pick(a) is Some,
    ensures
        items.filter_map(pick).len() == how_many(items, keep),
    decreases items.len(),
{
    if items.len() > 0 {
        lemma_picked_count(items.drop_last(), pick, keep);
        assert(keep(items.last()) == pick(items.last()) is Some);
    }
}

/// What is picked from the `i`-th item stands behind what is picked from the
/// items before it.
pub proof fn lemma_picked_at<A, B>(
    items: Seq<A>,
    pick: spec_fn(A) -> Option<B>,
    keep: spec_fn(A) -> bool,
    i: int,
)
    requires
        forall|a: A| #[trigger] keep(a) == pick(a) is Some,
        0 <= i < items.len(),
        keep(items[i]),
    ensures
        how_many(items.take(i), keep) < items.filter_map(pick).len(),
        Some(items.filter_map(pick)[how_many(items.take(i), keep) as int]) == pick(items[i]),
{
    let front = items.take(i + 1);
    let back = items.skip(i + 1);
    assert(items =~= front + back);
    lemma_filter_map_concat(front, back, pick);
    items.lemma_filter_map_take_succ(pick, i);
    lemma_picked_count(items.take(i), pick, keep);
    let done = items.take(i).filter_map(pick);
    assert(front.filter_map(pick) =~= done.push(pick(items[i])->0));
    assert(items.filter_map(pick)[done.len() as int] == front.filter_map(pick)[done.len() as int]);
}

} // verus!
