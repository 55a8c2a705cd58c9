//! Ranking: a stable order by two figures, largest first, then by a label.
use vstd::multiset::*;
use vstd::prelude::*;
use vstd::relations::*;
use vstd::seq_lib::*;

use crate::text::{
    lemma_text_before_irreflexive, lemma_text_before_total, lemma_text_before_transitive,
    text_before, text_order, TextOrder,
};

verus! {

/// What an item is ranked by: the first figure, largest first; then the
/// second, largest first; then the label, in the order of its code points.
#[verifier::ext_equal]
pub struct Rank {
    pub first: int,
    pub second: int,
    pub label: Seq<char>,
}

/// Does rank `a` come strictly before rank `b`?
pub open spec fn rank_before(a: Rank, b: Rank) -> bool {
    ||| a.first > b.first
    ||| a.first == b.first && a.second > b.second
    ||| a.first == b.first && a.second == b.second && text_before(a.label, b.label)
}

/// Does rank `a` come before rank `b`, or is it the same rank?
pub open spec fn rank_upto(a: Rank, b: Rank) -> bool {
    a == b || rank_before(a, b)
}

/// An item that can be ranked.
pub trait Ranked: Sized {
    /// The rank of the item.
    spec fn rank(&self) -> Rank;

    /// The first figure.
    fn first_figure(&self) -> (n: i64)
        ensures
            n == self.rank().first,
    ;

    /// The second figure.
    fn second_figure(&self) -> (n: i64)
        ensures
            n == self.rank().second,
    ;

    /// The label.
    fn label(&self) -> (s: &str)
        ensures
            s@ == self.rank().label,
    ;
}

/// The ranks of a row of items.
pub open spec fn ranks<T: Ranked>(items: Seq<T>) -> Seq<Rank> {
    items.map_values(|item: T| item.rank())
}

/// Where an item goes in a ranked row: behind everything it does not come
/// strictly before.
pub open spec fn slot<T: Ranked>(row: Seq<T>, item: T) -> int
    decreases row.len(),
{
    if row.len() > 0 && rank_before(item.rank(), row.last().rank()) {
        slot(row.drop_last(), item)
    } else {
        row.len() as int
    }
}

/// The items in the order of their ranks; items of one rank stay in the order
/// they came in.
pub open spec fn ranked<T: Ranked>(items: Seq<T>) -> Seq<T>
    decreases items.len(),
{
    if items.len() == 0 {
        items
    } else {
        let row = ranked(items.drop_last());
        row.insert(slot(row, items.last()), items.last())
    }
}

/// No item comes after one of a later rank.
pub open spec fn in_rank_order<T: Ranked>(row: Seq<T>) -> bool {
    forall|i: int, j: int|
        0 <= i < j < row.len() ==> rank_upto(
            (#[trigger] row[i]).rank(),
            (#[trigger] row[j]).rank(),
        )
}

/// The order of ranks is total.
pub proof fn lemma_rank_order_is_total()
    ensures
        total_ordering(|a: Rank, b: Rank| rank_upto(a, b)),
{
    let le = |a: Rank, b: Rank| rank_upto(a, b);
    assert forall|a: Rank, b: Rank| #[trigger] le(a, b) && #[trigger] le(b, a) implies a == b by {
        lemma_text_before_irreflexive(a.label);
        if text_before(a.label, b.label) && text_before(b.label, a.label) {
            lemma_text_before_transitive(a.label, b.label, a.label);
        }
    }
    assert forall|a: Rank, b: Rank, c: Rank| #[trigger] le(a, b) && #[trigger] le(b, c) implies le(
        a,
        c,
    ) by {
        lemma_rank_upto_transitive(a, b, c);
    }
    assert forall|a: Rank, b: Rank| #[trigger] le(a, b) || #[trigger] le(b, a) by {
        lemma_rank_upto_total(a, b);
    }
}

proof fn lemma_rank_upto_transitive(a: Rank, b: Rank, c: Rank)
    requires
        rank_upto(a, b),
        rank_upto(b, c),
    ensures
        rank_upto(a, c),
{
    if text_before(a.label, b.label) && text_before(b.label, c.label) {
        lemma_text_before_transitive(a.label, b.label, c.label);
    }
}

proof fn lemma_rank_upto_total(a: Rank, b: Rank)
    ensures
        rank_upto(a, b) || rank_before(b, a),
{
    lemma_text_before_total(a.label, b.label);
    if a.first == b.first && a.second == b.second && a.label == b.label {
        assert(a =~= b);
    }
}

/// The slot of an item lies between what it follows and what it precedes.
proof fn lemma_slot<T: Ranked>(row: Seq<T>, item: T)
    requires
        in_rank_order(row),
    ensures
        0 <= slot(row, item) <= row.len(),
        forall|i: int|
            0 <= i < slot(row, item) ==> rank_upto((#[trigger] row[i]).rank(), item.rank()),
        forall|i: int|
            slot(row, item) <= i < row.len() ==> rank_before(
                item.rank(),
                (#[trigger] row[i]).rank(),
            ),
    decreases row.len(),
{
    if row.len() > 0 {
        let last = row[row.len() - 1];
        if rank_before(item.rank(), last.rank()) {
            let rest = row.drop_last();
            assert forall|i: int, j: int| 0 <= i < j < rest.len() implies rank_upto(
                (#[trigger] rest[i]).rank(),
                (#[trigger] rest[j]).rank(),
            ) by {
                assert(rest[i] == row[i] && rest[j] == row[j]);
            }
            lemma_slot(rest, item);
            assert forall|i: int| 0 <= i < slot(row, item) implies rank_upto(
                (#[trigger] row[i]).rank(),
                item.rank(),
            ) by {
                assert(rest[i] == row[i]);
            }
            assert forall|i: int| slot(row, item) <= i < row.len() implies rank_before(
                item.rank(),
                (#[trigger] row[i]).rank(),
            ) by {
                if i < rest.len() {
                    assert(rest[i] == row[i]);
                }
            }
        } else {
            lemma_rank_upto_total(last.rank(), item.rank());
            assert forall|i: int| 0 <= i < row.len() implies rank_upto(
                (#[trigger] row[i]).rank(),
                item.rank(),
            ) by {
                if i < row.len() - 1 {
                    lemma_rank_upto_transitive(row[i].rank(), last.rank(), item.rank());
                }
            }
        }
    }
}

/// Ranking orders the items by rank.
pub proof fn lemma_ranked_is_in_order<T: Ranked>(items: Seq<T>)
    ensures
        in_rank_order(ranked(items)),
        ranked(items).len() == items.len(),
    decreases items.len(),
{
    if items.len() > 0 {
        lemma_ranked_is_in_order(items.drop_last());
        let row = ranked(items.drop_last());
        let item = items.last();
        lemma_slot(row, item);
        let at = slot(row, item);
        let out = ranked(items);
        assert(out == row.insert(at, item));
        assert forall|i: int, j: int| 0 <= i < j < out.len() implies rank_upto(
            (#[trigger] out[i]).rank(),
            (#[trigger] out[j]).rank(),
        ) by {
            let a = if i < at { i } else { i - 1 };
            let b = if j < at { j } else { j - 1 };
            if i != at {
                assert(out[i] == row[a]);
            }
            if j != at {
                assert(out[j] == row[b]);
            }
        }
    }
}

/// Ranking neither adds, drops nor repeats an item.
pub proof fn lemma_ranked_keeps_the_items<T: Ranked>(items: Seq<T>)
    ensures
        ranked(items).to_multiset() == items.to_multiset(),
    decreases items.len(),
{
    broadcast use group_to_multiset_ensures;

    if items.len() > 0 {
        lemma_ranked_keeps_the_items(items.drop_last());
        lemma_ranked_is_in_order(items.drop_last());
        let row = ranked(items.drop_last());
        let item = items.last();
        lemma_slot(row, item);
        let out = ranked(items);
        let at = slot(row, item);
        assert(out.remove(at) =~= row);
        assert(out.to_multiset().remove(item) =~= row.to_multiset());
        assert(out[at] == item);
        assert(out.contains(item));
        assert(out.to_multiset() =~= row.to_multiset().insert(item));
        assert(items =~= items.drop_last().push(item));
        assert(items.to_multiset() =~= items.drop_last().to_multiset().insert(item));
    }
}

/// Ranking is stable: items of one rank stay in the order they came in.
pub proof fn lemma_ranked_is_stable<T: Ranked>(items: Seq<T>, rank: Rank)
    ensures
        ranked(items).filter(|item: T| item.rank() == rank) == items.filter(
            |item: T| item.rank() == rank,
        ),
    decreases items.len(),
{
    let same = |item: T| item.rank() == rank;
    if items.len() > 0 {
        lemma_ranked_is_stable(items.drop_last(), rank);
        lemma_ranked_is_in_order(items.drop_last());
        let row = ranked(items.drop_last());
        let item = items.last();
        lemma_slot(row, item);
        let at = slot(row, item);
        let head = row.take(at);
        let tail = row.skip(at);
        assert(row =~= head + tail);
        assert(ranked(items) =~= head.push(item) + tail);
        Seq::filter_distributes_over_add(head, tail, same);
        Seq::filter_distributes_over_add(head.push(item), tail, same);
        reveal_with_fuel(Seq::filter, 2);
        assert(head.push(item).drop_last() =~= head);
        if same(item) {
            assert forall|i: int| 0 <= i < tail.len() implies !same(#[trigger] tail[i]) by {
                assert(tail[i] == row[at + i]);
                assert(rank_before(item.rank(), row[at + i].rank()));
                lemma_text_before_irreflexive(rank.label);
            }
            lemma_filter_none(tail, same);
            assert(ranked(items).filter(same) =~= head.filter(same).push(item));
            assert(row.filter(same) =~= head.filter(same));
        }
    }
}

proof fn lemma_filter_none<T>(s: Seq<T>, keep: spec_fn(T) -> bool)
    requires
        forall|i: int| 0 <= i < s.len() ==> !keep(#[trigger] s[i]),
    ensures
        s.filter(keep).len() == 0,
    decreases s.len(),
{
    reveal(Seq::filter);
    if s.len() > 0 {
        assert forall|i: int| 0 <= i < s.drop_last().len() implies !keep(
            #[trigger] s.drop_last()[i],
        ) by {
            assert(s.drop_last()[i] == s[i]);
        }
        lemma_filter_none(s.drop_last(), keep);
        assert(!keep(s[s.len() - 1]));
    }
}

/// The order of the ranks depends on which items there are and not on the
/// order they came in.
pub proof fn lemma_ranking_ignores_the_input_order<T: Ranked>(a: Seq<T>, b: Seq<T>)
    requires
        a.to_multiset() == b.to_multiset(),
    ensures
        ranks(ranked(a)) == ranks(ranked(b)),
{
    let le = |x: Rank, y: Rank| rank_upto(x, y);
    lemma_rank_order_is_total();
    lemma_ranked_is_in_order(a);
    lemma_ranked_is_in_order(b);
    lemma_ranked_keeps_the_items(a);
    lemma_ranked_keeps_the_items(b);
    lemma_ranks_sorted(ranked(a));
    lemma_ranks_sorted(ranked(b));
    lemma_ranks_of_equal_multisets(ranked(a), ranked(b));
    lemma_sorted_unique(ranks(ranked(a)), ranks(ranked(b)), le);
}

proof fn lemma_ranks_sorted<T: Ranked>(row: Seq<T>)
    requires
        in_rank_order(row),
    ensures
        sorted_by(ranks(row), |x: Rank, y: Rank| rank_upto(x, y)),
{
    let le = |x: Rank, y: Rank| rank_upto(x, y);
    assert forall|i: int, j: int| 0 <= i < j < ranks(row).len() implies #[trigger] le(
        ranks(row)[i],
        ranks(row)[j],
    ) by {
        assert(rank_upto(row[i].rank(), row[j].rank()));
    }
}

proof fn lemma_ranks_of_equal_multisets<T: Ranked>(a: Seq<T>, b: Seq<T>)
    requires
        a.to_multiset() == b.to_multiset(),
    ensures
        ranks(a).to_multiset() == ranks(b).to_multiset(),
    decreases a.len(),
{
    broadcast use group_to_multiset_ensures;

    a.to_multiset_ensures();
    b.to_multiset_ensures();
    assert(a.len() == b.len());
    if a.len() == 0 {
        assert(a =~= b);
    } else {
        let x = a.last();
        assert(a[a.len() - 1] == x);
        assert(a.contains(x));
        assert(b.to_multiset().count(x) > 0);
        assert(b.contains(x));
        let k = choose|k: int| 0 <= k < b.len() && b[k] == x;
        let rest_a = a.remove(a.len() - 1);
        let rest_b = b.remove(k);
        assert(rest_a.to_multiset() =~= rest_b.to_multiset());
        lemma_ranks_of_equal_multisets(rest_a, rest_b);
        assert(ranks(a).remove(a.len() - 1) =~= ranks(rest_a));
        assert(ranks(b).remove(k) =~= ranks(rest_b));
        assert(ranks(a)[a.len() - 1] == x.rank());
        assert(ranks(b)[k] == x.rank());
        assert(ranks(a).contains(x.rank()));
        assert(ranks(b).contains(x.rank()));
        assert(ranks(a).to_multiset() =~= ranks(rest_a).to_multiset().insert(x.rank()));
        assert(ranks(b).to_multiset() =~= ranks(rest_b).to_multiset().insert(x.rank()));
    }
}

/// Does the first item come strictly before the second?
fn outranks<T: Ranked>(a: &T, b: &T) -> (before: bool)
    ensures
        before == rank_before(a.rank(), b.rank()),
{
    if a.first_figure() != b.first_figure() {
        return a.first_figure() > b.first_figure();
    }
    if a.second_figure() != b.second_figure() {
        return a.second_figure() > b.second_figure();
    }
    match text_order(a.label(), b.label()) {
        TextOrder::Before => true,
        TextOrder::Same => false,
        TextOrder::After => false,
    }
}

/// Ranking a row that is in order changes nothing.
proof fn lemma_in_order_stays<T: Ranked>(row: Seq<T>)
    requires
        in_rank_order(row),
    ensures
        ranked(row) == row,
    decreases row.len(),
{
    if row.len() > 0 {
        let init = row.drop_last();
        assert(in_rank_order(init)) by {
            assert forall|i: int, j: int| 0 <= i < j < init.len() implies rank_upto(
                (#[trigger] init[i]).rank(),
                (#[trigger] init[j]).rank(),
            ) by {
                assert(rank_upto(row[i].rank(), row[j].rank()));
            }
        }
        lemma_in_order_stays(init);
        if init.len() > 0 {
            let a = row[init.len() - 1].rank();
            let b = row.last().rank();
            assert(rank_upto(row[init.len() - 1].rank(), row[init.len() as int].rank()));
            lemma_text_before_irreflexive(a.label);
            if text_before(a.label, b.label) && text_before(b.label, a.label) {
                lemma_text_before_transitive(a.label, b.label, a.label);
            }
            assert(!rank_before(b, a));
        }
        assert(slot(init, row.last()) == init.len());
        assert(ranked(row) =~= row);
    } else {
        assert(ranked(row) =~= row);
    }
}

/// Ranking what is ranked changes nothing: a ranking that was kept and one made
/// anew cannot disagree.
pub proof fn lemma_ranking_twice_changes_nothing<T: Ranked>(items: Seq<T>)
    ensures
        ranked(ranked(items)) == ranked(items),
{
    lemma_ranked_is_in_order(items);
    lemma_in_order_stays(ranked(items));
}

/// Ranks the items.
pub fn rank_all<T: Ranked>(items: Vec<T>) -> (out: Vec<T>)
    ensures
        out@ == ranked(items@),
{
    let ghost all = items@;
    let mut out: Vec<T> = Vec::new();
    for item in it: items
        invariant
            it.seq() == all,
            out@ == ranked(all.take(it.index())),
    {
        let ghost row = out@;
        proof {
            lemma_ranked_is_in_order(all.take(it.index()));
            lemma_slot(row, item);
        }
        let mut at: usize = out.len();
        assert(row.take(at as int) =~= row);
        while at > 0 && outranks(&item, &out[at - 1])
            invariant
                at <= out.len(),
                out@ == row,
                slot(row, item) == slot(row.take(at as int), item),
            decreases at,
        {
            assert(row.take(at as int).drop_last() =~= row.take(at - 1));
            at -= 1;
        }
        out.insert(at, item);
        assert(all.take(it.index() + 1).drop_last() =~= all.take(it.index()));
    }
    assert(all.take(all.len() as int) =~= all);
    out
}

} // verus!
