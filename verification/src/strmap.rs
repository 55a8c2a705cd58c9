//! An ordered map from text to values, with every key once and the entries in
//! the order of their keys. It carries a record's fields and a query's filters.
use vstd::prelude::*;
use vstd::string::*;

use crate::text::{
    lemma_text_before_irreflexive, lemma_text_before_transitive, lemma_texts_push, text_before,
    text_order, texts, TextOrder,
};

verus! {

/// A map keyed by text, ordered by key.
pub struct StrMap<V> {
    entries: Vec<(String, V)>,
}

/// The keys of a row of entries stand in strictly ascending order.
pub open spec fn ascending<V>(entries: Seq<(String, V)>) -> bool {
    forall|i: int, j: int|
        0 <= i < j < entries.len() ==> text_before(
            (#[trigger] entries[i]).0@,
            (#[trigger] entries[j]).0@,
        )
}

/// Does a row of entries hold this key?
pub open spec fn holds<V>(entries: Seq<(String, V)>, key: Seq<char>) -> bool {
    exists|i: int| 0 <= i < entries.len() && (#[trigger] entries[i]).0@ == key
}

/// Where a key stands in a row of entries that holds it.
pub open spec fn place<V>(entries: Seq<(String, V)>, key: Seq<char>) -> int {
    choose|i: int| 0 <= i < entries.len() && (#[trigger] entries[i]).0@ == key
}

/// What a row of entries maps each of its keys to.
pub open spec fn mapping<V: DeepView>(entries: Seq<(String, V)>) -> Map<Seq<char>, V::V> {
    Map::new(
        |key: Seq<char>| holds(entries, key),
        |key: Seq<char>| entries[place(entries, key)].1.deep_view(),
    )
}

/// In an ascending row a key stands in one place only.
proof fn lemma_one_place<V>(entries: Seq<(String, V)>, i: int)
    requires
        ascending(entries),
        0 <= i < entries.len(),
    ensures
        holds(entries, entries[i].0@),
        place(entries, entries[i].0@) == i,
{
    let key = entries[i].0@;
    let p = place(entries, key);
    assert(0 <= p < entries.len() && entries[p].0@ == key);
    lemma_text_before_irreflexive(key);
}

impl<V: DeepView> View for StrMap<V> {
    type V = Map<Seq<char>, V::V>;

    closed spec fn view(&self) -> Map<Seq<char>, V::V> {
        mapping(self.entries@)
    }
}

/// Where a key is, or where it would go.
fn locate<V>(entries: &Vec<(String, V)>, key: &str) -> (found: (usize, bool))
    requires
        ascending(entries@),
    ensures
        found.0 <= entries@.len(),
        forall|i: int| 0 <= i < found.0 ==> text_before((#[trigger] entries@[i]).0@, key@),
        found.1 ==> found.0 < entries@.len() && entries@[found.0 as int].0@ == key@,
        !found.1 ==> forall|i: int|
            found.0 <= i < entries@.len() ==> text_before(key@, (#[trigger] entries@[i]).0@),
{
    let mut low: usize = 0;
    let mut high: usize = entries.len();
    while low < high
        invariant
            low <= high <= entries@.len(),
            ascending(entries@),
            forall|i: int| 0 <= i < low ==> text_before((#[trigger] entries@[i]).0@, key@),
            forall|i: int|
                high <= i < entries@.len() ==> text_before(key@, (#[trigger] entries@[i]).0@),
        decreases high - low,
    {
        let mid = low + (high - low) / 2;
        match text_order(entries[mid].0.as_str(), key) {
            TextOrder::Same => {
                return (mid, true);
            },
            TextOrder::Before => {
                proof {
                    assert forall|i: int| 0 <= i < mid + 1 implies text_before(
                        (#[trigger] entries@[i]).0@,
                        key@,
                    ) by {
                        if i < mid {
                            lemma_text_before_transitive(
                                entries@[i].0@,
                                entries@[mid as int].0@,
                                key@,
                            );
                        }
                    }
                }
                low = mid + 1;
            },
            TextOrder::After => {
                proof {
                    assert forall|i: int| mid <= i < entries@.len() implies text_before(
                        key@,
                        (#[trigger] entries@[i]).0@,
                    ) by {
                        if mid < i {
                            lemma_text_before_transitive(
                                key@,
                                entries@[mid as int].0@,
                                entries@[i].0@,
                            );
                        }
                    }
                }
                high = mid;
            },
        }
    }
    (low, false)
}

/// A key that stands strictly between its neighbours is not in the row.
proof fn lemma_absent<V>(entries: Seq<(String, V)>, key: Seq<char>, at: int)
    requires
        0 <= at <= entries.len(),
        forall|i: int| 0 <= i < at ==> text_before((#[trigger] entries[i]).0@, key),
        forall|i: int| at <= i < entries.len() ==> text_before(key, (#[trigger] entries[i]).0@),
    ensures
        !holds(entries, key),
{
    lemma_text_before_irreflexive(key);
}

/// Putting an absent key in its place adds it to the mapping.
proof fn lemma_inserted<V: DeepView>(entries: Seq<(String, V)>, at: int, entry: (String, V))
    requires
        ascending(entries),
        0 <= at <= entries.len(),
        forall|i: int| 0 <= i < at ==> text_before((#[trigger] entries[i]).0@, entry.0@),
        forall|i: int|
            at <= i < entries.len() ==> text_before(entry.0@, (#[trigger] entries[i]).0@),
    ensures
        ascending(entries.insert(at, entry)),
        mapping(entries.insert(at, entry)) == mapping(entries).insert(
            entry.0@,
            entry.1.deep_view(),
        ),
{
    let after = entries.insert(at, entry);
    assert forall|i: int, j: int| 0 <= i < j < after.len() implies text_before(
        (#[trigger] after[i]).0@,
        (#[trigger] after[j]).0@,
    ) by {
        let a = if i < at { i } else { i - 1 };
        let b = if j < at { j } else { j - 1 };
        if i != at {
            assert(after[i] == entries[a]);
        }
        if j != at {
            assert(after[j] == entries[b]);
        }
    }
    lemma_same_mapping(entries, after, at, entry);
}

/// The keys and values of a row with one more entry.
proof fn lemma_same_mapping<V: DeepView>(
    entries: Seq<(String, V)>,
    after: Seq<(String, V)>,
    at: int,
    entry: (String, V),
)
    requires
        ascending(entries),
        ascending(after),
        0 <= at <= entries.len(),
        after == entries.insert(at, entry),
    ensures
        mapping(after) == mapping(entries).insert(entry.0@, entry.1.deep_view()),
{
    let want = mapping(entries).insert(entry.0@, entry.1.deep_view());
    assert forall|key: Seq<char>| holds(after, key) == want.contains_key(key) by {
        if holds(after, key) {
            let p = place(after, key);
            assert(after[p].0@ == key);
            if p < at {
                assert(entries[p] == after[p]);
            } else if p > at {
                assert(entries[p - 1] == after[p]);
            }
        }
        if holds(entries, key) {
            let p = place(entries, key);
            if p < at {
                assert(after[p] == entries[p]);
            } else {
                assert(after[p + 1] == entries[p]);
            }
        }
        if key == entry.0@ {
            assert(after[at].0@ == key);
        }
    }
    assert forall|key: Seq<char>| holds(after, key) implies mapping(after)[key] == want[key] by {
        let p = place(after, key);
        assert(after[p].0@ == key);
        if key == entry.0@ {
            lemma_one_place(after, at);
        } else if p < at {
            assert(entries[p] == after[p]);
            lemma_one_place(entries, p);
        } else {
            assert(p != at);
            assert(entries[p - 1] == after[p]);
            lemma_one_place(entries, p - 1);
        }
    }
    assert(mapping(after) =~= want);
}

/// Giving a key that is there a new value changes that value alone.
proof fn lemma_updated<V: DeepView>(entries: Seq<(String, V)>, at: int, entry: (String, V))
    requires
        ascending(entries),
        0 <= at < entries.len(),
        entries[at].0@ == entry.0@,
    ensures
        ascending(entries.update(at, entry)),
        mapping(entries.update(at, entry)) == mapping(entries).insert(
            entry.0@,
            entry.1.deep_view(),
        ),
{
    let after = entries.update(at, entry);
    let want = mapping(entries).insert(entry.0@, entry.1.deep_view());
    assert forall|i: int, j: int| 0 <= i < j < after.len() implies text_before(
        (#[trigger] after[i]).0@,
        (#[trigger] after[j]).0@,
    ) by {
        assert(after[i].0@ == entries[i].0@);
        assert(after[j].0@ == entries[j].0@);
    }
    assert forall|key: Seq<char>| holds(after, key) == want.contains_key(key) by {
        if holds(after, key) {
            let p = place(after, key);
            assert(entries[p].0@ == key);
        }
        if holds(entries, key) {
            let p = place(entries, key);
            assert(after[p].0@ == key);
        }
        if key == entry.0@ {
            assert(after[at].0@ == key);
        }
    }
    assert forall|key: Seq<char>| holds(after, key) implies mapping(after)[key] == want[key] by {
        let p = place(after, key);
        assert(after[p].0@ == key);
        assert(entries[p].0@ == key);
        lemma_one_place(after, p);
        lemma_one_place(entries, p);
        if key == entry.0@ {
            lemma_one_place(after, at);
        }
    }
    assert(mapping(after) =~= want);
}

impl<V> StrMap<V> {
    #[verifier::type_invariant]
    spec fn in_order(self) -> bool {
        ascending(self.entries@)
    }
}

impl<V: DeepView> StrMap<V> {
    /// The keys, in order.
    pub closed spec fn key_list(&self) -> Seq<Seq<char>> {
        Seq::new(self.entries@.len(), |i: int| self.entries@[i].0@)
    }

    /// A map with nothing in it.
    pub fn new() -> (map: Self)
        ensures
            map@ == Map::<Seq<char>, V::V>::empty(),
    {
        let map = StrMap { entries: Vec::new() };
        assert(map@ =~= Map::<Seq<char>, V::V>::empty());
        map
    }

    /// The number of keys.
    pub fn len(&self) -> (n: usize)
        ensures
            n == self.key_list().len(),
            n == self@.dom().len(),
    {
        proof {
            use_type_invariant(self);
            lemma_key_list(self);
            let keys = self.key_list();
            assert forall|i: int, j: int| 0 <= i < keys.len() && 0 <= j < keys.len() && i != j
                implies keys[i] != keys[j] by {
                lemma_text_before_irreflexive(keys[i]);
                if i < j {
                    assert(text_before(self.entries@[i].0@, self.entries@[j].0@));
                } else {
                    assert(text_before(self.entries@[j].0@, self.entries@[i].0@));
                }
            }
            keys.unique_seq_to_set();
            assert(keys.to_set() =~= self@.dom());
        }
        self.entries.len()
    }

    /// The value of a key, if the map holds it.
    pub fn get(&self, key: &str) -> (value: Option<&V>)
        ensures
            value is Some == self@.contains_key(key@),
            value matches Some(v) ==> self@[key@] == v.deep_view(),
    {
        proof {
            use_type_invariant(self);
        }
        let (at, found) = locate(&self.entries, key);
        if found {
            proof {
                lemma_one_place(self.entries@, at as int);
            }
            Some(&self.entries[at].1)
        } else {
            proof {
                lemma_absent(self.entries@, key@, at as int);
            }
            None
        }
    }

    /// Does the map hold this key?
    pub fn contains_key(&self, key: &str) -> (found: bool)
        ensures
            found == self@.contains_key(key@),
    {
        self.get(key).is_some()
    }

    /// Gives a key a value, in place of any value it had.
    pub fn insert(&mut self, key: String, value: V)
        ensures
            final(self)@ == old(self)@.insert(key@, value.deep_view()),
    {
        proof {
            use_type_invariant(&*self);
        }
        let mut entries: Vec<(String, V)> = Vec::new();
        std::mem::swap(&mut entries, &mut self.entries);
        let (at, found) = locate(&entries, key.as_str());
        proof {
            if found {
                lemma_updated(entries@, at as int, (key, value));
            } else {
                lemma_inserted(entries@, at as int, (key, value));
            }
        }
        if found {
            entries.set(at, (key, value));
        } else {
            entries.insert(at, (key, value));
        }
        self.entries = entries;
    }

    /// The `i`-th key in order, and its value.
    pub fn entry(&self, i: usize) -> (entry: (&String, &V))
        requires
            i < self.key_list().len(),
        ensures
            entry.0@ == self.key_list()[i as int],
            self@.contains_key(entry.0@),
            self@[entry.0@] == entry.1.deep_view(),
    {
        proof {
            use_type_invariant(self);
            lemma_one_place(self.entries@, i as int);
        }
        (&self.entries[i].0, &self.entries[i].1)
    }

    /// The keys, in order.
    pub fn keys(&self) -> (keys: Vec<String>)
        ensures
            texts(keys@) == self.key_list(),
            forall|key: Seq<char>| self.key_list().contains(key) == self@.contains_key(key),
            forall|i: int, j: int|
                0 <= i < j < self.key_list().len() ==> text_before(
                    #[trigger] self.key_list()[i],
                    #[trigger] self.key_list()[j],
                ),
    {
        let mut keys: Vec<String> = Vec::new();
        let mut i: usize = 0;
        while i < self.entries.len()
            invariant
                i <= self.entries.len(),
                texts(keys@) == self.key_list().take(i as int),
            decreases self.entries.len() - i,
        {
            proof {
                lemma_texts_push(keys@, self.entries@[i as int].0);
            }
            keys.push(self.entries[i].0.clone());
            assert(self.key_list().take(i + 1) =~= self.key_list().take(i as int).push(
                self.entries@[i as int].0@,
            ));
            i += 1;
        }
        assert(self.key_list().take(i as int) =~= self.key_list());
        proof {
            use_type_invariant(self);
            lemma_key_list(self);
        }
        keys
    }
}

/// The list of keys holds the keys of the mapping and no others.
pub proof fn lemma_key_list<V: DeepView>(map: &StrMap<V>)
    ensures
        forall|key: Seq<char>| map.key_list().contains(key) == map@.contains_key(key),
{
    assert forall|key: Seq<char>| map.key_list().contains(key) == map@.contains_key(key) by {
        if map.key_list().contains(key) {
            let i = choose|i: int| 0 <= i < map.key_list().len() && map.key_list()[i] == key;
            assert(map.entries@[i].0@ == key);
        }
        if map@.contains_key(key) {
            let i = place(map.entries@, key);
            assert(map.key_list()[i] == key);
        }
    }
}

} // verus!
