//! JSON documents, as far as this crate reads them.
//!
//! Upstream payloads are walked leniently: by name, with fallbacks, and
//! without failing a whole response over one odd entry. [`Json`] is the tree
//! that walk runs over; [`Json::parse`] reads one from text.
use vstd::prelude::*;
use vstd::string::*;

use crate::text::same_text;

verus! {

/// A JSON document. Of a number only its value as a 64-bit signed integer is
/// kept, where it has one.
pub enum Json {
    Null,
    Bool(bool),
    Number(Option<i64>),
    Text(String),
    List(Vec<Json>),
    Object(Vec<(String, Json)>),
}

/// What a JSON document says.
pub enum JsonTree {
    Null,
    Bool(bool),
    Number(Option<i64>),
    Text(Seq<char>),
    List(Seq<JsonTree>),
    Object(Seq<(Seq<char>, JsonTree)>),
}

/// The first member under a name.
pub open spec fn member(members: Seq<(Seq<char>, JsonTree)>, name: Seq<char>) -> Option<JsonTree>
    decreases members.len(),
{
    if members.len() == 0 {
        None
    } else if members.first().0 == name {
        Some(members.first().1)
    } else {
        member(members.drop_first(), name)
    }
}

impl JsonTree {
    /// The member of an object under a name; none of anything else.
    pub open spec fn get(self, name: Seq<char>) -> Option<JsonTree> {
        match self {
            JsonTree::Object(members) => member(members, name),
            _ => None,
        }
    }

    /// The text of a string; none of anything else.
    pub open spec fn text(self) -> Option<Seq<char>> {
        match self {
            JsonTree::Text(s) => Some(s),
            _ => None,
        }
    }

    /// The items of an array; none of anything else.
    pub open spec fn items(self) -> Option<Seq<JsonTree>> {
        match self {
            JsonTree::List(items) => Some(items),
            _ => None,
        }
    }

    /// The integer a number is; none of anything else.
    pub open spec fn integer(self) -> Option<i64> {
        match self {
            JsonTree::Number(n) => n,
            _ => None,
        }
    }

    /// The text of the member under a name.
    pub open spec fn text_of(self, name: Seq<char>) -> Option<Seq<char>> {
        match self.get(name) {
            Some(value) => value.text(),
            None => None,
        }
    }

    /// The items of the member under a name.
    pub open spec fn items_of(self, name: Seq<char>) -> Option<Seq<JsonTree>> {
        match self.get(name) {
            Some(value) => value.items(),
            None => None,
        }
    }
}

impl View for Json {
    type V = JsonTree;

    open spec fn view(&self) -> JsonTree {
        self.tree()
    }
}

impl Json {
    /// What the document says.
    pub open spec fn tree(&self) -> JsonTree
        decreases self,
    {
        match self {
            Json::Null => JsonTree::Null,
            Json::Bool(b) => JsonTree::Bool(*b),
            Json::Number(n) => JsonTree::Number(*n),
            Json::Text(s) => JsonTree::Text(s@),
            Json::List(items) => JsonTree::List(
                Seq::new(
                    items@.len(),
                    |i: int|
                        if 0 <= i < items@.len() {
                            items@[i].tree()
                        } else {
                            JsonTree::Null
                        },
                ),
            ),
            Json::Object(members) => JsonTree::Object(
                Seq::new(
                    members@.len(),
                    |i: int|
                        if 0 <= i < members@.len() {
                            (members@[i].0@, members@[i].1.tree())
                        } else {
                            (Seq::empty(), JsonTree::Null)
                        },
                ),
            ),
        }
    }

    /// The member of an object under a name; none of anything else.
    pub fn get(&self, name: &str) -> (value: Option<&Json>)
        ensures
            value is Some == self@.get(name@) is Some,
            value matches Some(v) ==> self@.get(name@) == Some(v@),
    {
        match self {
            Json::Object(members) => {
                let ghost all = self@->Object_0;
                let mut i: usize = 0;
                assert(all.skip(0) =~= all);
                while i < members.len()
                    invariant
                        i <= members.len(),
                        self@ == JsonTree::Object(all),
                        all.len() == members.len(),
                        forall|j: int|
                            0 <= j < members.len() ==> #[trigger] all[j] == (
                                members@[j].0@,
                                members@[j].1@,
                            ),
                        member(all, name@) == member(all.skip(i as int), name@),
                    decreases members.len() - i,
                {
                    assert(all.skip(i as int).first() == all[i as int]);
                    if same_text(members[i].0.as_str(), name) {
                        return Some(&members[i].1);
                    }
                    assert(all.skip(i as int).drop_first() =~= all.skip(i + 1));
                    i += 1;
                }
                None
            },
            _ => None,
        }
    }

    /// The text of a string; none of anything else.
    pub fn as_str(&self) -> (s: Option<&str>)
        ensures
            s is Some == self@.text() is Some,
            s matches Some(s) ==> self@.text() == Some(s@),
    {
        match self {
            Json::Text(s) => Some(s.as_str()),
            _ => None,
        }
    }

    /// The items of an array; none of anything else.
    pub fn as_array(&self) -> (items: Option<&Vec<Json>>)
        ensures
            items is Some == self@.items() is Some,
            items matches Some(v) ==> self@.items() == Some(trees(v@)),
    {
        match self {
            Json::List(items) => {
                assert(self@->List_0 =~= trees(items@));
                Some(items)
            },
            _ => None,
        }
    }

    /// The integer a number is; none of anything else.
    pub fn as_i64(&self) -> (n: Option<i64>)
        ensures
            n == self@.integer(),
    {
        match self {
            Json::Number(n) => *n,
            _ => None,
        }
    }

    /// The text of the member under a name.
    pub fn str_of(&self, name: &str) -> (s: Option<&str>)
        ensures
            s is Some == self@.text_of(name@) is Some,
            s matches Some(s) ==> self@.text_of(name@) == Some(s@),
    {
        match self.get(name) {
            Some(value) => value.as_str(),
            None => None,
        }
    }

    /// The items of the member under a name.
    pub fn array_of(&self, name: &str) -> (items: Option<&Vec<Json>>)
        ensures
            items is Some == self@.items_of(name@) is Some,
            items matches Some(v) ==> self@.items_of(name@) == Some(trees(v@)),
    {
        match self.get(name) {
            Some(value) => value.as_array(),
            None => None,
        }
    }
}

/// What each document of a row says.
pub open spec fn trees(items: Seq<Json>) -> Seq<JsonTree> {
    Seq::new(items.len(), |i: int| items[i]@)
}

// ---------------------------------------------------------------------------
// Reading text
// ---------------------------------------------------------------------------

/// `serde_json::Value`: any valid JSON value.
#[verifier::external_type_specification]
#[verifier::external_body]
pub struct ExValue(serde_json::Value);

/// What a `serde_json::Value` holds, as a tree.
pub uninterp spec fn value_tree(value: serde_json::Value) -> JsonTree;

/// The tree that `serde_json::from_str` reads from a text; none where the text
/// is not a JSON document.
pub uninterp spec fn text_tree(text: Seq<char>) -> Option<JsonTree>;

/// The outermost layer of a `serde_json::Value`.
enum Layer {
    Null,
    Bool(bool),
    Number(Option<i64>),
    Text(String),
    List(Vec<serde_json::Value>),
    Object(Vec<(String, serde_json::Value)>),
}

/// `serde_json::from_str` into a `Value`: whether it succeeds, and what the
/// value holds, depend on the text alone.
#[verifier::external_body]
fn read_value(text: &str) -> (value: Option<serde_json::Value>)
    ensures
        value is Some == text_tree(text@) is Some,
        value matches Some(v) ==> text_tree(text@) == Some(value_tree(v)),
{
    serde_json::from_str::<serde_json::Value>(text).ok()
}

/// Takes the outermost layer off a `serde_json::Value`: its variant, with the
/// values inside it. A number gives what `Number::as_i64` gives; an object
/// gives its entries.
#[verifier::external_body]
fn open_value(value: serde_json::Value) -> (layer: Layer)
    ensures
        value_tree(value) == (match layer {
            Layer::Null => JsonTree::Null,
            Layer::Bool(b) => JsonTree::Bool(b),
            Layer::Number(n) => JsonTree::Number(n),
            Layer::Text(s) => JsonTree::Text(s@),
            Layer::List(items) => JsonTree::List(
                Seq::new(items@.len(), |i: int| value_tree(items@[i])),
            ),
            Layer::Object(members) => JsonTree::Object(
                Seq::new(members@.len(), |i: int| (members@[i].0@, value_tree(members@[i].1))),
            ),
        }),
{
    match value {
        serde_json::Value::Null => Layer::Null,
        serde_json::Value::Bool(b) => Layer::Bool(b),
        serde_json::Value::Number(n) => Layer::Number(n.as_i64()),
        serde_json::Value::String(s) => Layer::Text(s),
        serde_json::Value::Array(items) => Layer::List(items),
        serde_json::Value::Object(members) => Layer::Object(members.into_iter().collect()),
    }
}

/// The document a `serde_json::Value` holds.
fn json_of(value: serde_json::Value) -> (json: Json)
    ensures
        json@ == value_tree(value),
    decreases value_tree(value),
{
    match open_value(value) {
        Layer::Null => Json::Null,
        Layer::Bool(b) => Json::Bool(b),
        Layer::Number(n) => Json::Number(n),
        Layer::Text(s) => Json::Text(s),
        Layer::List(items) => {
            let ghost all = items@;
            let ghost want = value_tree(value)->List_0;
            let mut out: Vec<Json> = Vec::new();
            for item in it: items
                invariant
                    it.seq() == all,
                    value_tree(value) == JsonTree::List(want),
                    want == Seq::new(all.len(), |i: int| value_tree(all[i])),
                    out@.len() == it.index(),
                    forall|j: int| 0 <= j < out@.len() ==> (#[trigger] out@[j])@ == want[j],
            {
                assert(want[it.index()] == value_tree(item));
                assert(decreases_to!(value_tree(value) => value_tree(value)->List_0));
                assert(decreases_to!(want => want[it.index()]));
                out.push(json_of(item));
            }
            let json = Json::List(out);
            assert(json@->List_0 =~= want);
            json
        },
        Layer::Object(members) => {
            let ghost all = members@;
            let ghost want = value_tree(value)->Object_0;
            let mut out: Vec<(String, Json)> = Vec::new();
            for entry in it: members
                invariant
                    it.seq() == all,
                    value_tree(value) == JsonTree::Object(want),
                    want == Seq::new(all.len(), |i: int| (all[i].0@, value_tree(all[i].1))),
                    out@.len() == it.index(),
                    forall|j: int|
                        0 <= j < out@.len() ==> ((#[trigger] out@[j]).0@, out@[j].1@) == want[j],
            {
                let (name, inner) = entry;
                assert(want[it.index()].1 == value_tree(inner));
                assert(decreases_to!(value_tree(value) => value_tree(value)->Object_0));
                assert(decreases_to!(want => want[it.index()]));
                assert(decreases_to!(want[it.index()] => want[it.index()].1));
                out.push((name, json_of(inner)));
            }
            let json = Json::Object(out);
            assert(json@->Object_0 =~= want);
            json
        },
    }
}

impl Json {
    /// Reads a document from text; none where the text is not JSON.
    pub fn parse(text: &str) -> (json: Option<Json>)
        ensures
            json is Some == text_tree(text@) is Some,
            json matches Some(j) ==> text_tree(text@) == Some(j@),
    {
        match read_value(text) {
            Some(value) => Some(json_of(value)),
            None => None,
        }
    }
}

} // verus!
