//! What holds of the texts, numbers and documents that the rest is built on.
use vstd::prelude::*;

use crate::json::{Json, JsonTree};
use crate::number::{
    all_digits, decimal, digits_value, is_digit, lemma_decimal_reads_back, signed_decimal,
    unsigned_digits, unsigned_value,
};
use crate::text::{
    has_prefix, is_blank, is_white_space, joined, lowered, opt_text, present, strip_left,
    strip_right, text_before, texts, trim_left, trim_right, trimmed, unless_blank, unless_empty,
    with_char_replaced,
};

verus! {

// ---------------------------------------------------------------------------
// Trimming
// ---------------------------------------------------------------------------

/// Is a text white space throughout?
pub open spec fn all_white(s: Seq<char>) -> bool {
    forall|i: int| 0 <= i < s.len() ==> is_white_space(#[trigger] s[i])
}

/// Is this what trimming leaves of a text: what stands between the white space
/// it begins with and the white space it ends with?
pub open spec fn is_middle(
    s: Seq<char>,
    left: Seq<char>,
    middle: Seq<char>,
    right: Seq<char>,
) -> bool {
    &&& s == left + middle + right
    &&& all_white(left) && all_white(right)
    &&& middle.len() > 0 ==> !is_white_space(middle.first()) && !is_white_space(middle.last())
}

proof fn lemma_left_is_white(s: Seq<char>) -> (left: Seq<char>)
    ensures
        s == left + trim_left(s),
        all_white(left),
        trim_left(s).len() > 0 ==> !is_white_space(trim_left(s).first()),
    decreases s.len(),
{
    if s.len() > 0 && is_white_space(s.first()) {
        let rest = lemma_left_is_white(s.drop_first());
        let left = seq![s.first()] + rest;
        assert(s =~= seq![s.first()] + s.drop_first());
        assert(s =~= left + trim_left(s));
        left
    } else {
        let left: Seq<char> = Seq::empty();
        assert(s =~= left + s);
        left
    }
}

proof fn lemma_right_is_white(s: Seq<char>) -> (right: Seq<char>)
    ensures
        s == trim_right(s) + right,
        all_white(right),
        trim_right(s).len() > 0 ==> !is_white_space(trim_right(s).last()),
    decreases s.len(),
{
    if s.len() > 0 && is_white_space(s.last()) {
        let rest = lemma_right_is_white(s.drop_last());
        let right = rest.push(s.last());
        assert(s =~= s.drop_last().push(s.last()));
        assert(s =~= trim_right(s) + right);
        right
    } else {
        let right: Seq<char> = Seq::empty();
        assert(s =~= s + right);
        right
    }
}

/// Trimming takes the white space off both ends of a text, all of it and nothing
/// else.
pub proof fn lemma_trimming_leaves_the_middle(s: Seq<char>)
    ensures
        exists|left: Seq<char>, right: Seq<char>| #[trigger]
            is_middle(s, left, trimmed(s), right),
        is_blank(s) <==> all_white(s),
{
    let left = lemma_left_is_white(s);
    let right = lemma_right_is_white(trim_left(s));
    assert(s =~= left + trimmed(s) + right);
    if trimmed(s).len() > 0 {
        assert(trimmed(s).first() == trim_left(s).first());
        assert(s[left.len() as int] == trimmed(s).first());
    } else {
        assert forall|i: int| 0 <= i < s.len() implies is_white_space(#[trigger] s[i]) by {
            if i < left.len() {
                assert(s[i] == left[i]);
            } else {
                assert(s[i] == right[i - left.len()]);
            }
        }
    }
    assert(is_middle(s, left, trimmed(s), right));
}

/// An optional text that is dropped where it says nothing is there just where it
/// does, trimmed or as it is.
pub proof fn lemma_optional_texts(s: Seq<char>)
    ensures
        is_blank(s) ==> present(Some(s)) is None && unless_blank(Some(s)) is None,
        !is_blank(s) ==> present(Some(s)) == Some(trimmed(s)) && unless_blank(Some(s)) == Some(s),
        s.len() == 0 ==> unless_empty(Some(s)) is None,
        s.len() > 0 ==> unless_empty(Some(s)) == Some(s),
        present(None) is None && unless_blank(None) is None && unless_empty(None) is None,
{
}

/// The texts of strings are their characters, one to one and in order.
pub proof fn lemma_texts_are_the_strings(s: String, list: Seq<String>, i: int)
    ensures
        opt_text(Some(s)) == Some(s@) && opt_text(None) is None,
        texts(list).len() == list.len(),
        0 <= i < list.len() ==> texts(list)[i] == list[i]@,
{
}

// ---------------------------------------------------------------------------
// Case, order, substitution
// ---------------------------------------------------------------------------

/// Lowering a text makes a small letter of every ASCII capital, and changes
/// nothing else.
pub proof fn lemma_lowering_is_letter_by_letter(s: Seq<char>, i: int)
    requires
        0 <= i < s.len(),
    ensures
        lowered(s).len() == s.len(),
        'A' <= s[i] <= 'Z' ==> lowered(s)[i] as int == s[i] as int + 32,
        !('A' <= s[i] <= 'Z') ==> lowered(s)[i] == s[i],
{
}

/// Texts are in the order of the first character that tells them apart, and a
/// text goes before what it begins.
pub proof fn lemma_texts_are_in_code_point_order(
    front: Seq<char>,
    c: char,
    d: char,
    x: Seq<char>,
    y: Seq<char>,
)
    ensures
        c != d ==> text_before(front + seq![c] + x, front + seq![d] + y) == (c < d),
        text_before(front, front + seq![c] + x),
    decreases front.len(),
{
    let a = front + seq![c] + x;
    let b = front + seq![d] + y;
    if front.len() > 0 {
        let rest = front.drop_first();
        lemma_texts_are_in_code_point_order(rest, c, d, x, y);
        assert(a.drop_first() =~= rest + seq![c] + x);
        assert(b.drop_first() =~= rest + seq![d] + y);
        assert(a.first() == front.first() && b.first() == front.first());
    } else {
        assert(a.first() == c && b.first() == d);
    }
}

/// A text begins with a prefix just where something can be set behind the prefix
/// to make the text.
pub proof fn lemma_what_a_prefix_is(s: Seq<char>, prefix: Seq<char>, rest: Seq<char>)
    ensures
        has_prefix(prefix + rest, prefix),
        has_prefix(s, prefix) ==> s == prefix + s.skip(prefix.len() as int),
{
    assert((prefix + rest).take(prefix.len() as int) =~= prefix);
    if has_prefix(s, prefix) {
        assert(s =~= s.take(prefix.len() as int) + s.skip(prefix.len() as int));
    }
}

/// Stripping a character off one end of a text takes every copy of it there, and
/// nothing else.
pub proof fn lemma_stripping_takes_every_copy(s: Seq<char>, c: char)
    ensures
        strip_left(s, c).len() == 0 || strip_left(s, c).first() != c,
        strip_left(s.drop_first(), c) == strip_left(s, c) || s.len() == 0 || s.first() != c,
        strip_left(s, c).len() <= s.len(),
        strip_left(s, c) == s.skip(s.len() - strip_left(s, c).len()),
        forall|i: int| 0 <= i < s.len() - strip_left(s, c).len() ==> #[trigger] s[i] == c,
        strip_right(s, c).len() == 0 || strip_right(s, c).last() != c,
        strip_right(s, c).len() <= s.len(),
        strip_right(s, c) == s.take(strip_right(s, c).len() as int),
        forall|i: int| strip_right(s, c).len() <= i < s.len() ==> #[trigger] s[i] == c,
    decreases s.len(),
{
    if s.len() > 0 {
        let a = s.drop_first();
        let b = s.drop_last();
        lemma_stripping_takes_every_copy(a, c);
        lemma_stripping_takes_every_copy(b, c);
        assert forall|i: int|
            0 <= i < s.len() - strip_left(s, c).len() implies #[trigger] s[i] == c by {
            if i > 0 {
                assert(s[i] == a[i - 1]);
            }
        }
        assert forall|i: int|
            strip_right(s, c).len() <= i < s.len() implies #[trigger] s[i] == c by {
            if i < s.len() - 1 {
                assert(s[i] == b[i]);
            }
        }
    }
    assert(strip_left(s, c) =~= s.skip(s.len() - strip_left(s, c).len()));
    assert(strip_right(s, c) =~= s.take(strip_right(s, c).len() as int));
}

/// Replacing a character replaces every copy of it, and nothing else.
pub proof fn lemma_replacing_is_letter_by_letter(s: Seq<char>, from: char, to: char, i: int)
    requires
        0 <= i < s.len(),
    ensures
        with_char_replaced(s, from, to).len() == s.len(),
        s[i] == from ==> with_char_replaced(s, from, to)[i] == to,
        s[i] != from ==> with_char_replaced(s, from, to)[i] == s[i],
{
}

/// One more text is set behind the others with the separator between them.
pub proof fn lemma_joining_grows(list: Seq<Seq<char>>, s: Seq<char>, sep: Seq<char>)
    ensures
        joined(Seq::empty(), sep) == Seq::<char>::empty(),
        list.len() == 0 ==> joined(list.push(s), sep) == s,
        list.len() > 0 ==> joined(list.push(s), sep) == joined(list, sep) + sep + s,
{
    assert(list.push(s).drop_last() =~= list);
}

// ---------------------------------------------------------------------------
// Numbers
// ---------------------------------------------------------------------------

/// A text without the plus sign it begins with.
pub open spec fn without_plus(s: Seq<char>) -> Seq<char> {
    if s.len() > 0 && s[0] == '+' {
        s.skip(1)
    } else {
        s
    }
}

/// Is a text one or more digits, and nothing else?
pub open spec fn is_number(s: Seq<char>) -> bool {
    s.len() > 0 && forall|i: int| 0 <= i < s.len() ==> '0' <= #[trigger] s[i] <= '9'
}

/// A row of digits is read as the number it is, with or without a plus sign,
/// where that is no larger than it may be; and nothing else is read as one.
pub proof fn lemma_only_digits_are_read(s: Seq<char>, max: int)
    ensures
        ({
            let digits = without_plus(s);
            &&& is_number(digits) && digits_value(digits) <= max ==> unsigned_value(s, max) == Some(
                digits_value(digits),
            )
            &&& !is_number(digits) || digits_value(digits) > max ==> unsigned_value(s, max) is None
        }),
{
    let digits = without_plus(s);
    assert(digits =~= unsigned_digits(s));
    if is_number(digits) {
        assert(all_digits(digits));
    }
    if digits.len() > 0 && all_digits(digits) {
        assert forall|i: int| 0 <= i < digits.len() implies '0' <= #[trigger] digits[i] <= '9' by {
            assert(is_digit(digits[i]));
        }
    }
}

/// One more digit is ten times the number, and the digit.
pub proof fn lemma_digits_are_decimal(s: Seq<char>, c: char)
    ensures
        digits_value(Seq::empty()) == 0,
        digits_value(s.push(c)) == 10 * digits_value(s) + (c as int - '0' as int),
{
    assert(s.push(c).drop_last() =~= s);
}

/// A number that is written is read back, has no zero before it, and a minus
/// sign just where it is negative.
pub proof fn lemma_written_numbers(n: nat)
    ensures
        unsigned_value(decimal(n), n as int) == Some(n as int),
        n > 0 ==> decimal(n)[0] != '0',
        signed_decimal(n as int) == decimal(n),
        n > 0 ==> signed_decimal(-n) == seq!['-'] + decimal(n),
    decreases n,
{
    lemma_decimal_reads_back(n);
    assert(is_digit(decimal(n)[0]));
    if n >= 10 {
        lemma_written_numbers(n / 10);
        lemma_decimal_reads_back(n / 10);
        assert(decimal(n)[0] == decimal(n / 10)[0]);
    }
}

// ---------------------------------------------------------------------------
// Documents
// ---------------------------------------------------------------------------

/// The member of an object under a name is the first one that has it.
pub proof fn lemma_members_are_found_by_name(
    members: Seq<(Seq<char>, JsonTree)>,
    name: Seq<char>,
    i: int,
)
    requires
        0 <= i <= members.len(),
        i < members.len() ==> members[i].0 == name,
        forall|j: int| 0 <= j < i ==> (#[trigger] members[j]).0 != name,
    ensures
        i < members.len() ==> JsonTree::Object(members).get(name) == Some(members[i].1),
        i == members.len() ==> JsonTree::Object(members).get(name) is None,
    decreases members.len(),
{
    if i > 0 {
        let rest = members.drop_first();
        assert(members[0].0 != name);
        assert forall|j: int| 0 <= j < i - 1 implies (#[trigger] rest[j]).0 != name by {
            assert(rest[j] == members[j + 1]);
        }
        lemma_members_are_found_by_name(rest, name, i - 1);
    }
}

/// Only an object has members, only a string has text and only a list has items.
pub proof fn lemma_what_documents_have(doc: JsonTree, name: Seq<char>)
    ensures
        !(doc is Object) ==> doc.get(name) is None,
        doc.text_of(name) is Some <==> (doc.get(name) matches Some(JsonTree::Text(_))),
        doc.get(name) matches Some(JsonTree::Text(s)) ==> doc.text_of(name) == Some(s),
        doc.items_of(name) is Some <==> (doc.get(name) matches Some(JsonTree::List(_))),
        doc.get(name) matches Some(JsonTree::List(items)) ==> doc.items_of(name) == Some(items),
{
}

/// A document says what it holds: its text, its number, its items one to one and
/// in order, and its members under their names.
pub proof fn lemma_documents_say_what_they_hold(doc: Json, i: int)
    ensures
        doc matches Json::Text(s) ==> doc@ == JsonTree::Text(s@),
        doc matches Json::Number(n) ==> doc@ == JsonTree::Number(n),
        doc matches Json::Bool(b) ==> doc@ == JsonTree::Bool(b),
        doc is Null ==> doc@ is Null,
        doc matches Json::List(items) ==> (doc@ matches JsonTree::List(said) && said.len()
            == items@.len() && (0 <= i < items@.len() ==> said[i] == items@[i]@)),
        doc matches Json::Object(members) ==> (doc@ matches JsonTree::Object(said) && said.len()
            == members@.len() && (0 <= i < members@.len() ==> said[i] == (
            members@[i].0@,
            members@[i].1@,
        ))),
{
}

} // verus!
