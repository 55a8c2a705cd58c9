//! Genre names: which tags of a work count as genres, and how they are written.
use vstd::prelude::*;
use vstd::seq_lib::*;
use vstd::string::*;

use crate::client::{head, Tag};
use crate::consts::{MAX_GENRES, MIN_TAG_VOTES};
use crate::rank::{
    lemma_ranked_is_in_order, lemma_ranked_keeps_the_items, lemma_ranking_ignores_the_input_order,
    rank_all, rank_upto, ranked, ranks, Rank, Ranked,
};
use crate::text::{blank, chars_of, is_blank, text_before, texts, trim, trimmed};

verus! {

// ---------------------------------------------------------------------------
// Title case
// ---------------------------------------------------------------------------

/// The upper-case form of a character: what `char::to_uppercase` yields.
pub uninterp spec fn upper_case(c: char) -> Seq<char>;

/// Does a character satisfy `char::is_alphanumeric`?
pub uninterp spec fn alphanumeric(c: char) -> bool;

/// The capital of an ASCII small letter; any other character as it is.
pub open spec fn ascii_upper(c: char) -> char {
    if 'a' <= c <= 'z' {
        (c as int - 32) as char
    } else {
        c
    }
}

/// An ASCII letter or digit.
pub open spec fn ascii_alphanumeric(c: char) -> bool {
    'a' <= c <= 'z' || 'A' <= c <= 'Z' || '0' <= c <= '9'
}

/// Is every character of a text ASCII?
pub open spec fn all_ascii(s: Seq<char>) -> bool {
    forall|i: int| 0 <= i < s.len() ==> (#[trigger] s[i]) as int <= 0x7f
}

/// `char::to_uppercase`: the upper-case mapping of a character, as a string.
/// Of an ASCII character it is the one character that Unicode maps it to, which
/// is the capital of a small letter and the character itself otherwise. What it
/// is of other characters is not stated.
#[verifier::external_body]
fn uppercase(c: char) -> (s: String)
    ensures
        s@ == upper_case(c),
        c as int <= 0x7f ==> s@ == seq![ascii_upper(c)],
{
    c.to_uppercase().to_string()
}

/// `char::is_alphanumeric`: whether Unicode calls a character alphabetic or
/// numeric. Of the ASCII characters those are the letters and the digits. Which
/// of the others are is not stated.
pub assume_specification[ char::is_alphanumeric ](c: char) -> (b: bool)
    ensures
        b == alphanumeric(c),
        c as int <= 0x7f ==> b == ascii_alphanumeric(c),
;

/// What a character contributes to a title: its upper-case form, and whether a
/// word goes on behind it.
pub struct Letter {
    pub upper: String,
    pub in_word: bool,
}

/// The form a character takes: the upper-case one where a word begins.
pub open spec fn letter_form(chars: Seq<char>, letters: Seq<Letter>, i: int) -> Seq<char> {
    if i == 0 || !letters[i - 1].in_word {
        letters[i].upper@
    } else {
        seq![chars[i]]
    }
}

/// The characters, each one that begins a word in its upper-case form.
pub open spec fn capitalised(chars: Seq<char>, letters: Seq<Letter>) -> Seq<char>
    decreases chars.len(),
{
    if chars.len() == 0 {
        Seq::empty()
    } else {
        capitalised(chars.drop_last(), letters) + letter_form(chars, letters, chars.len() - 1)
    }
}

/// Sets characters one after the other, each one that begins a word in its
/// upper-case form.
pub fn capitalise(chars: &Vec<char>, letters: &Vec<Letter>) -> (out: String)
    requires
        chars@.len() == letters@.len(),
    ensures
        out@ == capitalised(chars@, letters@),
{
    let mut out = String::new();
    let mut i: usize = 0;
    while i < chars.len()
        invariant
            i <= chars@.len(),
            chars@.len() == letters@.len(),
            out@ == capitalised(chars@.take(i as int), letters@),
        decreases chars@.len() - i,
    {
        let ghost done = chars@.take(i as int);
        let ghost more = chars@.take(i + 1);
        assert(more.drop_last() =~= done);
        assert(more[i as int] == chars@[i as int]);
        let begins = i == 0 || !letters[i - 1].in_word;
        if begins {
            out.append(letters[i].upper.as_str());
        } else {
            out.push(chars[i]);
            assert(out@ =~= capitalised(done, letters@) + seq![chars@[i as int]]);
        }
        i += 1;
    }
    assert(chars@.take(i as int) =~= chars@);
    out
}

/// Does a word begin at this place?
pub open spec fn word_begins(s: Seq<char>, i: int) -> bool {
    i == 0 || !alphanumeric(s[i - 1])
}

/// `s` in title case: upper case behind every character that is not
/// alphanumeric, and at the beginning.
pub open spec fn titled(s: Seq<char>) -> Seq<char>
    decreases s.len(),
{
    if s.len() == 0 {
        Seq::empty()
    } else {
        titled(s.drop_last()) + if word_begins(s, s.len() - 1) {
            upper_case(s.last())
        } else {
            seq![s.last()]
        }
    }
}

/// An ASCII text in title case.
pub open spec fn ascii_titled(s: Seq<char>) -> Seq<char> {
    Seq::new(
        s.len(),
        |i: int|
            if i == 0 || !ascii_alphanumeric(s[i - 1]) {
                ascii_upper(s[i])
            } else {
                s[i]
            },
    )
}

/// The letters of a text say what the text is in title case.
proof fn lemma_titled(s: Seq<char>, letters: Seq<Letter>)
    requires
        s.len() <= letters.len(),
        forall|i: int|
            0 <= i < s.len() ==> {
                &&& (#[trigger] letters[i]).upper@ == upper_case(s[i])
                &&& letters[i].in_word == alphanumeric(s[i])
            },
    ensures
        capitalised(s, letters) == titled(s),
    decreases s.len(),
{
    if s.len() > 0 {
        let init = s.drop_last();
        assert forall|i: int| 0 <= i < init.len() implies {
            &&& (#[trigger] letters[i]).upper@ == upper_case(init[i])
            &&& letters[i].in_word == alphanumeric(init[i])
        } by {
            assert(letters[i].upper@ == upper_case(s[i]));
        }
        lemma_titled(init, letters);
        assert(letters[s.len() - 1].upper@ == upper_case(s.last()));
    }
}

/// The letters of an ASCII text say what it is in title case.
proof fn lemma_ascii_titled(s: Seq<char>, letters: Seq<Letter>)
    requires
        s.len() <= letters.len(),
        forall|i: int|
            0 <= i < s.len() ==> {
                &&& (#[trigger] letters[i]).upper@ == seq![ascii_upper(s[i])]
                &&& letters[i].in_word == ascii_alphanumeric(s[i])
            },
    ensures
        capitalised(s, letters) == ascii_titled(s),
    decreases s.len(),
{
    if s.len() > 0 {
        let init = s.drop_last();
        assert forall|i: int| 0 <= i < init.len() implies {
            &&& (#[trigger] letters[i]).upper@ == seq![ascii_upper(init[i])]
            &&& letters[i].in_word == ascii_alphanumeric(init[i])
        } by {
            assert(letters[i].upper@ == seq![ascii_upper(s[i])]);
        }
        lemma_ascii_titled(init, letters);
        assert(letters[s.len() - 1].upper@ == seq![ascii_upper(s.last())]);
    }
    assert(capitalised(s, letters) =~= ascii_titled(s));
}

/// Title-cases a tag: MusicBrainz tags are lower case by convention, and every
/// other writer of the genre key-set publishes display-cased names.
///
/// A word begins behind **any** character that is not alphanumeric, not just
/// behind a space: the name is the key-set member itself, so `R&b` and `R&B`
/// would be two members of one set.
pub fn title_case(s: &str) -> (out: String)
    ensures
        out@ == titled(s@),
        all_ascii(s@) ==> out@ == ascii_titled(s@),
{
    let chars = chars_of(s);
    let mut letters: Vec<Letter> = Vec::new();
    let mut i: usize = 0;
    while i < chars.len()
        invariant
            i <= chars.len(),
            chars@ == s@,
            letters@.len() == i,
            forall|j: int|
                0 <= j < i ==> {
                    &&& (#[trigger] letters@[j]).upper@ == upper_case(s@[j])
                    &&& letters@[j].in_word == alphanumeric(s@[j])
                    &&& s@[j] as int <= 0x7f ==> {
                        &&& letters@[j].upper@ == seq![ascii_upper(s@[j])]
                        &&& letters@[j].in_word == ascii_alphanumeric(s@[j])
                    }
                },
        decreases chars.len() - i,
    {
        let c = chars[i];
        let letter = Letter { upper: uppercase(c), in_word: c.is_alphanumeric() };
        letters.push(letter);
        i += 1;
    }
    proof {
        lemma_titled(s@, letters@);
        if all_ascii(s@) {
            lemma_ascii_titled(s@, letters@);
        }
    }
    capitalise(&chars, &letters)
}

// ---------------------------------------------------------------------------
// Genres
// ---------------------------------------------------------------------------

impl Ranked for Tag {
    open spec fn rank(&self) -> Rank {
        Rank { first: self.count as int, second: 0, label: self.name@ }
    }

    fn first_figure(&self) -> (n: i64) {
        self.count
    }

    fn second_figure(&self) -> (n: i64) {
        0
    }

    fn label(&self) -> (s: &str) {
        self.name.as_str()
    }
}

/// Does a list name any genre at all?
pub open spec fn names_any(tags: Seq<Tag>) -> bool {
    exists|i: int| 0 <= i < tags.len() && !is_blank((#[trigger] tags[i]).name@)
}

/// A tag that counts as a genre: it has a name and enough votes.
pub open spec fn voted(tag: Tag) -> Option<Tag> {
    if !is_blank(tag.name@) && tag.count >= MIN_TAG_VOTES {
        Some(tag)
    } else {
        None
    }
}

/// The tags that count as genres, most votes first.
pub open spec fn genre_ranking(genres: Seq<Tag>, tags: Seq<Tag>) -> Seq<Tag> {
    let source = if names_any(genres) {
        genres
    } else {
        tags
    };
    ranked(source.filter_map(|t: Tag| voted(t)))
}

/// The genre names of a work.
pub open spec fn genre_list(genres: Seq<Tag>, tags: Seq<Tag>) -> Seq<Seq<char>> {
    head(genre_ranking(genres, tags), MAX_GENRES as int).map_values(
        |t: Tag| titled(trimmed(t.name@)),
    )
}

fn any_named(tags: &[Tag]) -> (b: bool)
    ensures
        b == names_any(tags@),
{
    let mut i: usize = 0;
    while i < tags.len()
        invariant
            i <= tags.len(),
            forall|j: int| 0 <= j < i ==> is_blank((#[trigger] tags@[j]).name@),
        decreases tags.len() - i,
    {
        if !blank(tags[i].name.as_str()) {
            return true;
        }
        i += 1;
    }
    false
}

fn voted_tags(tags: &[Tag]) -> (out: Vec<Tag>)
    ensures
        out@ == tags@.filter_map(|t: Tag| voted(t)),
{
    let ghost pick = |t: Tag| voted(t);
    let mut out: Vec<Tag> = Vec::new();
    let mut i: usize = 0;
    while i < tags.len()
        invariant
            i <= tags.len(),
            pick == (|t: Tag| voted(t)),
            out@ == tags@.take(i as int).filter_map(pick),
        decreases tags.len() - i,
    {
        proof {
            tags@.lemma_filter_map_take_succ(pick, i as int);
        }
        let t = &tags[i];
        if !blank(t.name.as_str()) && t.count >= MIN_TAG_VOTES {
            let copy = Tag { name: t.name.clone(), count: t.count };
            assert(copy == tags@[i as int]);
            out.push(copy);
        }
        assert(out@ =~= tags@.take(i + 1).filter_map(pick));
        i += 1;
    }
    assert(tags@.take(i as int) =~= tags@);
    out
}

/// Picks the genre names from a MusicBrainz tag and genre list.
///
/// `genres` (curated) wins outright when it names any; `tags` (open user input)
/// is the fallback. They are never merged: a curated list that says "Jazz"
/// should not be diluted by a tag list that also says "cool".
pub fn genre_names(genres: &[Tag], tags: &[Tag]) -> (out: Vec<String>)
    ensures
        texts(out@) == genre_list(genres@, tags@),
        forall|i: int|
            0 <= i < out@.len() && all_ascii(
                trimmed((#[trigger] genre_ranking(genres@, tags@)[i]).name@),
            ) ==> out@[i]@ == ascii_titled(trimmed(genre_ranking(genres@, tags@)[i].name@)),
{
    let voted = if any_named(genres) {
        voted_tags(genres)
    } else {
        voted_tags(tags)
    };
    let order = rank_all(voted);
    let ghost top = head(order@, MAX_GENRES as int);
    let ghost name = |t: Tag| titled(trimmed(t.name@));
    let mut out: Vec<String> = Vec::new();
    let mut i: usize = 0;
    assert(texts(out@) =~= top.take(0).map_values(name));
    while i < order.len() && i < MAX_GENRES
        invariant
            i <= top.len(),
            top == head(order@, MAX_GENRES as int),
            name == (|t: Tag| titled(trimmed(t.name@))),
            texts(out@) == top.take(i as int).map_values(name),
            out@.len() == i,
            forall|j: int|
                0 <= j < i && all_ascii(trimmed((#[trigger] order@[j]).name@)) ==> out@[j]@
                    == ascii_titled(trimmed(order@[j].name@)),
        decreases order.len() - i,
    {
        let ghost before = out@;
        out.push(title_case(trim(order[i].name.as_str())));
        assert(texts(out@) =~= texts(before).push(name(top[i as int])));
        assert(top.take(i + 1).map_values(name) =~= top.take(i as int).map_values(name).push(
            name(top[i as int]),
        ));
        i += 1;
    }
    assert(top.take(i as int) =~= top);
    out
}

/// A work has no more genres than the ceiling.
pub proof fn lemma_genres_are_capped(genres: Seq<Tag>, tags: Seq<Tag>)
    ensures
        genre_list(genres, tags).len() <= MAX_GENRES,
{
}

/// A curated list wins outright: where it names any genre, the tags make no
/// difference.
pub proof fn lemma_curated_genres_win(genres: Seq<Tag>, tags: Seq<Tag>, other_tags: Seq<Tag>)
    requires
        names_any(genres),
    ensures
        genre_list(genres, tags) == genre_list(genres, other_tags),
{
}

/// How often a tag is among those that count as genres.
proof fn lemma_voted_count(tags: Seq<Tag>, tag: Tag)
    ensures
        tags.filter_map(|t: Tag| voted(t)).to_multiset().count(tag) == (if voted(tag) is Some {
            tags.to_multiset().count(tag)
        } else {
            0
        }),
    decreases tags.len(),
{
    broadcast use group_to_multiset_ensures;

    let pick = |t: Tag| voted(t);
    if tags.len() > 0 {
        let init = tags.drop_last();
        lemma_voted_count(init, tag);
        assert(tags =~= init.push(tags.last()));
        let done = init.filter_map(pick);
        if let Some(t) = voted(tags.last()) {
            assert(tags.filter_map(pick) =~= done.push(t));
        }
    }
}

/// The genres of a work are the same whatever order its tags came in.
pub proof fn lemma_genres_ignore_the_input_order(
    genres: Seq<Tag>,
    other_genres: Seq<Tag>,
    tags: Seq<Tag>,
    other_tags: Seq<Tag>,
)
    requires
        genres.to_multiset() == other_genres.to_multiset(),
        tags.to_multiset() == other_tags.to_multiset(),
    ensures
        genre_list(genres, tags) == genre_list(other_genres, other_tags),
{
    if names_any(genres) {
        lemma_same_names(genres, other_genres);
    }
    if names_any(other_genres) {
        lemma_same_names(other_genres, genres);
    }
    let (a, b) = if names_any(genres) {
        (genres, other_genres)
    } else {
        (tags, other_tags)
    };
    let pick = |t: Tag| voted(t);
    let x = a.filter_map(pick);
    let y = b.filter_map(pick);
    assert(x.to_multiset() =~= y.to_multiset()) by {
        assert forall|t: Tag| x.to_multiset().count(t) == y.to_multiset().count(t) by {
            lemma_voted_count(a, t);
            lemma_voted_count(b, t);
        }
    }
    lemma_ranking_ignores_the_input_order(x, y);
    let m = ranked(x);
    let n = ranked(y);
    assert(ranks(m) == ranks(n));
    assert(m.len() == ranks(m).len() && n.len() == ranks(n).len());
    assert forall|i: int| 0 <= i < m.len() implies m[i].name@ == n[i].name@ by {
        assert(ranks(m)[i].label == m[i].name@);
        assert(ranks(n)[i].label == n[i].name@);
    }
    assert(genre_list(genres, tags) =~= genre_list(other_genres, other_tags));
}

/// A list names a genre wherever one with the same tags does.
proof fn lemma_same_names(tags: Seq<Tag>, other: Seq<Tag>)
    requires
        tags.to_multiset() == other.to_multiset(),
        names_any(tags),
    ensures
        names_any(other),
{
    broadcast use group_to_multiset_ensures;

    let i = choose|i: int| 0 <= i < tags.len() && !is_blank((#[trigger] tags[i]).name@);
    assert(tags.contains(tags[i]));
    assert(tags.to_multiset().count(tags[i]) > 0);
    assert(other.contains(tags[i]));
}

/// Does a tag count as a genre: has it a name, and anybody's vote?
pub open spec fn counts(tag: Tag) -> bool {
    !is_blank(tag.name@) && tag.count >= 1
}

/// Does one tag go before another: has it more votes, or as many and the name
/// that comes first?
pub open spec fn goes_before(a: Tag, b: Tag) -> bool {
    ||| a.count > b.count
    ||| a.count == b.count && (a.name@ == b.name@ || text_before(a.name@, b.name@))
}

/// A list of tags, parted in two: `top` are the six that go first of those that
/// count, or all of them where there are no more, and `rest` the others.
pub open spec fn parted(source: Seq<Tag>, top: Seq<Tag>, rest: Seq<Tag>) -> bool {
    &&& (top + rest).to_multiset() == source.filter(|t: Tag| counts(t)).to_multiset()
    &&& top.len() <= 6
    &&& rest.len() > 0 ==> top.len() == 6
    &&& forall|i: int, j: int|
        0 <= i < j < (top + rest).len() ==> goes_before(
            #[trigger] (top + rest)[i],
            #[trigger] (top + rest)[j],
        )
}

/// Are these the names, in title case, of the tags that go first of a list?
pub open spec fn names_the_best(names: Seq<Seq<char>>, source: Seq<Tag>) -> bool {
    exists|top: Seq<Tag>, rest: Seq<Tag>| #[trigger]
        parted(source, top, rest) && names.len() == top.len() && forall|i: int|
            0 <= i < top.len() ==> #[trigger] names[i] == titled(trimmed(top[i].name@))
}

proof fn lemma_voted_are_those_that_count(tags: Seq<Tag>)
    ensures
        tags.filter_map(|t: Tag| voted(t)) == tags.filter(|t: Tag| counts(t)),
    decreases tags.len(),
{
    reveal(Seq::filter);
    if tags.len() > 0 {
        lemma_voted_are_those_that_count(tags.drop_last());
        assert(tags.filter_map(|t: Tag| voted(t)) =~= tags.filter(|t: Tag| counts(t)));
    } else {
        assert(tags.filter_map(|t: Tag| voted(t)) =~= tags.filter(|t: Tag| counts(t)));
    }
}

/// The genres of a work are the names of its most voted genres where its curated
/// list names any, and of its most voted tags where it names none. There are
/// some wherever anything counts.
pub proof fn lemma_genres_are_the_most_voted(genres: Seq<Tag>, tags: Seq<Tag>)
    ensures
        (exists|i: int| 0 <= i < genres.len() && !is_blank((#[trigger] genres[i]).name@))
            ==> names_the_best(genre_list(genres, tags), genres),
        (forall|i: int| 0 <= i < genres.len() ==> is_blank((#[trigger] genres[i]).name@))
            ==> names_the_best(genre_list(genres, tags), tags),
        forall|i: int|
            0 <= i < genres.len() && counts(#[trigger] genres[i]) ==> genre_list(
                genres,
                tags,
            ).len() > 0,
        forall|i: int|
            0 <= i < tags.len() && counts(#[trigger] tags[i]) && !names_any(genres) ==> genre_list(
                genres,
                tags,
            ).len() > 0,
{
    let source = if names_any(genres) {
        genres
    } else {
        tags
    };
    let all = source.filter(|t: Tag| counts(t));
    lemma_voted_are_those_that_count(source);
    let row = ranked(all);
    lemma_ranked_is_in_order(all);
    lemma_ranked_keeps_the_items(all);
    let top = head(row, 6);
    let rest = row.skip(top.len() as int);
    assert(top + rest =~= row);
    assert forall|i: int, j: int| 0 <= i < j < (top + rest).len() implies goes_before(
        #[trigger] (top + rest)[i],
        #[trigger] (top + rest)[j],
    ) by {
        assert(rank_upto(row[i].rank(), row[j].rank()));
    }
    assert(parted(source, top, rest));
    let names = genre_list(genres, tags);
    assert forall|i: int| 0 <= i < top.len() implies #[trigger] names[i] == titled(
        trimmed(top[i].name@),
    ) by {}
    assert(names_the_best(names, source));
    assert forall|i: int| 0 <= i < source.len() && counts(#[trigger] source[i]) implies names.len()
        > 0 by {
        source.lemma_filter_contains(|t: Tag| counts(t), i);
        assert(all.len() > 0);
    }
    assert forall|i: int| 0 <= i < genres.len() && counts(#[trigger] genres[i]) implies names.len()
        > 0 by {
        assert(names_any(genres));
        assert(counts(source[i]));
    }
    assert forall|i: int|
        0 <= i < tags.len() && counts(#[trigger] tags[i]) && !names_any(
            genres,
        ) implies names.len() > 0 by {
        assert(counts(source[i]));
    }
}

/// Setting one more character behind a text sets it in upper case where it
/// begins a word, and as it is inside one, and changes nothing before it.
pub proof fn lemma_title_case_grows(s: Seq<char>, c: char)
    ensures
        titled(Seq::empty()) == Seq::<char>::empty(),
        s.len() > 0 && alphanumeric(s.last()) ==> titled(s.push(c)) == titled(s).push(c),
        s.len() == 0 || !alphanumeric(s.last()) ==> titled(s.push(c)) == titled(s) + upper_case(c),
{
    assert(s.push(c).drop_last() =~= s);
    if s.len() > 0 {
        assert(s.push(c)[s.len() - 1] == s.last());
    }
    assert(titled(s) + seq![c] =~= titled(s).push(c));
}

/// An ASCII text in title case has a capital behind the beginning and behind
/// every character that is no letter and no digit, and is the same elsewhere.
pub proof fn lemma_ascii_title_case(s: Seq<char>, i: int)
    requires
        0 <= i < s.len(),
    ensures
        ascii_titled(s).len() == s.len(),
        ({
            let begins = i == 0 || !('a' <= s[i - 1] <= 'z' || 'A' <= s[i - 1] <= 'Z' || '0' <= s[i
                - 1] <= '9');
            let c = ascii_titled(s)[i];
            &&& begins && 'a' <= s[i] <= 'z' ==> c as int == s[i] as int - 32
            &&& !(begins && 'a' <= s[i] <= 'z') ==> c == s[i]
        }),
{
}

} // verus!
