//! What holds of the requests and of what is made of the answers.
use vstd::prelude::*;
use vstd::string::*;
use vstd::utf8::*;

use crate::client::{
    canonical_release, carries_tracks, clamped, completed_date, digits_at, escaped, escaped_bytes,
    found_names, found_relations, found_release, head, hex_digit, is_unreserved, joined_url,
    lookup_query, lookup_step, named_artist, named_group, names_in, opt_pairs, opt_texts, pair_texts,
    ranked_answer, relation, relations_in, retry_secs, search_query, search_step, settles,
    tag_query, url_encoded, with_aliases, with_name, year_value, Artist, LookedUp, Release,
    ReleaseGroup, Settled, Step,
};
use crate::consts::{
    KEPT_ARTISTS, KEPT_ARTIST_NAMES, KEPT_ARTIST_RELATIONS, KEPT_BY_ARTIST, KEPT_BY_TAG,
    KEPT_RELEASE_GROUPS,
};
use crate::distinct::{how_many, lemma_picked_at, lemma_picked_count};
use crate::json::{text_tree, JsonTree};
use crate::number::{all_digits, decimal, digits_value, is_digit, unsigned_value};
use crate::rank::{lemma_ranked_is_in_order, rank_upto, ranked, Ranked};
use crate::text::{
    has_prefix, is_blank, is_white_space, lemma_trimmed_twice, lowered, text_before, texts,
    trim_left, trim_right, trimmed,
};

verus! {

/// A date of the full form `YYYY-MM-DD`.
pub open spec fn full_date(d: Seq<char>) -> bool {
    &&& d.len() == 10
    &&& digits_at(d, 0, 4) && d[4] == '-' && digits_at(d, 5, 7) && d[7] == '-' && digits_at(
        d,
        8,
        10,
    )
}

/// A text with something other than white space at both ends is trimmed.
proof fn lemma_nothing_to_trim(s: Seq<char>)
    requires
        s.len() > 0,
        !is_white_space(s.first()),
        !is_white_space(s.last()),
    ensures
        trimmed(s) == s,
{
    assert(trim_left(s) == s);
    assert(trim_right(s) == s);
}

/// A completed date is a full date that begins with what was given, and
/// completing it again changes nothing.
pub proof fn lemma_completed_dates_are_full(raw: Seq<char>)
    ensures
        completed_date(raw) matches Some(d) ==> {
            &&& full_date(d)
            &&& has_prefix(d, trimmed(raw))
            &&& completed_date(d) == Some(d)
        },
{
    reveal_strlit("-01-01");
    reveal_strlit("-01");
    if let Some(d) = completed_date(raw) {
        let date = trimmed(raw);
        assert(d.take(date.len() as int) =~= date);
        assert forall|i: int| 0 <= i < date.len() implies d[i] == date[i] by {
            assert(d.take(date.len() as int)[i] == date[i]);
        }
        if date.len() == 4 {
            assert(d[4] == '-' && d[5] == '0' && d[6] == '1' && d[7] == '-' && d[8] == '0' && d[9]
                == '1');
        } else if date.len() == 7 {
            assert(d[7] == '-' && d[8] == '0' && d[9] == '1');
        }
        assert(is_digit(d[0]) && is_digit(d[9]));
        lemma_nothing_to_trim(d);
    }
}

/// A work with a date has a year, and it is the year of the completed date.
pub proof fn lemma_dated_works_have_a_year(raw: Seq<char>)
    ensures
        completed_date(raw) matches Some(d) ==> year_value(raw) == Some(digits_value(d.take(4))),
{
    lemma_completed_dates_are_full(raw);
    if let Some(d) = completed_date(raw) {
        let date = trimmed(raw);
        let y = date.take(4);
        assert(d.take(4) =~= y) by {
            assert(d.take(date.len() as int) == date);
            assert forall|i: int| 0 <= i < 4 implies d[i] == date[i] by {
                assert(d.take(date.len() as int)[i] == date[i]);
            }
        }
        assert forall|i: int| 0 <= i < y.len() implies is_digit(#[trigger] y[i]) by {
            assert(is_digit(date[i]));
        }
        assert(is_digit(y[0]));
        assert(all_digits(y));
        reveal_with_fuel(digits_value, 5);
        assert(is_digit(y[1]) && is_digit(y[2]) && is_digit(y[3]));
        assert(y.drop_last().len() == 3);
        assert(digits_value(y) <= 9999);
    }
}

/// The characters of an escaped text: the unreserved ones, and the percent sign
/// that begins an escape.
pub open spec fn is_safe(c: char) -> bool {
    c == '%' || (c as int <= 0x7f && is_unreserved(c as u8))
}

/// An escaped text holds nothing that a query string, or the search syntax
/// behind it, could read as its own.
pub proof fn lemma_escaped_text_is_safe(s: Seq<char>)
    ensures
        forall|i: int| 0 <= i < url_encoded(s).len() ==> is_safe(#[trigger] url_encoded(s)[i]),
{
    lemma_escaped_bytes_are_safe(encode_utf8(s));
}

proof fn lemma_escaped_bytes_are_safe(bytes: Seq<u8>)
    ensures
        forall|i: int|
            0 <= i < escaped_bytes(bytes).len() ==> is_safe(#[trigger] escaped_bytes(bytes)[i]),
    decreases bytes.len(),
{
    if bytes.len() > 0 {
        let init = bytes.drop_last();
        lemma_escaped_bytes_are_safe(init);
        let b = bytes.last();
        let e = escaped(b);
        assert forall|i: int| 0 <= i < e.len() implies is_safe(#[trigger] e[i]) by {
            if !is_unreserved(b) && i > 0 {
                let n = if i == 1 {
                    b as int / 16
                } else {
                    b as int % 16
                };
                assert(0 <= n < 16);
                assert(e[i] == hex_digit(n));
            }
        }
        let all = escaped_bytes(bytes);
        let rest = escaped_bytes(init);
        assert forall|i: int| 0 <= i < all.len() implies is_safe(#[trigger] all[i]) by {
            if i < rest.len() {
                assert(all[i] == rest[i]);
            } else {
                assert(all[i] == e[i - rest.len()]);
            }
        }
    }
}

/// Escaping loses nothing: texts that are escaped alike are the same.
pub proof fn lemma_escaping_is_lossless(a: Seq<char>, b: Seq<char>)
    requires
        url_encoded(a) == url_encoded(b),
    ensures
        a == b,
{
    lemma_escaped_bytes_differ(encode_utf8(a), encode_utf8(b));
    encode_utf8_decode_utf8(a);
    encode_utf8_decode_utf8(b);
}

/// The escape of the first byte stands first.
proof fn lemma_escaped_front(bytes: Seq<u8>)
    requires
        bytes.len() > 0,
    ensures
        escaped_bytes(bytes) == escaped(bytes.first()) + escaped_bytes(bytes.drop_first()),
    decreases bytes.len(),
{
    if bytes.len() == 1 {
        assert(bytes.drop_last() =~= Seq::empty());
        assert(bytes.drop_first() =~= Seq::empty());
        assert(escaped_bytes(bytes.drop_last()) =~= Seq::empty());
        assert(escaped_bytes(bytes.drop_first()) =~= Seq::empty());
        assert(escaped_bytes(bytes) =~= escaped(bytes.first()) + escaped_bytes(
            bytes.drop_first(),
        ));
    } else {
        lemma_escaped_front(bytes.drop_last());
        assert(bytes.drop_last().drop_first() =~= bytes.drop_first().drop_last());
        assert(escaped_bytes(bytes) =~= escaped(bytes.first()) + escaped_bytes(
            bytes.drop_first(),
        ));
    }
}

proof fn lemma_escaped_bytes_differ(a: Seq<u8>, b: Seq<u8>)
    requires
        escaped_bytes(a) == escaped_bytes(b),
    ensures
        a == b,
    decreases a.len(),
{
    if a.len() == 0 && b.len() == 0 {
        assert(a =~= b);
    } else if a.len() == 0 {
        lemma_escaped_front(b);
        assert(escaped_bytes(b).len() > 0);
    } else if b.len() == 0 {
        lemma_escaped_front(a);
        assert(escaped_bytes(a).len() > 0);
    } else {
        lemma_escaped_front(a);
        lemma_escaped_front(b);
        let all = escaped_bytes(a);
        let x = a.first();
        let y = b.first();
        let ex = escaped(x);
        let ey = escaped(y);
        assert(all[0] == ex[0]);
        assert(all[0] == ey[0]);
        assert(is_unreserved(x) == is_unreserved(y));
        if is_unreserved(x) {
            assert(x == y);
        } else {
            assert(all[1] == ex[1] && all[2] == ex[2]);
            assert(all[1] == ey[1] && all[2] == ey[2]);
            lemma_hex_digits_differ(x as int / 16, y as int / 16);
            lemma_hex_digits_differ(x as int % 16, y as int % 16);
            assert(x == y);
        }
        assert(ex =~= ey);
        assert(all.skip(ex.len() as int) =~= escaped_bytes(a.drop_first()));
        assert(all.skip(ey.len() as int) =~= escaped_bytes(b.drop_first()));
        lemma_escaped_bytes_differ(a.drop_first(), b.drop_first());
        assert(a =~= seq![x] + a.drop_first());
        assert(b =~= seq![y] + b.drop_first());
    }
}

proof fn lemma_hex_digits_differ(m: int, n: int)
    requires
        0 <= m < 16,
        0 <= n < 16,
        hex_digit(m) == hex_digit(n),
    ensures
        m == n,
{
}

/// The names of an artist: none is blank, and no two are the same but for case.
pub open spec fn distinct_names(names: Seq<Seq<char>>) -> bool {
    &&& forall|i: int|
        0 <= i < names.len() ==> (#[trigger] names[i]).len() > 0 && trimmed(names[i]) == names[i]
    &&& forall|i: int, j: int|
        0 <= i < j < names.len() ==> lowered(#[trigger] names[i]) != lowered(#[trigger] names[j])
}

proof fn lemma_with_name(names: Seq<Seq<char>>, name: Option<Seq<char>>)
    requires
        distinct_names(names),
    ensures
        distinct_names(with_name(names, name)),
{
    if let Some(raw) = name {
        lemma_trimmed_twice(raw);
    }
}

proof fn lemma_with_aliases(names: Seq<Seq<char>>, aliases: Seq<JsonTree>)
    requires
        distinct_names(names),
    ensures
        distinct_names(with_aliases(names, aliases)),
    decreases aliases.len(),
{
    if aliases.len() > 0 {
        lemma_with_aliases(names, aliases.drop_last());
        lemma_with_name(
            with_aliases(names, aliases.drop_last()),
            aliases.last().text_of("name"@),
        );
    }
}

/// Every name an artist is searched under is a name, and none is searched
/// twice.
pub proof fn lemma_artist_names_are_distinct(artist: JsonTree)
    ensures
        distinct_names(names_in(artist)),
{
    let first = with_name(Seq::empty(), artist.text_of("name"@));
    lemma_with_name(Seq::empty(), artist.text_of("name"@));
    lemma_with_name(first, artist.text_of("sort-name"@));
    if let Some(aliases) = artist.items_of("aliases"@) {
        lemma_with_aliases(with_name(first, artist.text_of("sort-name"@)), aliases);
    }
}

/// The canonical release carries tracks, and no release before it does; there
/// is one wherever any release carries tracks.
pub proof fn lemma_canonical_release_is_the_first(releases: Seq<Release>, i: int)
    requires
        0 <= i < releases.len(),
        carries_tracks(releases[i]),
        forall|j: int| 0 <= j < i ==> !carries_tracks(#[trigger] releases[j]),
    ensures
        canonical_release(releases) == Some(releases[i]),
    decreases releases.len(),
{
    if i > 0 {
        assert(!carries_tracks(releases[0]));
        let rest = releases.drop_first();
        assert(rest[i - 1] == releases[i]);
        assert forall|j: int| 0 <= j < i - 1 implies !carries_tracks(#[trigger] rest[j]) by {
            assert(rest[j] == releases[j + 1]);
        }
        lemma_canonical_release_is_the_first(rest, i - 1);
    }
}

/// Search hits are in the order of their relevance; within one relevance, in
/// that of how often the work was released; and then in that of their ids.
pub proof fn lemma_score_then_releases_then_id(hits: Seq<ReleaseGroup>, i: int, j: int)
    requires
        0 <= i < j < hits.len(),
    ensures
        ({
            let a = ranked(hits)[i];
            let b = ranked(hits)[j];
            ||| a.score > b.score
            ||| a.score == b.score && a.count > b.count
            ||| a.score == b.score && a.count == b.count && (text_before(a.id@, b.id@) || a.id@
                == b.id@)
        }),
{
    lemma_ranked_is_in_order(hits);
    assert(rank_upto(
        ranked(hits)[i].rank(),
        ranked(hits)[j].rank(),
    ));
}

/// A search that was answered is not asked again: it shows its first hits, and
/// a later one for the same shows as many of the same hits as it wants, with no
/// request.
pub proof fn lemma_a_search_is_asked_once<T>(
    answered: Seq<T>,
    limit: int,
    first: Settled<T>,
    kept: Vec<T>,
    later_limit: int,
    later: Step<Vec<T>>,
    request: Seq<char>,
)
    requires
        answered.len() > 0,
        settles(first, Some(answered), limit),
        first.kept() == Some(kept@),
        search_step(later, Some(kept), later_limit, request),
    ensures
        first.shown() == head(answered, limit),
        later matches Step::Done(page) && page@ == head(answered, later_limit),
{
}

/// A ranked search that was answered is not asked again: it shows the best of
/// its hits, and so does a later one, with no request and however many it
/// wants.
pub proof fn lemma_a_ranked_search_is_asked_once(
    answered: Vec<ReleaseGroup>,
    limit: int,
    first: Settled<ReleaseGroup>,
    kept: Vec<ReleaseGroup>,
    later_limit: int,
    later: Step<Vec<ReleaseGroup>>,
    request: Seq<char>,
)
    requires
        answered@.len() > 0,
        settles(first, ranked_answer(Some(answered)), limit),
        first.kept() == Some(kept@),
        search_step(later, Some(kept), later_limit, request),
    ensures
        first.shown() == head(ranked(answered@), limit),
        later matches Step::Done(page) && page@ == head(ranked(answered@), later_limit),
{
    lemma_ranked_is_in_order(answered@);
    lemma_a_search_is_asked_once(
        ranked(answered@),
        limit,
        first,
        kept,
        later_limit,
        later,
        request,
    );
}

/// A search that was answered with something keeps it, and one that was not
/// answered, or with nothing, shows nothing and keeps nothing: it is asked
/// again.
pub proof fn lemma_only_an_answer_is_kept<T>(
    settled: Settled<T>,
    answered: Option<Seq<T>>,
    limit: nat,
)
    requires
        settles(settled, answered, limit as int),
    ensures
        settled.kept() is Some <==> (answered matches Some(hits) && hits.len() > 0),
        settled.kept() is None ==> settled.shown() == Seq::<T>::empty(),
{
    if let Some(hits) = answered {
        if hits.len() == 0 {
            assert(head(hits, limit as int) =~= Seq::empty());
        }
    }
}

/// What an optional value is.
pub open spec fn opt_what<T, V>(value: Option<T>, what: spec_fn(T) -> V) -> Option<V> {
    match value {
        Some(v) => Some(what(v)),
        None => None,
    }
}

/// What a whole lookup gives: what its first step has at hand, or else what came
/// of asking.
pub open spec fn lookup_gives<T>(step: Step<T>, asked: LookedUp<T>) -> Option<T> {
    match step {
        Step::Done(v) => Some(v),
        Step::Ask(_) => asked.given(),
    }
}

/// What is kept after a whole lookup: what was kept before it, or else what came
/// of asking.
pub open spec fn lookup_keeps<T>(kept: Option<T>, asked: LookedUp<T>) -> Option<T> {
    if kept is Some {
        kept
    } else {
        asked.kept()
    }
}

/// A lookup by id that was answered is not asked again.
///
/// Where a first lookup gave anything, from what was kept or by asking, a later
/// one for the same gives the same, with no request. Where it gave nothing, the
/// later one asks. `what` is what a value is: what was kept is read back, and is
/// the same value in that sense.
pub proof fn lemma_a_lookup_is_asked_once<T, V>(
    kept: Option<T>,
    step: Step<T>,
    asked: LookedUp<T>,
    kept_since: Option<T>,
    later: Step<T>,
    request: Seq<char>,
    what: spec_fn(T) -> V,
)
    requires
        lookup_step(step, kept, request),
        opt_what(kept_since, what) == opt_what(lookup_keeps(kept, asked), what),
        lookup_step(later, kept_since, request),
    ensures
        match lookup_gives(step, asked) {
            Some(v) => later matches Step::Done(w) && what(w) == what(v),
            None => later matches Step::Ask(path) && path@ == request,
        },
{
}

/// The relations of an artist are looked up once.
///
/// Where a first lookup gave any list of them, even an empty one, every later
/// lookup gives the same with no request. Where it gave none, because there was
/// no response or none that says, the next one asks.
pub proof fn lemma_relations_are_asked_once(
    mbid: Seq<char>,
    kept: Option<Vec<(String, String)>>,
    step: Step<Vec<(String, String)>>,
    body: Option<Seq<char>>,
    asked: LookedUp<Vec<(String, String)>>,
    kept_since: Option<Vec<(String, String)>>,
    later: Step<Vec<(String, String)>>,
)
    requires
        lookup_step(step, kept, lookup_query("artist/"@, mbid, "?fmt=json&inc=url-rels"@)),
        opt_pairs(asked.given()) == found_relations(body),
        opt_pairs(asked.kept()) == found_relations(body),
        opt_pairs(kept_since) == opt_pairs(lookup_keeps(kept, asked)),
        lookup_step(later, kept_since, lookup_query("artist/"@, mbid, "?fmt=json&inc=url-rels"@)),
    ensures
        kept is None ==> opt_pairs(lookup_gives(step, asked)) == found_relations(body),
        match lookup_gives(step, asked) {
            Some(v) => later matches Step::Done(w) && pair_texts(w@) == pair_texts(v@),
            None => later matches Step::Ask(path) && path@ == lookup_query(
                "artist/"@,
                mbid,
                "?fmt=json&inc=url-rels"@,
            ),
        },
{
}

/// The names of an artist are looked up once.
///
/// Where a first lookup gave any names, every later lookup gives the same with
/// no request. Where it gave none, the next one asks.
pub proof fn lemma_names_are_asked_once(
    mbid: Seq<char>,
    kept: Option<Vec<String>>,
    step: Step<Vec<String>>,
    body: Option<Seq<char>>,
    asked: LookedUp<Vec<String>>,
    kept_since: Option<Vec<String>>,
    later: Step<Vec<String>>,
)
    requires
        lookup_step(step, kept, lookup_query("artist/"@, mbid, "?fmt=json&inc=aliases"@)),
        opt_texts(asked.given()) == found_names(body),
        opt_texts(asked.kept()) == found_names(body),
        opt_texts(kept_since) == opt_texts(lookup_keeps(kept, asked)),
        lookup_step(later, kept_since, lookup_query("artist/"@, mbid, "?fmt=json&inc=aliases"@)),
    ensures
        kept is None ==> opt_texts(lookup_gives(step, asked)) == found_names(body),
        match lookup_gives(step, asked) {
            Some(v) => later matches Step::Done(w) && texts(w@) == texts(v@),
            None => later matches Step::Ask(path) && path@ == lookup_query(
                "artist/"@,
                mbid,
                "?fmt=json&inc=aliases"@,
            ),
        },
{
}

/// The places where answers are kept by their own text or id.
pub open spec fn kept_places() -> Seq<Seq<char>> {
    seq![
        KEPT_RELEASE_GROUPS@,
        KEPT_BY_TAG@,
        KEPT_ARTISTS@,
        KEPT_BY_ARTIST@,
        KEPT_ARTIST_NAMES@,
        KEPT_ARTIST_RELATIONS@,
    ]
}

/// No two kinds of answer are kept in the same place: what one asks for never
/// comes back for another.
pub proof fn lemma_kept_places_are_distinct()
    ensures
        kept_places().no_duplicates(),
{
    reveal_strlit("release-group");
    reveal_strlit("rg-by-tag");
    reveal_strlit("artist");
    reveal_strlit("rg-by-artist");
    reveal_strlit("artist-names");
    reveal_strlit("artist-url-rels");
    let places = kept_places();
    assert(places[0].len() == 13 && places[1].len() == 9 && places[2].len() == 6);
    assert(places[3].len() == 12 && places[4].len() == 12 && places[5].len() == 15);
    assert(places[3][0] == 'r' && places[4][0] == 'a');
}

// ---------------------------------------------------------------------------
// Dates
// ---------------------------------------------------------------------------

/// Are the characters at these places digits?
pub open spec fn digits_between(s: Seq<char>, from: int, to: int) -> bool {
    forall|i: int| from <= i < to ==> '0' <= #[trigger] s[i] <= '9'
}

/// A year, a month or a day is a date, and nothing else is. A year is completed
/// to its first day, a month to its first day, and a day stays as it is.
pub proof fn lemma_dates_are_completed_to_their_first_day(raw: Seq<char>)
    ensures
        ({
            let date = trimmed(raw);
            let year = date.len() == 4 && digits_between(date, 0, 4);
            let month = date.len() == 7 && digits_between(date, 0, 4) && date[4] == '-'
                && digits_between(date, 5, 7);
            let day = date.len() == 10 && digits_between(date, 0, 4) && date[4] == '-'
                && digits_between(date, 5, 7) && date[7] == '-' && digits_between(date, 8, 10);
            &&& year ==> completed_date(raw) == Some(date + "-01-01"@)
            &&& month ==> completed_date(raw) == Some(date + "-01"@)
            &&& day ==> completed_date(raw) == Some(date)
            &&& !year && !month && !day ==> completed_date(raw) is None
        }),
{
    let date = trimmed(raw);
    assert forall|from: int, to: int|
        #![trigger digits_between(date, from, to)]
        #![trigger digits_at(date, from, to)]
        digits_between(date, from, to) == digits_at(date, from, to) by {
        if digits_at(date, from, to) {
            assert forall|i: int| from <= i < to implies '0' <= #[trigger] date[i] <= '9' by {
                assert(is_digit(date[i]));
            }
        }
    }
}

// ---------------------------------------------------------------------------
// Requests
// ---------------------------------------------------------------------------

/// The number that a hexadecimal digit stands for.
pub open spec fn hex_value(c: char) -> int {
    if '0' <= c <= '9' {
        c as int - '0' as int
    } else {
        c as int - 'A' as int + 10
    }
}

/// One more byte is set behind the others: as it is where it is a letter, a
/// digit or one of `-_.~`, and else as a percent sign and the two hexadecimal
/// digits that it is.
pub proof fn lemma_escaping_grows(bytes: Seq<u8>, b: u8)
    ensures
        escaped_bytes(Seq::empty()) == Seq::<char>::empty(),
        ({
            let c = b as char;
            let plain = 'A' <= c <= 'Z' || 'a' <= c <= 'z' || '0' <= c <= '9' || c == '-' || c
                == '_' || c == '.' || c == '~';
            let before = escaped_bytes(bytes);
            let after = escaped_bytes(bytes.push(b));
            let n = before.len() as int;
            &&& plain ==> after == before.push(c)
            &&& !plain ==> {
                &&& after.len() == n + 3
                &&& after.take(n) == before
                &&& after[n] == '%'
                &&& 16 * hex_value(after[n + 1]) + hex_value(after[n + 2]) == b
            }
        }),
{
    assert(bytes.push(b).drop_last() =~= bytes);
    let before = escaped_bytes(bytes);
    let after = escaped_bytes(bytes.push(b));
    let hi = b as int / 16;
    let lo = b as int % 16;
    assert(0 <= hi < 16 && 0 <= lo < 16 && 16 * hi + lo == b);
    if is_unreserved(b) {
        assert(after =~= before.push(b as char));
    } else {
        assert(after[before.len() as int + 1] == hex_digit(hi));
        assert(after[before.len() as int + 2] == hex_digit(lo));
        assert(hex_value(hex_digit(hi)) == hi);
        assert(hex_value(hex_digit(lo)) == lo);
        assert(after.take(before.len() as int) =~= before);
    }
}

/// A text is escaped byte by byte of its UTF-8 form.
pub proof fn lemma_texts_are_escaped_by_their_bytes(s: Seq<char>)
    ensures
        url_encoded(s) == escaped_bytes(encode_utf8(s)),
{
}

/// A search names its entity, the text that is searched for, and how many hits
/// it wants; a lookup names its id; and the text and the id are escaped.
pub proof fn lemma_requests_name_what_they_ask(
    before: Seq<char>,
    text: Seq<char>,
    after: Seq<char>,
    n: nat,
)
    ensures
        search_query(before, text, n as int) == before + "?query="@ + url_encoded(text)
            + "&fmt=json&limit="@ + decimal(n),
        lookup_query(before, text, after) == before + url_encoded(text) + after,
        tag_query(text) == "tag:"@ + text + " AND primarytype:Album"@,
{
}

/// The address of a request has one slash between the base and the path, however
/// many the path begins with.
pub proof fn lemma_one_slash_joins(base: Seq<char>, path: Seq<char>)
    requires
        path.len() == 0 || path[0] != '/',
    ensures
        joined_url(base, path) == base + "/"@ + path,
        joined_url(base, seq!['/'] + path) == joined_url(base, path),
{
    assert((seq!['/'] + path).drop_first() =~= path);
}

/// A count is held between its bounds, and is the same between them.
pub proof fn lemma_counts_are_held(n: int, low: int, high: int)
    requires
        low <= high,
    ensures
        low <= n <= high ==> clamped(n, low, high) == n,
        n < low ==> clamped(n, low, high) == low,
        n > high ==> clamped(n, low, high) == high,
{
}

/// A pause is as long as the header asks, where it asks for a number of seconds,
/// and the fallback where it does not.
pub proof fn lemma_pauses_are_those_asked_for(header: String, fallback: int)
    ensures
        retry_secs(None, fallback) == fallback,
        unsigned_value(header@, u64::MAX as int) matches Some(n) ==> retry_secs(
            Some(header),
            fallback,
        ) == n,
        unsigned_value(header@, u64::MAX as int) is None ==> retry_secs(Some(header), fallback)
            == fallback,
{
}

// ---------------------------------------------------------------------------
// Names and relations
// ---------------------------------------------------------------------------

/// Is a name in a list, in whatever ASCII case?
pub open spec fn is_listed(names: Seq<Seq<char>>, name: Seq<char>) -> bool {
    exists|k: int| 0 <= k < names.len() && lowered(#[trigger] names[k]) == lowered(name)
}

/// Does a list grow by a name: is it the same with the name behind it, trimmed,
/// unless that is blank or listed already?
pub open spec fn grows_by(
    before: Seq<Seq<char>>,
    name: Option<Seq<char>>,
    after: Seq<Seq<char>>,
) -> bool {
    &&& name is None ==> after == before
    &&& name matches Some(n) ==> {
        &&& is_blank(n) || is_listed(before, trimmed(n)) ==> after == before
        &&& !is_blank(n) && !is_listed(before, trimmed(n)) ==> after == before.push(trimmed(n))
    }
}

/// Is this how the names of a document came about: from none, by its name, by
/// its sort name, and by each of its aliases in turn?
pub open spec fn named_in_turn(artist: JsonTree, rows: Seq<Seq<Seq<char>>>) -> bool {
    let aliases = match artist.get("aliases"@) {
        Some(JsonTree::List(items)) => items,
        _ => Seq::empty(),
    };
    &&& rows.len() == aliases.len() + 3
    &&& rows[0].len() == 0
    &&& grows_by(rows[0], artist.text_of("name"@), rows[1])
    &&& grows_by(rows[1], artist.text_of("sort-name"@), rows[2])
    &&& forall|i: int|
        0 <= i < aliases.len() ==> grows_by(
            rows[i + 2],
            (#[trigger] aliases[i]).text_of("name"@),
            rows[i + 3],
        )
}

proof fn lemma_with_name_grows(names: Seq<Seq<char>>, name: Option<Seq<char>>)
    ensures
        grows_by(names, name, with_name(names, name)),
{
}

/// Every name that an artist goes by is listed, its name first, its sort name
/// behind it and its aliases behind these, each trimmed and each once.
pub proof fn lemma_every_name_is_listed_in_turn(artist: JsonTree)
    ensures
        exists|rows: Seq<Seq<Seq<char>>>| #[trigger]
            named_in_turn(artist, rows) && rows.last() == names_in(artist),
{
    let aliases = match artist.get("aliases"@) {
        Some(JsonTree::List(items)) => items,
        _ => Seq::empty(),
    };
    let none: Seq<Seq<char>> = Seq::empty();
    let first = with_name(none, artist.text_of("name"@));
    let both = with_name(first, artist.text_of("sort-name"@));
    let rows = Seq::new(
        aliases.len() + 3,
        |i: int|
            if i == 0 {
                none
            } else if i == 1 {
                first
            } else {
                with_aliases(both, aliases.take(i - 2))
            },
    );
    assert(aliases.take(0) =~= Seq::empty());
    assert(rows[2] == both);
    lemma_with_name_grows(none, artist.text_of("name"@));
    lemma_with_name_grows(first, artist.text_of("sort-name"@));
    assert forall|i: int| 0 <= i < aliases.len() implies grows_by(
        rows[i + 2],
        (#[trigger] aliases[i]).text_of("name"@),
        rows[i + 3],
    ) by {
        assert(aliases.take(i + 1).drop_last() =~= aliases.take(i));
        assert(aliases.take(i + 1).last() == aliases[i]);
        lemma_with_name_grows(rows[i + 2], aliases[i].text_of("name"@));
    }
    assert(aliases.take(aliases.len() as int) =~= aliases);
    assert(named_in_turn(artist, rows));
}

/// Does an entry relate an artist to a web page: has it a type, and the address
/// of a resource?
pub open spec fn relates(entry: JsonTree) -> bool {
    &&& entry.text_of("type"@) is Some
    &&& entry.get("url"@) matches Some(url) && url.text_of("resource"@) is Some
}

/// Every entry with a type and an address is a relation, in the order of the
/// document, and says that type and that address; and no other is one. A
/// document without a list of them says nothing.
pub proof fn lemma_every_relation_is_read(artist: JsonTree, i: int)
    ensures
        !(artist.get("relations"@) matches Some(JsonTree::List(_))) ==> relations_in(artist)
            is None,
        artist.get("relations"@) matches Some(JsonTree::List(entries)) ==> (relations_in(
            artist,
        ) matches Some(read) && {
            let keep = |e: JsonTree| relates(e);
            let k = how_many(entries.take(i), keep) as int;
            &&& read.len() == how_many(entries, keep)
            &&& 0 <= i < entries.len() && relates(entries[i]) ==> {
                &&& k < read.len()
                &&& Some(read[k].0) == entries[i].text_of("type"@)
                &&& Some(read[k].1) == entries[i].get("url"@)->0.text_of("resource"@)
            }
        }),
{
    if let Some(JsonTree::List(entries)) = artist.get("relations"@) {
        let pick = |e: JsonTree| relation(e);
        let keep = |e: JsonTree| relates(e);
        lemma_picked_count(entries, pick, keep);
        if 0 <= i < entries.len() && relates(entries[i]) {
            lemma_picked_at(entries, pick, keep, i);
        }
    }
}

/// A release-group without a release that carries tracks has no canonical one.
pub proof fn lemma_no_tracks_no_canonical_release(releases: Seq<Release>)
    requires
        forall|i: int, m: int|
            0 <= i < releases.len() && 0 <= m < releases[i].media@.len() ==> (
            #[trigger] releases[i].media@[m]).tracks@.len() == 0,
    ensures
        canonical_release(releases) is None,
    decreases releases.len(),
{
    if releases.len() > 0 {
        assert(!carries_tracks(releases[0])) by {
            assert forall|m: int| 0 <= m < releases[0].media@.len() implies (
            #[trigger] releases[0].media@[m]).tracks@.len() == 0 by {}
        }
        let rest = releases.drop_first();
        assert forall|i: int, m: int|
            0 <= i < rest.len() && 0 <= m < rest[i].media@.len() implies (
        #[trigger] rest[i].media@[m]).tracks@.len() == 0 by {
            assert(rest[i] == releases[i + 1]);
            assert(releases[i + 1].media@[m].tracks@.len() == 0);
        }
        lemma_no_tracks_no_canonical_release(rest);
    }
}

/// A release-group or an artist that a lookup was answered with is found just
/// where it has an id, and is found as it is.
pub proof fn lemma_what_lookups_find(rg: ReleaseGroup, artist: Artist)
    ensures
        rg.id@.len() > 0 ==> named_group(Some(rg)) == Some(rg),
        rg.id@.len() == 0 ==> named_group(Some(rg)) is None,
        artist.id@.len() > 0 ==> named_artist(Some(artist)) == Some(artist),
        artist.id@.len() == 0 ==> named_artist(Some(artist)) is None,
        named_group(None) is None && named_artist(None) is None,
{
}

/// A kept search is shown from its first hit on, as many as are wanted and
/// there; one that was not kept is asked for.
pub proof fn lemma_kept_searches_are_shown<T>(
    step: Step<Vec<T>>,
    kept: Option<Vec<T>>,
    limit: nat,
    request: Seq<char>,
    i: int,
)
    requires
        search_step(step, kept, limit as int, request),
    ensures
        kept is None ==> (step matches Step::Ask(path) && path@ == request),
        kept matches Some(hits) ==> (step matches Step::Done(page) && {
            &&& hits@.len() <= limit ==> page@.len() == hits@.len()
            &&& hits@.len() > limit ==> page@.len() == limit
            &&& 0 <= i < page@.len() ==> page@[i] == hits@[i]
        }),
{
}

/// What a settled search shows is the first of what it holds, and what it keeps
/// is all of it, unless that is nothing; and what a lookup found is both given
/// and kept.
pub proof fn lemma_what_is_shown_and_kept<T>(settled: Settled<T>, found: LookedUp<T>, i: int)
    ensures
        settled.hits@.len() <= settled.limit ==> settled.shown().len() == settled.hits@.len(),
        settled.hits@.len() > settled.limit ==> settled.shown().len() == settled.limit,
        0 <= i < settled.shown().len() ==> settled.shown()[i] == settled.hits@[i],
        settled.hits@.len() > 0 ==> settled.kept() == Some(settled.hits@),
        settled.hits@.len() == 0 ==> settled.kept() is None,
        found.given() == found.found && found.kept() == found.found,
{
}

/// What a lookup finds in the body of a response is what the document in it
/// says: every list of relations, and every list of names that is not empty. No
/// response, and one that is no document, says nothing.
pub proof fn lemma_bodies_say_what_their_documents_say(body: Seq<char>)
    ensures
        found_relations(None) is None && found_names(None) is None,
        text_tree(body) is None ==> found_relations(Some(body)) is None && found_names(Some(body))
            is None,
        text_tree(body) matches Some(doc) ==> {
            &&& found_relations(Some(body)) == relations_in(doc)
            &&& names_in(doc).len() > 0 ==> found_names(Some(body)) == Some(names_in(doc))
            &&& names_in(doc).len() == 0 ==> found_names(Some(body)) is None
        },
{
}

/// The release that a lookup of a track list finds is the canonical one of the
/// releases it was answered with.
pub proof fn lemma_track_lists_are_of_the_canonical_release(releases: Vec<Release>)
    ensures
        found_release(Some(releases)) == canonical_release(releases@),
        found_release(None) is None,
{
}

/// A row of pairs is the characters of its pairs, one to one and in order.
pub proof fn lemma_pairs_are_the_strings(pairs: Seq<(String, String)>, i: int)
    ensures
        pair_texts(pairs).len() == pairs.len(),
        0 <= i < pairs.len() ==> pair_texts(pairs)[i] == (pairs[i].0@, pairs[i].1@),
{
}

/// The year of a date is the number that its first four characters are, where
/// there are four, and where they are one.
pub proof fn lemma_years_are_four_characters(raw: Seq<char>)
    ensures
        trimmed(raw).len() < 4 ==> year_value(raw) is None,
        trimmed(raw).len() >= 4 ==> year_value(raw) == unsigned_value(
            trimmed(raw).take(4),
            65535,
        ),
{
}

} // verus!
