//! What holds of every query: what it asks upstream, and what it is answered.
use vstd::prelude::*;

use crate::card::{Card, CardKind};
use crate::card_laws::lemma_where_ids_split;
use crate::client::head;
use crate::discovery::{
    browses, first_kind, kind_of, mode_of, named_kind, overfetched, plan_of, row_of, slug_of,
    BrowseAnswer,
    BrowseMode, BrowsePlan, BrowsePlanView, GatewayQuery, QueryView,
};
use crate::distinct::{how_many, lemma_picked_at, lemma_picked_count};
use crate::listenbrainz::{artist_views, work_views};
use crate::musicbrainz::{
    address_of, effective, outcome_of, query_plan, records_of, setting, ErrorView, GatewayError,
    HashOutcome, OutcomeView, QueryPlan, QueryPlanView,
};
use crate::number::unsigned_value;
use crate::record::{record_of, DiscoveryRecord, Filters, Locators};
use crate::resolve::{album_cards_of, popular_albums_of, popular_artists_of};
use crate::text::{is_blank, lowered, opt_text, trimmed};

verus! {

// ---------------------------------------------------------------------------
// What a query asks upstream
// ---------------------------------------------------------------------------

/// Does a query name something under this filter: is its first value more than
/// white space?
pub open spec fn names_one(filters: Filters, key: Seq<char>) -> bool {
    filters.contains_key(key) && filters[key].len() > 0 && !is_blank(filters[key][0])
}

/// Does a query take works of this kind: does it name no kind at all, or this
/// one among others, in whatever case?
pub open spec fn takes(filters: Filters, kind: Seq<char>) -> bool {
    ||| !filters.contains_key("contentKind"@)
    ||| filters["contentKind"@].len() == 0
    ||| exists|i: int|
        0 <= i < filters["contentKind"@].len() && lowered(
            trimmed(#[trigger] filters["contentKind"@][i]),
        ) == kind
}

/// Is a filter marked true, in whatever case?
pub open spec fn marked(filters: Filters, key: Seq<char>) -> bool {
    filters.contains_key(key) && exists|i: int|
        0 <= i < filters[key].len() && lowered(#[trigger] filters[key][i]) == "true"@
}

/// Is a query one for a browse row: without text, without ids, and with a mode?
pub open spec fn is_browse(query: QueryView) -> bool {
    &&& is_blank(query.free_text)
    &&& !query.filters.contains_key("mbReleaseGroupId"@)
    &&& !query.filters.contains_key("mbArtistId"@)
    &&& marked(query.filters, "popular"@) || marked(query.filters, "trending"@) || marked(
        query.filters,
        "fresh"@,
    )
}

/// A query that names a work asks for that work, whatever else it holds.
pub proof fn lemma_a_named_work_is_asked_for(
    query: QueryView,
    max_results: int,
    top_n: int,
    discovery_n: int,
)
    requires
        names_one(query.filters, "mbReleaseGroupId"@),
    ensures
        query_plan(query, max_results, top_n, discovery_n) == (QueryPlanView::AlbumById {
            mbid: trimmed(query.filters["mbReleaseGroupId"@][0]),
        }),
{
}

/// A query that names an artist, and no work, asks for that artist where it
/// takes artists and not albums. In every other case it asks for the artist's
/// albums: as many as the query may have results, and one where it may have
/// none.
pub proof fn lemma_a_named_artist_is_asked_for(
    query: QueryView,
    max_results: int,
    top_n: int,
    discovery_n: int,
)
    requires
        !names_one(query.filters, "mbReleaseGroupId"@),
        names_one(query.filters, "mbArtistId"@),
    ensures
        ({
            let id = trimmed(query.filters["mbArtistId"@][0]);
            let only_artists = takes(query.filters, "artist"@) && !takes(query.filters, "album"@);
            let plan = query_plan(query, max_results, top_n, discovery_n);
            &&& only_artists ==> plan == (QueryPlanView::ArtistById { mbid: id })
            &&& !only_artists && max_results >= 1 ==> plan == (QueryPlanView::Discography {
                artist_mbid: id,
                want: max_results,
            })
            &&& !only_artists && max_results < 1 ==> plan == (QueryPlanView::Discography {
                artist_mbid: id,
                want: 1,
            })
        }),
{
}

/// A query for a browse row asks for one: as long as rows are, and no longer
/// than the query may have results.
pub proof fn lemma_a_browse_query_asks_for_a_row(
    query: QueryView,
    max_results: int,
    top_n: int,
    discovery_n: int,
)
    requires
        is_browse(query),
    ensures
        query_plan(query, max_results, top_n, discovery_n) matches QueryPlanView::Browse { n } && {
            &&& max_results >= 1 && max_results <= discovery_n ==> n == max_results
            &&& max_results >= 1 && max_results > discovery_n ==> n == discovery_n
            &&& max_results < 1 && discovery_n >= 1 ==> n == 1
        },
{
    assert(mode_of(query.filters) is Some);
}

/// A query with text, and without ids, asks for a search for that text without
/// the white space around it, for the kinds of work that it takes: as many hits
/// as searches have, and no more than the query may have results.
pub proof fn lemma_a_text_is_searched_for(
    query: QueryView,
    max_results: int,
    top_n: int,
    discovery_n: int,
)
    requires
        !names_one(query.filters, "mbReleaseGroupId"@),
        !names_one(query.filters, "mbArtistId"@),
        !is_blank(query.free_text),
    ensures
        query_plan(query, max_results, top_n, discovery_n) matches QueryPlanView::Search {
            text,
            n,
            albums,
            artists,
        } && {
            &&& text == trimmed(query.free_text)
            &&& albums == takes(query.filters, "album"@)
            &&& artists == takes(query.filters, "artist"@)
            &&& max_results >= 1 && max_results <= top_n ==> n == max_results
            &&& max_results >= 1 && max_results > top_n ==> n == top_n
            &&& max_results < 1 && top_n >= 1 ==> n == 1
        },
{
}

/// A query without ids, without text and without a mode asks for nothing.
pub proof fn lemma_an_empty_query_asks_for_nothing(
    query: QueryView,
    max_results: int,
    top_n: int,
    discovery_n: int,
)
    requires
        !names_one(query.filters, "mbReleaseGroupId"@),
        !names_one(query.filters, "mbArtistId"@),
        is_blank(query.free_text),
        !is_browse(query),
    ensures
        query_plan(query, max_results, top_n, discovery_n) is Nothing,
{
}

/// A size that is set and not zero is the size there is; every other leaves the
/// default.
pub proof fn lemma_sizes_that_are_set_hold(n: usize, default: usize)
    ensures
        n > 0 ==> effective(Some(n), default) == n,
        effective(Some(0usize), default) == default,
        effective(None, default) == default,
{
}

// ---------------------------------------------------------------------------
// What a browse row asks upstream
// ---------------------------------------------------------------------------

/// Does a value name a kind of work, in whatever case?
pub open spec fn names_kind(value: Seq<char>) -> bool {
    lowered(trimmed(value)) == "album"@ || lowered(trimmed(value)) == "artist"@
}

proof fn lemma_first_kind(values: Seq<Seq<char>>, i: int)
    requires
        0 <= i <= values.len(),
        i < values.len() ==> names_kind(values[i]),
        forall|j: int| 0 <= j < i ==> !names_kind(#[trigger] values[j]),
    ensures
        i < values.len() ==> first_kind(values) == named_kind(values[i]),
        i == values.len() ==> first_kind(values) is None,
    decreases values.len(),
{
    if i > 0 {
        let rest = values.drop_first();
        assert(!names_kind(values[0]));
        assert forall|j: int| 0 <= j < i - 1 implies !names_kind(#[trigger] rest[j]) by {
            assert(rest[j] == values[j + 1]);
        }
        lemma_first_kind(rest, i - 1);
    }
}

/// The kind of a browse row is the first that the query names, and there is none
/// where it names none.
pub proof fn lemma_the_first_kind_decides(filters: Filters, i: int)
    requires
        filters.contains_key("contentKind"@),
        0 <= i <= filters["contentKind"@].len(),
        i < filters["contentKind"@].len() ==> names_kind(filters["contentKind"@][i]),
        forall|j: int| 0 <= j < i ==> !names_kind(#[trigger] filters["contentKind"@][j]),
    ensures
        ({
            let values = filters["contentKind"@];
            &&& i < values.len() && lowered(trimmed(values[i])) == "album"@ ==> kind_of(filters)
                == Some(CardKind::Album)
            &&& i < values.len() && lowered(trimmed(values[i])) == "artist"@ ==> kind_of(filters)
                == Some(CardKind::Artist)
            &&& i == values.len() ==> kind_of(filters) is None
        }),
{
    reveal_strlit("album");
    reveal_strlit("artist");
    assert("album"@.len() == 5 && "artist"@.len() == 6);
    lemma_first_kind(filters["contentKind"@], i);
}

/// A query that names no kind has none.
pub proof fn lemma_no_kind_is_made_up(filters: Filters)
    requires
        !filters.contains_key("contentKind"@),
    ensures
        kind_of(filters) is None,
{
}

/// The mode of a query is the one that is marked true: fresh before trending,
/// and trending before popular.
pub proof fn lemma_the_marked_mode_decides(filters: Filters)
    ensures
        mode_of(filters) == Some(BrowseMode::Fresh) <==> marked(filters, "fresh"@),
        mode_of(filters) == Some(BrowseMode::Trending) <==> marked(filters, "trending"@)
            && !marked(filters, "fresh"@),
        mode_of(filters) == Some(BrowseMode::Popular) <==> marked(filters, "popular"@) && !marked(
            filters,
            "trending"@,
        ) && !marked(filters, "fresh"@),
        mode_of(filters) is None <==> !marked(filters, "popular"@) && !marked(
            filters,
            "trending"@,
        ) && !marked(filters, "fresh"@),
{
}

/// A row asks for twice as many works as it shows, for some may have no cover:
/// at least one, and no more than may be asked for.
pub proof fn lemma_a_row_asks_for_twice_its_size(n: nat)
    ensures
        n == 0 ==> overfetched(n as int) == 1,
        1 <= n <= 50 ==> overfetched(n as int) == 2 * n,
        n > 50 ==> overfetched(n as int) == 100,
{
}

/// An album row with a genre asks for the albums under its tag: the first value
/// of the filter in lower case, without the white space around it, and with a
/// space for every hyphen.
pub proof fn lemma_a_genre_row_asks_for_its_tag(filters: Filters, n: nat)
    requires
        mode_of(filters) is Some,
        kind_of(filters) == Some(CardKind::Album),
        names_one(filters, "genres"@),
    ensures
        plan_of(filters, n as int) matches BrowsePlanView::AlbumsByTag { tag, want } && {
            let slug = lowered(trimmed(filters["genres"@][0]));
            &&& want == overfetched(n as int)
            &&& tag.len() == slug.len()
            &&& forall|i: int|
                0 <= i < slug.len() ==> (if slug[i] == '-' {
                    #[trigger] tag[i] == ' '
                } else {
                    tag[i] == slug[i]
                })
        },
{
}

/// A row without a genre asks the feed of its mode: the releases of the last
/// thirty days where it is fresh, and the statistics of its kind where it is
/// not, over a month where it is popular and over a week where it is trending.
/// There is no row of fresh artists.
pub proof fn lemma_a_row_asks_the_feed_of_its_mode(filters: Filters, n: nat)
    requires
        !names_one(filters, "genres"@),
    ensures
        ({
            let plan = plan_of(filters, n as int);
            let want = overfetched(n as int) as usize;
            let album = kind_of(filters) == Some(CardKind::Album);
            let artist = kind_of(filters) == Some(CardKind::Artist);
            let mode = mode_of(filters);
            &&& album && mode == Some(BrowseMode::Fresh) ==> plan == (BrowsePlanView::FreshAlbums {
                days: 30,
            })
            &&& album && mode == Some(BrowseMode::Popular) ==> plan
                == (BrowsePlanView::PopularAlbums { range: "month"@, want })
            &&& album && mode == Some(BrowseMode::Trending) ==> plan
                == (BrowsePlanView::PopularAlbums { range: "week"@, want })
            &&& artist && mode == Some(BrowseMode::Fresh) ==> plan is Nothing
            &&& artist && mode == Some(BrowseMode::Popular) ==> plan
                == (BrowsePlanView::PopularArtists { range: "month"@, want })
            &&& artist && mode == Some(BrowseMode::Trending) ==> plan
                == (BrowsePlanView::PopularArtists { range: "week"@, want })
            &&& !album && !artist ==> plan is Nothing
            &&& mode is None ==> plan is Nothing
        }),
{
}

/// A genre makes no difference to a row of artists.
pub proof fn lemma_artists_have_no_genre_rows(filters: Filters, n: nat)
    requires
        kind_of(filters) == Some(CardKind::Artist),
    ensures
        ({
            let plan = plan_of(filters, n as int);
            let want = overfetched(n as int) as usize;
            &&& mode_of(filters) == Some(BrowseMode::Popular) ==> plan
                == (BrowsePlanView::PopularArtists { range: "month"@, want })
            &&& mode_of(filters) == Some(BrowseMode::Trending) ==> plan
                == (BrowsePlanView::PopularArtists { range: "week"@, want })
            &&& mode_of(filters) == Some(BrowseMode::Fresh) ==> plan is Nothing
        }),
{
}

// ---------------------------------------------------------------------------
// What a query is answered
// ---------------------------------------------------------------------------

/// The first of a list are as many as there are and no more than are wanted, and
/// they are the list's own, in its order.
pub proof fn lemma_the_first_of_a_list<T>(list: Seq<T>, n: nat, i: int)
    ensures
        list.len() <= n ==> head(list, n as int).len() == list.len(),
        list.len() > n ==> head(list, n as int).len() == n,
        0 <= i < head(list, n as int).len() ==> head(list, n as int)[i] == list[i],
{
}

/// A browse row is made of the first cards that its answer makes, in the order
/// of the answer: all of them, or as many as the row shows.
pub proof fn lemma_a_row_shows_the_first_cards(answer: BrowseAnswer, n: nat, i: int)
    ensures
        ({
            let row = row_of(answer, n as int);
            let all = match answer {
                BrowseAnswer::Nothing => Seq::empty(),
                BrowseAnswer::Groups(hits) => album_cards_of(hits@),
                BrowseAnswer::Works(works) => popular_albums_of(work_views(works@)),
                BrowseAnswer::Artists(artists, covers) => popular_artists_of(
                    if artists@.len() <= n {
                        artist_views(artists@)
                    } else {
                        artist_views(artists@).take(n as int)
                    },
                    covers@,
                ),
            };
            &&& all.len() <= n ==> row.len() == all.len()
            &&& all.len() > n ==> row.len() == n
            &&& 0 <= i < row.len() ==> row[i] == all[i]
        }),
{
    if let BrowseAnswer::Artists(artists, covers) = answer {
        assert(artist_views(artists@).len() == artists@.len());
    }
}

/// Would a card render: has it a title, and a cover?
pub open spec fn renders(card: Card) -> bool {
    !is_blank(card.title@) && card.cover is Some
}

/// A query is answered with the record of every card that would render, in the
/// order of the cards, and with no others.
pub proof fn lemma_every_card_that_renders_is_answered(
    cards: Seq<(Card, Locators)>,
    filters: Filters,
    i: int,
)
    ensures
        ({
            let records = records_of(cards, filters);
            let keep = |c: (Card, Locators)| renders(c.0);
            let k = how_many(cards.take(i), keep) as int;
            &&& records.len() == how_many(cards, keep)
            &&& 0 <= i < cards.len() && renders(cards[i].0) ==> {
                &&& k < records.len()
                &&& Some(records[k]) == record_of(cards[i].0@, filters, cards[i].1@)
                &&& records[k].record_id == "musicbrainz"@ + ":"@ + cards[i].0.mbid@
            }
        }),
{
    let pick = |c: (Card, Locators)| record_of(c.0@, filters, c.1@);
    let keep = |c: (Card, Locators)| renders(c.0);
    lemma_picked_count(cards, pick, keep);
    if 0 <= i < cards.len() && renders(cards[i].0) {
        lemma_picked_at(cards, pick, keep, i);
    }
}

/// A record id of this source resolves to the id behind its first colon; one of
/// another source is not found; and one without both halves is malformed, and is
/// answered with itself.
pub proof fn lemma_which_ids_resolve(source: Seq<char>, id: Seq<char>, other: Seq<char>)
    requires
        source.len() > 0,
        id.len() > 0,
        !source.contains(':'),
        !other.contains(':'),
    ensures
        source == "musicbrainz"@ ==> address_of(source + ":"@ + id) == Ok::<
            (Seq<char>, Seq<char>),
            ErrorView,
        >((source, id)),
        source != "musicbrainz"@ ==> address_of(source + ":"@ + id) == Err::<
            (Seq<char>, Seq<char>),
            ErrorView,
        >(ErrorView::NotFound),
        address_of(other) == Err::<(Seq<char>, Seq<char>), ErrorView>(
            ErrorView::Permanent("malformed card record_id '"@ + other + "'"@),
        ),
        address_of(source + ":"@) == Err::<(Seq<char>, Seq<char>), ErrorView>(
            ErrorView::Permanent("malformed card record_id '"@ + (source + ":"@) + "'"@),
        ),
        address_of(":"@ + id) == Err::<(Seq<char>, Seq<char>), ErrorView>(
            ErrorView::Permanent("malformed card record_id '"@ + (":"@ + id) + "'"@),
        ),
{
    let none: Seq<char> = Seq::empty();
    lemma_where_ids_split(source, id, other);
    lemma_where_ids_split(source, none, other);
    lemma_where_ids_split(none, id, other);
    assert(source + ":"@ + none =~= source + ":"@);
    assert(none + ":"@ + id =~= ":"@ + id);
}

/// The record in the answer to a record id is that of the album that the id
/// names, for no query in particular; of the artist where it names no album; and
/// there is none where it names neither, or the card would not render.
pub proof fn lemma_the_answer_is_the_album_or_else_the_artist(
    record_id: Seq<char>,
    hash: Seq<char>,
    album: (Card, Locators),
    artist: (Card, Locators),
    other: Option<(Card, Locators)>,
)
    requires
        address_of(record_id) is Ok,
    ensures
        outcome_of(true, record_id, Some(hash), Some(album), other) matches Ok(o) && o.hash == hash
            && o.record == record_of(album.0@, Map::empty(), album.1@),
        outcome_of(true, record_id, Some(hash), None, Some(artist)) matches Ok(o) && o.hash == hash
            && o.record == record_of(artist.0@, Map::empty(), artist.1@),
        outcome_of(true, record_id, Some(hash), None, None) matches Ok(o) && o.hash == hash
            && o.record is None,
        outcome_of(true, record_id, None, Some(album), other) == Err::<OutcomeView, ErrorView>(
            ErrorView::Permanent("card id too long to encode: '"@ + record_id + "'"@),
        ),
{
}

// ---------------------------------------------------------------------------
// What queries and answers say
// ---------------------------------------------------------------------------

/// A query, a plan for it and a record say what their fields hold, each field by
/// itself.
pub proof fn lemma_queries_say_their_fields(
    query: GatewayQuery,
    plan: QueryPlan,
    row: BrowsePlan,
    record: DiscoveryRecord,
)
    ensures
        query@.free_text == query.free_text@ && query@.filters == query.filters@,
        plan is Nothing <==> plan@ is Nothing,
        plan matches QueryPlan::AlbumById { mbid } ==> plan@ == (QueryPlanView::AlbumById {
            mbid: mbid@,
        }),
        plan matches QueryPlan::ArtistById { mbid } ==> plan@ == (QueryPlanView::ArtistById {
            mbid: mbid@,
        }),
        plan matches QueryPlan::Discography { artist_mbid, want } ==> plan@
            == (QueryPlanView::Discography { artist_mbid: artist_mbid@, want: want as int }),
        plan matches QueryPlan::Browse { n } ==> plan@ == (QueryPlanView::Browse { n: n as int }),
        plan matches QueryPlan::Search { text, n, albums, artists } ==> plan@
            == (QueryPlanView::Search { text: text@, n: n as int, albums, artists }),
        row is Nothing <==> row@ is Nothing,
        row matches BrowsePlan::AlbumsByTag { tag, want } ==> row@ == (
        BrowsePlanView::AlbumsByTag { tag: tag@, want }),
        row matches BrowsePlan::FreshAlbums { days } ==> row@ == (BrowsePlanView::FreshAlbums {
            days,
        }),
        row matches BrowsePlan::PopularAlbums { range, want } ==> row@
            == (BrowsePlanView::PopularAlbums { range: range@, want }),
        row matches BrowsePlan::PopularArtists { range, want } ==> row@
            == (BrowsePlanView::PopularArtists { range: range@, want }),
        record@.upstream_id == record.upstream_id@ && record@.record_id == record.record_id@,
        record@.fields == record.fields@,
{
}

/// The addresses of a card say what was minted, in the order of its links.
pub proof fn lemma_addresses_say_what_was_minted(at: Locators, i: int)
    ensures
        at@.card == opt_text(at.card) && at@.artwork == opt_text(at.artwork),
        at@.external_play.len() == at.external_play@.len(),
        0 <= i < at.external_play@.len() ==> at@.external_play[i] == opt_text(at.external_play@[i]),
{
}

/// A query is one for a browse row just where it has no text, no ids and a mode;
/// the genre of a row is the first that the query names, in lower case; and a
/// setting is read as the count it is.
pub proof fn lemma_what_queries_and_settings_are(query: QueryView, s: Seq<char>)
    ensures
        browses(query) <==> is_browse(query),
        names_one(query.filters, "genres"@) ==> slug_of(query.filters) == Some(
            lowered(trimmed(query.filters["genres"@][0])),
        ),
        !names_one(query.filters, "genres"@) ==> slug_of(query.filters) is None,
        setting(None) is None,
        setting(Some(s)) == unsigned_value(s, usize::MAX as int),
{
}

/// The answer to a record id says what its fields hold, each field by itself.
pub proof fn lemma_answers_say_their_fields(o: HashOutcome, e: GatewayError)
    ensures
        o@.hash == o.hash@ && o@.hash_kind == o.hash_kind,
        o@.file_extension == opt_text(o.file_extension),
        o.bytes is None ==> o@.bytes is None,
        o.bytes matches Some(b) ==> o@.bytes == Some(b@),
        o.record is None ==> o@.record is None,
        o.record matches Some(r) ==> o@.record == Some(r@),
        e is NotFound <==> e@ is NotFound,
        e matches GatewayError::Permanent(reason) ==> e@ == ErrorView::Permanent(reason@),
{
}

} // verus!
