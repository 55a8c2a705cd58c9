//! Keyword-less browse: the queries whose intent is carried entirely by
//! structured filters.
//!
//! - **mode** (one of): `popular:true`, the sitewide top; `trending:true`, the
//!   same feed over a shorter window, since ListenBrainz has no distinct
//!   trending endpoint; `fresh:true`, the fresh releases.
//! - **kind** (required): `contentKind:album` or `contentKind:artist`.
//!
//! There is deliberately no `top_rated` mode: nothing upstream measures
//! ratings, and a row quietly answered with popularity could not be reasoned
//! about.
use vstd::prelude::*;
use vstd::string::*;

use crate::card::{displayable, Card, CardKind, CardView, Cover};
use crate::client::{clamped, first_page, head, ReleaseGroup};
use crate::consts::{
    DISCOVERY_OVERFETCH, FRESH_WINDOW_DAYS, LB_MAX_COUNT, LB_STATS_RANGE, LB_TRENDING_RANGE,
};
use crate::listenbrainz::{artist_views, work_views, PopularArtist, PopularWork};
use crate::record::Filters;
use crate::resolve::{
    album_cards_of, card_views, lemma_album_rows_are_displayable,
    lemma_popular_artist_cards_are_displayable, popular_albums_of, popular_artists_of, Resolver,
};
use crate::strmap::StrMap;
use crate::text::{
    blank, is_blank, lowered, opt_text, replace_char, same_ignoring_case, same_text, texts,
    to_lower, trim, trimmed, unless_empty, with_char_replaced,
};

verus! {

/// A query as the gateway hands it over: its free text and its structured
/// filters, each with the values it allows.
pub struct GatewayQuery {
    pub free_text: String,
    pub filters: StrMap<Vec<String>>,
}

/// What a query asks.
pub struct QueryView {
    pub free_text: Seq<char>,
    pub filters: Filters,
}

impl View for GatewayQuery {
    type V = QueryView;

    open spec fn view(&self) -> QueryView {
        QueryView { free_text: self.free_text@, filters: self.filters@ }
    }
}

/// The browse flavour a query asks for.
#[derive(Clone, Copy, PartialEq, Eq, Debug, Structural)]
pub enum BrowseMode {
    Popular,
    Trending,
    Fresh,
}

impl BrowseMode {
    /// The filter that selects a mode.
    pub open spec fn key(self) -> Seq<char> {
        match self {
            BrowseMode::Popular => "popular"@,
            BrowseMode::Trending => "trending"@,
            BrowseMode::Fresh => "fresh"@,
        }
    }

    /// The query-filter key that selects this mode. The record projection
    /// echoes it onto every record, as it does every filter.
    pub fn marker(self) -> (s: &'static str)
        ensures
            s@ == self.key(),
    {
        match self {
            BrowseMode::Popular => "popular",
            BrowseMode::Trending => "trending",
            BrowseMode::Fresh => "fresh",
        }
    }
}

// ---------------------------------------------------------------------------
// Reading a query
// ---------------------------------------------------------------------------

/// Does a filter carry the value `true`, in any case?
pub open spec fn is_true(filters: Filters, key: Seq<char>) -> bool {
    filters.contains_key(key) && exists|i: int|
        0 <= i < filters[key].len() && lowered(#[trigger] filters[key][i]) == "true"@
}

/// The mode a query asks for: fresh before trending before popular.
pub open spec fn mode_of(filters: Filters) -> Option<BrowseMode> {
    if is_true(filters, BrowseMode::Fresh.key()) {
        Some(BrowseMode::Fresh)
    } else if is_true(filters, BrowseMode::Trending.key()) {
        Some(BrowseMode::Trending)
    } else if is_true(filters, BrowseMode::Popular.key()) {
        Some(BrowseMode::Popular)
    } else {
        None
    }
}

/// A query that the browse branch answers: no free text, no id, and a mode.
pub open spec fn browses(query: QueryView) -> bool {
    &&& is_blank(query.free_text)
    &&& !query.filters.contains_key("mbReleaseGroupId"@)
    &&& !query.filters.contains_key("mbArtistId"@)
    &&& mode_of(query.filters) is Some
}

/// The kind of work a filter value names.
pub open spec fn named_kind(value: Seq<char>) -> Option<CardKind> {
    let token = lowered(trimmed(value));
    if token == "album"@ {
        Some(CardKind::Album)
    } else if token == "artist"@ {
        Some(CardKind::Artist)
    } else {
        None
    }
}

/// The first kind of work that a list of values names.
pub open spec fn first_kind(values: Seq<Seq<char>>) -> Option<CardKind>
    decreases values.len(),
{
    if values.len() == 0 {
        None
    } else {
        match named_kind(values.first()) {
            Some(kind) => Some(kind),
            None => first_kind(values.drop_first()),
        }
    }
}

/// The kind of work that a query asks for.
pub open spec fn kind_of(filters: Filters) -> Option<CardKind> {
    if filters.contains_key("contentKind"@) {
        first_kind(filters["contentKind"@])
    } else {
        None
    }
}

/// The first value of a filter.
pub open spec fn first_value(filters: Filters, key: Seq<char>) -> Option<Seq<char>> {
    if filters.contains_key(key) && filters[key].len() > 0 {
        Some(filters[key][0])
    } else {
        None
    }
}

/// The genre slug a row is filtered by: the first value, trimmed and lowered.
pub open spec fn slug_of(filters: Filters) -> Option<Seq<char>> {
    match first_value(filters, "genres"@) {
        Some(value) => unless_empty(Some(lowered(trimmed(value)))),
        None => None,
    }
}

/// Reads the first value of a filter.
pub fn filter_head<'a>(query: &'a GatewayQuery, key: &str) -> (out: Option<&'a String>)
    ensures
        out is Some == first_value(query.filters@, key@) is Some,
        out matches Some(s) ==> first_value(query.filters@, key@) == Some(s@),
{
    match query.filters.get(key) {
        Some(values) => {
            assert(query.filters@[key@] =~= texts(values@));
            if values.len() > 0 {
                Some(&values[0])
            } else {
                None
            }
        },
        None => None,
    }
}

/// True iff a filter carries a truthy value.
pub fn filter_is_true(query: &GatewayQuery, key: &str) -> (b: bool)
    ensures
        b == is_true(query.filters@, key@),
{
    proof {
        reveal_strlit("true");
        assert(lowered("true"@) =~= "true"@);
    }
    match query.filters.get(key) {
        Some(values) => {
            let ghost all = query.filters@[key@];
            assert(all =~= texts(values@));
            let mut i: usize = 0;
            while i < values.len()
                invariant
                    i <= values.len(),
                    all == texts(values@),
                    query.filters@.contains_key(key@),
                    query.filters@[key@] == all,
                    lowered("true"@) == "true"@,
                    forall|j: int| 0 <= j < i ==> lowered(#[trigger] all[j]) != "true"@,
                decreases values.len() - i,
            {
                assert(all[i as int] == values@[i as int]@);
                if same_ignoring_case(values[i].as_str(), "true") {
                    return true;
                }
                i += 1;
            }
            false
        },
        None => false,
    }
}

/// First truthy mode marker on the query, in precedence order.
pub fn browse_mode(query: &GatewayQuery) -> (mode: Option<BrowseMode>)
    ensures
        mode == mode_of(query.filters@),
{
    if filter_is_true(query, BrowseMode::Fresh.marker()) {
        Some(BrowseMode::Fresh)
    } else if filter_is_true(query, BrowseMode::Trending.marker()) {
        Some(BrowseMode::Trending)
    } else if filter_is_true(query, BrowseMode::Popular.marker()) {
        Some(BrowseMode::Popular)
    } else {
        None
    }
}

/// True when this is a keyword-less browse query.
///
/// Each condition excludes a query that another branch answers: free text is
/// the principal search, an id is the direct lookup. `contentKind` alone does
/// not select this branch, since a text query carries it too.
pub fn is_browse_query(query: &GatewayQuery) -> (b: bool)
    ensures
        b == browses(query@),
{
    blank(query.free_text.as_str()) && !query.filters.contains_key("mbReleaseGroupId")
        && !query.filters.contains_key("mbArtistId") && browse_mode(query).is_some()
}

/// Maps the query's `contentKind` filter to a card kind.
pub fn browse_kind(query: &GatewayQuery) -> (kind: Option<CardKind>)
    ensures
        kind == kind_of(query.filters@),
{
    match query.filters.get("contentKind") {
        Some(values) => {
            let ghost all = query.filters@["contentKind"@];
            assert(all =~= texts(values@));
            assert(all.skip(0) =~= all);
            let mut i: usize = 0;
            while i < values.len()
                invariant
                    i <= values.len(),
                    all == texts(values@),
                    query.filters@.contains_key("contentKind"@),
                    query.filters@["contentKind"@] == all,
                    first_kind(all) == first_kind(all.skip(i as int)),
                decreases values.len() - i,
            {
                assert(all.skip(i as int).first() == values@[i as int]@);
                assert(all.skip(i as int).drop_first() =~= all.skip(i + 1));
                let token = to_lower(trim(values[i].as_str()));
                if same_text(token.as_str(), "album") {
                    return Some(CardKind::Album);
                }
                if same_text(token.as_str(), "artist") {
                    return Some(CardKind::Artist);
                }
                i += 1;
            }
            None
        },
        None => None,
    }
}

/// The genre slug a row is filtered by, if any. A genre row is answered by a
/// tag search, not by filtering a feed.
pub fn genre_slug(query: &GatewayQuery) -> (out: Option<String>)
    ensures
        opt_text(out) == slug_of(query.filters@),
{
    match filter_head(query, "genres") {
        Some(value) => {
            let slug = to_lower(trim(value.as_str()));
            if slug.as_str().is_empty() {
                None
            } else {
                Some(slug)
            }
        },
        None => None,
    }
}

/// A genre slug back to the tag MusicBrainz indexes it under. The query
/// language cannot spell a name with spaces, so the wire carries `hip-hop` and
/// MusicBrainz wants `hip hop`.
pub fn slug_to_tag(slug: &str) -> (tag: String)
    ensures
        tag@ == with_char_replaced(slug@, '-', ' '),
{
    replace_char(slug, '-', ' ')
}

// ---------------------------------------------------------------------------
// Answering a query
// ---------------------------------------------------------------------------

/// What to ask upstream for a browse row.
pub enum BrowsePlan {
    /// Nothing: the query asks for no row there is.
    Nothing,
    /// This many albums under this tag.
    AlbumsByTag { tag: String, want: usize },
    /// The releases of this many days.
    FreshAlbums { days: u32 },
    /// This many of the most popular albums over this range of time.
    PopularAlbums { range: &'static str, want: usize },
    /// This many of the most popular artists over this range of time.
    PopularArtists { range: &'static str, want: usize },
}

/// What a browse plan is.
pub enum BrowsePlanView {
    Nothing,
    AlbumsByTag { tag: Seq<char>, want: usize },
    FreshAlbums { days: u32 },
    PopularAlbums { range: Seq<char>, want: usize },
    PopularArtists { range: Seq<char>, want: usize },
}

impl View for BrowsePlan {
    type V = BrowsePlanView;

    open spec fn view(&self) -> BrowsePlanView {
        match self {
            BrowsePlan::Nothing => BrowsePlanView::Nothing,
            BrowsePlan::AlbumsByTag { tag, want } => BrowsePlanView::AlbumsByTag {
                tag: tag@,
                want: *want,
            },
            BrowsePlan::FreshAlbums { days } => BrowsePlanView::FreshAlbums { days: *days },
            BrowsePlan::PopularAlbums { range, want } => BrowsePlanView::PopularAlbums {
                range: range@,
                want: *want,
            },
            BrowsePlan::PopularArtists { range, want } => BrowsePlanView::PopularArtists {
                range: range@,
                want: *want,
            },
        }
    }
}

/// How many works a row of `n` cards asks for: more than it needs, because
/// which of them have a cover cannot be told in advance.
pub open spec fn overfetched(n: int) -> int {
    clamped(n * DISCOVERY_OVERFETCH, 1, LB_MAX_COUNT as int)
}

/// The range of time that a mode looks back on.
pub open spec fn stats_range(mode: BrowseMode) -> Seq<char> {
    if mode == BrowseMode::Trending {
        LB_TRENDING_RANGE@
    } else {
        LB_STATS_RANGE@
    }
}

fn range_of(mode: BrowseMode) -> (range: &'static str)
    ensures
        range@ == stats_range(mode),
{
    if mode == BrowseMode::Trending {
        LB_TRENDING_RANGE
    } else {
        LB_STATS_RANGE
    }
}

/// What a query for a browse row asks upstream.
pub open spec fn plan_of(filters: Filters, n: int) -> BrowsePlanView {
    let want = overfetched(n) as usize;
    match (mode_of(filters), kind_of(filters)) {
        (Some(mode), Some(CardKind::Album)) => match slug_of(filters) {
            Some(slug) => BrowsePlanView::AlbumsByTag {
                tag: with_char_replaced(slug, '-', ' '),
                want,
            },
            None => if mode == BrowseMode::Fresh {
                BrowsePlanView::FreshAlbums { days: FRESH_WINDOW_DAYS }
            } else {
                BrowsePlanView::PopularAlbums { range: stats_range(mode), want }
            },
        },
        (Some(mode), Some(CardKind::Artist)) => if mode == BrowseMode::Fresh {
            BrowsePlanView::Nothing
        } else {
            BrowsePlanView::PopularArtists { range: stats_range(mode), want }
        },
        _ => BrowsePlanView::Nothing,
    }
}

/// Decides what to ask upstream for a browse row of `n` cards.
///
/// An album row with a genre is a tag search. What is trending is what is
/// popular over a shorter range of time. "Fresh artists" is not a thing
/// that ListenBrainz reports, and making it up from the fresh releases would
/// answer a different question, so there is no such row; nor is there one
/// without a kind of work.
pub fn browse_plan(query: &GatewayQuery, n: usize) -> (plan: BrowsePlan)
    ensures
        plan@ == plan_of(query.filters@, n as int),
{
    let Some(mode) = browse_mode(query) else {
        return BrowsePlan::Nothing;
    };
    let Some(kind) = browse_kind(query) else {
        return BrowsePlan::Nothing;
    };
    let want: usize = if n == 0 {
        1
    } else if n > LB_MAX_COUNT / DISCOVERY_OVERFETCH {
        LB_MAX_COUNT
    } else {
        n * DISCOVERY_OVERFETCH
    };
    match kind {
        CardKind::Album => match genre_slug(query) {
            Some(slug) => BrowsePlan::AlbumsByTag { tag: slug_to_tag(slug.as_str()), want },
            None => if mode == BrowseMode::Fresh {
                BrowsePlan::FreshAlbums { days: FRESH_WINDOW_DAYS }
            } else {
                BrowsePlan::PopularAlbums { range: range_of(mode), want }
            },
        },
        CardKind::Artist => if mode == BrowseMode::Fresh {
            BrowsePlan::Nothing
        } else {
            BrowsePlan::PopularArtists { range: range_of(mode), want }
        },
    }
}

/// What upstream answered to a browse plan.
pub enum BrowseAnswer {
    Nothing,
    Groups(Vec<ReleaseGroup>),
    Works(Vec<PopularWork>),
    /// The artists, and the covers looked up for the first of them.
    Artists(Vec<PopularArtist>, Vec<Option<Cover>>),
}

/// The cards of an answer, at most `n`.
pub open spec fn row_of(answer: BrowseAnswer, n: int) -> Seq<CardView> {
    match answer {
        BrowseAnswer::Nothing => Seq::empty(),
        BrowseAnswer::Groups(hits) => head(album_cards_of(hits@), n),
        BrowseAnswer::Works(works) => head(popular_albums_of(work_views(works@)), n),
        BrowseAnswer::Artists(artists, covers) => head(
            popular_artists_of(head(artist_views(artists@), n), covers@),
            n,
        ),
    }
}

/// Makes the cards of a browse row of upstream's answer, at most `n`.
pub fn cards_for_browse(resolver: &Resolver, answer: &BrowseAnswer, n: usize) -> (cards: Vec<Card>)
    ensures
        card_views(cards@) == row_of(*answer, n as int),
{
    let all: Vec<Card> = match answer {
        BrowseAnswer::Nothing => Vec::new(),
        BrowseAnswer::Groups(hits) => resolver.album_cards_for_tag(hits),
        BrowseAnswer::Works(works) => resolver.album_cards_from_popular(works),
        BrowseAnswer::Artists(artists, covers) => resolver.artist_cards_from_popular(
            artists.as_slice(),
            n,
            covers,
        ),
    };
    let ghost before = all@;
    let cards = first_page(all, n);
    assert(card_views(cards@) =~= head(card_views(before), n as int));
    assert(answer is Nothing ==> card_views(before) =~= Seq::empty());
    cards
}

// ---------------------------------------------------------------------------
// Laws
// ---------------------------------------------------------------------------

/// A browse row never holds more cards than were asked for.
pub proof fn lemma_row_is_bounded(answer: BrowseAnswer, n: nat)
    ensures
        row_of(answer, n as int).len() <= n,
{
}

/// What is asked for a row is between one work and the most that a request may
/// ask, and no fewer than the row needs where that is allowed.
pub proof fn lemma_overfetch_is_bounded(n: nat)
    ensures
        1 <= overfetched(n as int) <= LB_MAX_COUNT,
        n <= LB_MAX_COUNT ==> n <= overfetched(n as int),
{
}

/// There is no row without a mode, without a kind of work, or of fresh artists;
/// there is one in every other case.
pub proof fn lemma_which_rows_there_are(filters: Filters, n: int)
    ensures
        plan_of(filters, n) is Nothing <==> {
            ||| mode_of(filters) is None
            ||| kind_of(filters) is None
            ||| mode_of(filters) == Some(BrowseMode::Fresh) && kind_of(filters) == Some(
                CardKind::Artist,
            )
        },
{
}

/// The modes exclude one another in order: fresh wins over trending, and
/// trending over popular.
pub proof fn lemma_mode_precedence(filters: Filters)
    ensures
        mode_of(filters) == Some(BrowseMode::Fresh) <==> is_true(filters, "fresh"@),
        mode_of(filters) == Some(BrowseMode::Trending) <==> is_true(filters, "trending"@)
            && !is_true(filters, "fresh"@),
        mode_of(filters) == Some(BrowseMode::Popular) <==> is_true(filters, "popular"@) && !is_true(
            filters,
            "trending"@,
        ) && !is_true(filters, "fresh"@),
{
}

/// How many days a statistics range reaches back, at most.
pub open spec fn range_days(range: Seq<char>) -> nat {
    if range == "week"@ {
        7
    } else if range == "month"@ {
        31
    } else {
        0
    }
}

/// A trending row is that of the popular feed, asked for over a shorter window:
/// for one kind of work, with no genre to search by, the two plans have the
/// same feed and the same size, and differ in the range alone.
pub proof fn lemma_trending_is_popular_over_a_shorter_window(
    trending: Filters,
    popular: Filters,
    n: int,
)
    requires
        mode_of(trending) == Some(BrowseMode::Trending),
        mode_of(popular) == Some(BrowseMode::Popular),
        kind_of(trending) == kind_of(popular),
        slug_of(trending) is None && slug_of(popular) is None,
    ensures
        range_days(stats_range(BrowseMode::Trending)) < range_days(stats_range(BrowseMode::Popular)),
        match kind_of(popular) {
            Some(CardKind::Album) => plan_of(trending, n) == (BrowsePlanView::PopularAlbums {
                range: stats_range(BrowseMode::Trending),
                want: overfetched(n) as usize,
            }) && plan_of(popular, n) == (BrowsePlanView::PopularAlbums {
                range: stats_range(BrowseMode::Popular),
                want: overfetched(n) as usize,
            }),
            Some(CardKind::Artist) => plan_of(trending, n) == (BrowsePlanView::PopularArtists {
                range: stats_range(BrowseMode::Trending),
                want: overfetched(n) as usize,
            }) && plan_of(popular, n) == (BrowsePlanView::PopularArtists {
                range: stats_range(BrowseMode::Popular),
                want: overfetched(n) as usize,
            }),
            None => true,
        },
{
    reveal_strlit("week");
    reveal_strlit("month");
    assert("week"@.len() == 4 && "month"@.len() == 5);
}

/// Is this an answer to this plan? A plan may go unanswered.
pub open spec fn answers(plan: BrowsePlanView, answer: BrowseAnswer) -> bool {
    match answer {
        BrowseAnswer::Nothing => true,
        BrowseAnswer::Groups(_) => plan is AlbumsByTag,
        BrowseAnswer::Works(_) => plan is FreshAlbums || plan is PopularAlbums,
        BrowseAnswer::Artists(..) => plan is PopularArtists,
    }
}

/// Every card of a browse row is of the kind that the query asked for, has a
/// cover, and would render.
pub proof fn lemma_row_is_of_the_asked_kind(
    filters: Filters,
    n: nat,
    answer: BrowseAnswer,
    i: int,
)
    requires
        answers(plan_of(filters, n as int), answer),
        0 <= i < row_of(answer, n as int).len(),
    ensures
        Some(row_of(answer, n as int)[i].kind) == kind_of(filters),
        row_of(answer, n as int)[i].cover is Some,
        displayable(row_of(answer, n as int)[i]),
{
    match answer {
        BrowseAnswer::Nothing => {},
        BrowseAnswer::Groups(hits) => {
            lemma_album_rows_are_displayable(hits@, Seq::empty(), i);
        },
        BrowseAnswer::Works(works) => {
            lemma_album_rows_are_displayable(Seq::empty(), work_views(works@), i);
        },
        BrowseAnswer::Artists(artists, covers) => {
            lemma_popular_artist_cards_are_displayable(
                head(artist_views(artists@), n as int),
                covers@,
                i,
            );
        },
    }
}

} // verus!
