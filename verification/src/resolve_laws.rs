//! What holds of every card that is made of an upstream answer.
use vstd::prelude::*;

use crate::card::{detailed, CardKind, CardSource, CardView, Cover, CoverView};
use crate::client::{
    credit_text, first_identified, pair_texts, Artist, ArtistCredit, Release, ReleaseGroup,
};
use crate::distinct::{has_key, how_many, lemma_picked_at, lemma_picked_count};
use crate::genres::{counts, lemma_genres_are_the_most_voted, names_the_best};
use crate::listenbrainz::{ArtistView, WorkView};
use crate::resolve::{
    album_by_id, album_card_of, album_cards_of, artist_by_id, artist_card_of, artist_hits,
    borrowed_cover, credited_name, first_album, listening_link, listening_links,
    popular_album_of, popular_albums_of, popular_artists_of,
};
use crate::text::{has_prefix, is_blank, lowered, opt_text, texts, trimmed};

verus! {

// ---------------------------------------------------------------------------
// Credits
// ---------------------------------------------------------------------------

/// A credit is its names and join phrases, one after the other.
pub proof fn lemma_credits_are_set_one_after_the_other(
    before: Seq<ArtistCredit>,
    credit: ArtistCredit,
)
    ensures
        credit_text(Seq::empty()) == Seq::<char>::empty(),
        credit_text(before.push(credit)) == credit_text(before) + credit.name@
            + credit.joinphrase@,
{
    assert(before.push(credit).drop_last() =~= before);
}

/// Does a credit name an artist by id?
pub open spec fn has_id(credit: ArtistCredit) -> bool {
    credit.artist matches Some(a) && a.id@.len() > 0
}

/// The artist a work is filed under is the first of its credit with an id.
proof fn lemma_first_identified(credits: Seq<ArtistCredit>, i: int)
    requires
        0 <= i < credits.len(),
        has_id(credits[i]),
        forall|j: int| 0 <= j < i ==> !has_id(#[trigger] credits[j]),
    ensures
        first_identified(credits) == credits[i].artist,
    decreases credits.len(),
{
    if i > 0 {
        let rest = credits.drop_first();
        assert(!has_id(credits[0]));
        assert forall|j: int| 0 <= j < i - 1 implies !has_id(#[trigger] rest[j]) by {
            assert(rest[j] == credits[j + 1]);
        }
        lemma_first_identified(rest, i - 1);
    }
}

proof fn lemma_none_identified(credits: Seq<ArtistCredit>)
    requires
        forall|j: int| 0 <= j < credits.len() ==> !has_id(#[trigger] credits[j]),
    ensures
        first_identified(credits) is None,
    decreases credits.len(),
{
    if credits.len() > 0 {
        let rest = credits.drop_first();
        assert(!has_id(credits[0]));
        assert forall|j: int| 0 <= j < rest.len() implies !has_id(#[trigger] rest[j]) by {
            assert(rest[j] == credits[j + 1]);
        }
        lemma_none_identified(rest);
    }
}

/// An album card is filed under the first artist of the credit that has an id,
/// and under none where none has.
pub proof fn lemma_albums_are_filed_under_their_first_artist(rg: ReleaseGroup, i: int)
    requires
        rg.id@.len() > 0,
        !is_blank(rg.title@),
        forall|j: int| 0 <= j < i ==> !has_id(#[trigger] rg.artist_credit@[j]),
    ensures
        album_card_of(rg) matches Some(c) && {
            &&& 0 <= i < rg.artist_credit@.len() && has_id(rg.artist_credit@[i]) ==> c.artist_mbid
                == Some(rg.artist_credit@[i].artist->0.id@)
            &&& i >= rg.artist_credit@.len() ==> c.artist_mbid is None
        },
{
    let credits = rg.artist_credit@;
    if 0 <= i < credits.len() && has_id(credits[i]) {
        lemma_first_identified(credits, i);
    }
    if i >= credits.len() {
        lemma_none_identified(credits);
    }
}

// ---------------------------------------------------------------------------
// Single cards
// ---------------------------------------------------------------------------

/// Does an optional text say anything?
pub open spec fn says(s: Option<String>) -> bool {
    s matches Some(s) && !is_blank(s@)
}

/// A card with nothing that only a release, or a look at the web, can tell.
pub open spec fn thin(c: CardView) -> bool {
    &&& c.track_count is None && c.disc_count is None
    &&& c.label is None && c.catalog_number is None
    &&& c.tracks.len() == 0 && c.streaming_links.len() == 0
}

/// A release-group with an id and a title has an album card, and no other has
/// one. The card is the work's: it has its id, its title and its own front as
/// the cover, its date, its types, and its credit as it is displayed.
pub proof fn lemma_album_card_is_its_release_group(rg: ReleaseGroup)
    ensures
        album_card_of(rg) is Some <==> rg.id@.len() > 0 && !is_blank(rg.title@),
        album_card_of(rg) matches Some(c) ==> {
            &&& c.source == CardSource::MusicBrainz && c.kind == CardKind::Album
            &&& c.mbid == rg.id@ && c.title == trimmed(rg.title@)
            &&& c.cover == Some(CoverView::ReleaseGroupFront { release_group_mbid: rg.id@ })
            &&& c.release_date == opt_text(rg.first_release_date)
            &&& c.primary_type == opt_text(rg.primary_type)
            &&& c.secondary_types == texts(rg.secondary_types@)
            &&& says(rg.disambiguation) ==> c.disambiguation == Some(rg.disambiguation->0@)
            &&& !says(rg.disambiguation) ==> c.disambiguation is None
            &&& is_blank(credit_text(rg.artist_credit@)) ==> c.album_artist is None
            &&& !is_blank(credit_text(rg.artist_credit@)) ==> c.album_artist == Some(
                trimmed(credit_text(rg.artist_credit@)),
            )
            &&& thin(c)
        },
{
}

/// Does a credit give its artist a name?
pub open spec fn is_named(credit: ArtistCredit) -> bool {
    credit.artist matches Some(a) && !is_blank(a.name@)
}

/// Every artist that the credit of a work names is an artist of its card, in
/// the order of the credit, and no other is.
pub proof fn lemma_album_artists_are_those_credited(rg: ReleaseGroup, i: int)
    requires
        rg.id@.len() > 0,
        !is_blank(rg.title@),
    ensures
        album_card_of(rg) matches Some(c) && {
            let credits = rg.artist_credit@;
            let k = how_many(credits.take(i), |x: ArtistCredit| is_named(x)) as int;
            &&& c.artists.len() == how_many(credits, |x: ArtistCredit| is_named(x))
            &&& 0 <= i < credits.len() && is_named(credits[i]) ==> k < c.artists.len()
                && c.artists[k] == credits[i].artist->0.name@
        },
{
    let credits = rg.artist_credit@;
    let pick = |x: ArtistCredit| credited_name(x);
    let keep = |x: ArtistCredit| is_named(x);
    lemma_picked_count(credits, pick, keep);
    if 0 <= i < credits.len() && is_named(credits[i]) {
        lemma_picked_at(credits, pick, keep, i);
    }
}

/// The genres of an album card are the names of the work's most voted genres
/// where its curated list names any, and of its most voted tags where it does
/// not, as in every answer to a search. It has some wherever one of these has a
/// name and a vote.
pub proof fn lemma_album_genres_are_the_most_voted(rg: ReleaseGroup)
    requires
        rg.id@.len() > 0,
        !is_blank(rg.title@),
    ensures
        album_card_of(rg) matches Some(c) && {
            let curated = exists|i: int|
                0 <= i < rg.genres@.len() && !is_blank((#[trigger] rg.genres@[i]).name@);
            &&& curated ==> names_the_best(c.genres, rg.genres@)
            &&& !curated ==> names_the_best(c.genres, rg.tags@)
            &&& forall|i: int|
                0 <= i < rg.genres@.len() && counts(#[trigger] rg.genres@[i]) ==> c.genres.len() > 0
            &&& forall|i: int|
                0 <= i < rg.tags@.len() && counts(#[trigger] rg.tags@[i]) && !curated
                    ==> c.genres.len() > 0
        },
{
    lemma_genres_are_the_most_voted(rg.genres@, rg.tags@);
}

/// A popular work with an id and a title has an album card, and no other has
/// one. The card is the work's: it has its id, its title, its artist and its
/// date, and the image that somebody resolved for it, or else its own front.
pub proof fn lemma_popular_card_is_its_work(w: WorkView)
    ensures
        popular_album_of(w) is Some <==> w.release_group_mbid.len() > 0 && !is_blank(w.title),
        popular_album_of(w) matches Some(c) ==> {
            &&& c.source == CardSource::MusicBrainz && c.kind == CardKind::Album
            &&& c.mbid == w.release_group_mbid && c.title == trimmed(w.title)
            &&& is_blank(w.artist_name) ==> c.album_artist is None && c.artists.len() == 0
            &&& !is_blank(w.artist_name) ==> {
                &&& c.album_artist == Some(w.artist_name)
                &&& c.artists.len() == 1 && c.artists[0] == w.artist_name
            }
            &&& c.artist_mbid == w.artist_mbid
            &&& w.caa is None ==> c.cover == Some(
                CoverView::ReleaseGroupFront { release_group_mbid: w.release_group_mbid },
            )
            &&& w.caa matches Some((release, id)) ==> c.cover == Some(
                CoverView::Resolved { release_mbid: release, caa_id: id },
            )
            &&& c.release_date == w.release_date
            &&& c.disambiguation is None && c.genres.len() == 0
            &&& c.primary_type is None && c.secondary_types.len() == 0
            &&& thin(c)
        },
{
}

/// An artist with an id, a name and a cover has a card, and no other has one.
/// The card is the artist's: it has its id, its name, that cover, and the genres
/// that it was voted.
pub proof fn lemma_artist_card_is_its_artist(a: Artist, cover: Option<CoverView>)
    ensures
        artist_card_of(a, cover) is Some <==> a.id@.len() > 0 && !is_blank(a.name@) && cover
            is Some,
        artist_card_of(a, cover) matches Some(c) ==> {
            &&& c.source == CardSource::MusicBrainz && c.kind == CardKind::Artist
            &&& c.mbid == a.id@ && c.title == trimmed(a.name@)
            &&& c.artists.len() == 1 && c.artists[0] == a.name@
            &&& c.cover == cover
            &&& c.album_artist is None && c.artist_mbid is None && c.release_date is None
            &&& c.primary_type == opt_text(a.artist_type) && c.secondary_types.len() == 0
            &&& says(a.disambiguation) ==> c.disambiguation == Some(a.disambiguation->0@)
            &&& !says(a.disambiguation) ==> c.disambiguation is None
            &&& thin(c)
            &&& (exists|i: int|
                0 <= i < a.genres@.len() && !is_blank((#[trigger] a.genres@[i]).name@))
                ==> names_the_best(c.genres, a.genres@)
            &&& (forall|i: int|
                0 <= i < a.genres@.len() ==> is_blank((#[trigger] a.genres@[i]).name@))
                ==> names_the_best(c.genres, a.tags@)
        },
{
    lemma_genres_are_the_most_voted(a.genres@, a.tags@);
}

// ---------------------------------------------------------------------------
// Rows
// ---------------------------------------------------------------------------

/// Does a release-group make a card?
pub open spec fn is_work(rg: ReleaseGroup) -> bool {
    rg.id@.len() > 0 && !is_blank(rg.title@)
}

/// Does a popular work make a card?
pub open spec fn is_popular_work(w: WorkView) -> bool {
    w.release_group_mbid.len() > 0 && !is_blank(w.title)
}

/// A row of release-groups has a card to each that has an id and a title, in
/// the order of the answer, and no others.
pub proof fn lemma_album_rows_are_complete(hits: Seq<ReleaseGroup>, i: int)
    ensures
        ({
            let row = album_cards_of(hits);
            let keep = |rg: ReleaseGroup| is_work(rg);
            let k = how_many(hits.take(i), keep) as int;
            &&& row.len() == how_many(hits, keep)
            &&& 0 <= i < hits.len() && is_work(hits[i]) ==> {
                &&& k < row.len() && row[k].mbid == hits[i].id@
                &&& Some(row[k]) == album_card_of(hits[i])
            }
        }),
{
    let pick = |rg: ReleaseGroup| album_card_of(rg);
    let keep = |rg: ReleaseGroup| is_work(rg);
    lemma_picked_count(hits, pick, keep);
    if 0 <= i < hits.len() && is_work(hits[i]) {
        lemma_picked_at(hits, pick, keep, i);
    }
}

/// A row of popular works has a card to each that has an id and a title, in the
/// order of the answer, and no others.
pub proof fn lemma_popular_rows_are_complete(works: Seq<WorkView>, i: int)
    ensures
        ({
            let row = popular_albums_of(works);
            let keep = |w: WorkView| is_popular_work(w);
            let k = how_many(works.take(i), keep) as int;
            &&& row.len() == how_many(works, keep)
            &&& 0 <= i < works.len() && is_popular_work(works[i]) ==> {
                &&& k < row.len() && row[k].mbid == works[i].release_group_mbid
                &&& Some(row[k]) == popular_album_of(works[i])
            }
        }),
{
    let pick = |w: WorkView| popular_album_of(w);
    let keep = |w: WorkView| is_popular_work(w);
    lemma_picked_count(works, pick, keep);
    if 0 <= i < works.len() && is_popular_work(works[i]) {
        lemma_picked_at(works, pick, keep, i);
    }
}

/// Is the `i`-th hit shown: has it an id, a name, and a cover that was looked up
/// for it, below the ceiling?
pub open spec fn hit_shown(hits: Seq<Artist>, covers: Seq<Option<Cover>>, i: int) -> bool {
    &&& hits[i].id@.len() > 0 && !is_blank(hits[i].name@)
    &&& i < 3 && i < covers.len() && covers[i] is Some
}

/// How many of the first `n` hits are shown.
pub open spec fn hits_shown(hits: Seq<Artist>, covers: Seq<Option<Cover>>, n: int) -> nat
    decreases n,
{
    if n <= 0 {
        0
    } else if hit_shown(hits, covers, n - 1) {
        hits_shown(hits, covers, n - 1) + 1
    } else {
        hits_shown(hits, covers, n - 1)
    }
}

proof fn lemma_hits_shown(hits: Seq<Artist>, covers: Seq<Option<Cover>>, n: int)
    requires
        0 <= n <= hits.len(),
    ensures
        artist_hits(hits.take(n), covers).len() == hits_shown(hits, covers, n),
    decreases n,
{
    if n > 0 {
        lemma_hits_shown(hits, covers, n - 1);
        assert(hits.take(n).drop_last() =~= hits.take(n - 1));
        assert(hits.take(n).last() == hits[n - 1]);
    }
}

/// The cards of the first hits stand first.
proof fn lemma_hits_front(hits: Seq<Artist>, covers: Seq<Option<Cover>>, n: int)
    requires
        0 <= n <= hits.len(),
    ensures
        artist_hits(hits.take(n), covers).len() <= artist_hits(hits, covers).len(),
        forall|k: int|
            0 <= k < artist_hits(hits.take(n), covers).len() ==> artist_hits(
                hits.take(n),
                covers,
            )[k] == #[trigger] artist_hits(hits, covers)[k],
    decreases hits.len(),
{
    if n < hits.len() {
        lemma_hits_front(hits.drop_last(), covers, n);
        assert(hits.drop_last().take(n) =~= hits.take(n));
    } else {
        assert(hits.take(n) =~= hits);
    }
}

/// Every artist of a search row has its own cover: the card made of the `i`-th
/// hit has the id and the name of that hit, and the cover that was looked up for
/// it and for no other. The cards are in the order of the hits, one to each hit
/// that is shown.
pub proof fn lemma_every_hit_has_its_own_cover(
    hits: Seq<Artist>,
    covers: Seq<Option<Cover>>,
    i: int,
)
    ensures
        ({
            let row = artist_hits(hits, covers);
            let k = hits_shown(hits, covers, i) as int;
            &&& row.len() == hits_shown(hits, covers, hits.len() as int)
            &&& 0 <= i < hits.len() && hit_shown(hits, covers, i) ==> {
                &&& k < row.len()
                &&& row[k].mbid == hits[i].id@ && row[k].title == trimmed(hits[i].name@)
                &&& row[k].cover == Some(covers[i]->0@)
                &&& Some(row[k]) == artist_card_of(hits[i], Some(covers[i]->0@))
            }
        }),
{
    lemma_hits_shown(hits, covers, hits.len() as int);
    assert(hits.take(hits.len() as int) =~= hits);
    if 0 <= i < hits.len() && hit_shown(hits, covers, i) {
        lemma_hits_shown(hits, covers, i);
        lemma_hits_shown(hits, covers, i + 1);
        lemma_hits_front(hits, covers, i + 1);
        assert(hits.take(i + 1).drop_last() =~= hits.take(i));
        assert(hits.take(i + 1).last() == hits[i]);
        let k = hits_shown(hits, covers, i) as int;
        assert(artist_hits(hits.take(i + 1), covers)[k] == artist_hits(hits, covers)[k]);
    }
}

/// Is the `i`-th popular artist shown: has it an id, a name, and a cover that was
/// looked up for it?
pub open spec fn popular_shown(
    artists: Seq<ArtistView>,
    covers: Seq<Option<Cover>>,
    i: int,
) -> bool {
    &&& artists[i].artist_mbid.len() > 0 && !is_blank(artists[i].name)
    &&& i < covers.len() && covers[i] is Some
}

/// How many of the first `n` popular artists are shown.
pub open spec fn populars_shown(artists: Seq<ArtistView>, covers: Seq<Option<Cover>>, n: int) -> nat
    decreases n,
{
    if n <= 0 {
        0
    } else if popular_shown(artists, covers, n - 1) {
        populars_shown(artists, covers, n - 1) + 1
    } else {
        populars_shown(artists, covers, n - 1)
    }
}

proof fn lemma_populars_shown(artists: Seq<ArtistView>, covers: Seq<Option<Cover>>, n: int)
    requires
        0 <= n <= artists.len(),
    ensures
        popular_artists_of(artists.take(n), covers).len() == populars_shown(artists, covers, n),
    decreases n,
{
    if n > 0 {
        lemma_populars_shown(artists, covers, n - 1);
        assert(artists.take(n).drop_last() =~= artists.take(n - 1));
        assert(artists.take(n).last() == artists[n - 1]);
    }
}

proof fn lemma_populars_front(artists: Seq<ArtistView>, covers: Seq<Option<Cover>>, n: int)
    requires
        0 <= n <= artists.len(),
    ensures
        popular_artists_of(artists.take(n), covers).len() <= popular_artists_of(
            artists,
            covers,
        ).len(),
        forall|k: int|
            0 <= k < popular_artists_of(artists.take(n), covers).len() ==> popular_artists_of(
                artists.take(n),
                covers,
            )[k] == #[trigger] popular_artists_of(artists, covers)[k],
    decreases artists.len(),
{
    if n < artists.len() {
        lemma_populars_front(artists.drop_last(), covers, n);
        assert(artists.drop_last().take(n) =~= artists.take(n));
    } else {
        assert(artists.take(n) =~= artists);
    }
}

/// Every artist of a popularity row has its own cover: the card made of the
/// `i`-th artist has the id and the name of that artist, and the cover that was
/// looked up for it and for no other. The cards are in the order of the list, one
/// to each artist that is shown.
pub proof fn lemma_every_popular_artist_has_its_own_cover(
    artists: Seq<ArtistView>,
    covers: Seq<Option<Cover>>,
    i: int,
)
    ensures
        ({
            let row = popular_artists_of(artists, covers);
            let k = populars_shown(artists, covers, i) as int;
            &&& row.len() == populars_shown(artists, covers, artists.len() as int)
            &&& 0 <= i < artists.len() && popular_shown(artists, covers, i) ==> {
                &&& k < row.len()
                &&& row[k].source == CardSource::MusicBrainz && row[k].kind == CardKind::Artist
                &&& row[k].mbid == artists[i].artist_mbid
                &&& row[k].title == trimmed(artists[i].name)
                &&& row[k].artists.len() == 1 && row[k].artists[0] == artists[i].name
                &&& row[k].cover == Some(covers[i]->0@)
                &&& row[k].album_artist is None && row[k].artist_mbid is None
                &&& row[k].genres.len() == 0 && row[k].disambiguation is None
                &&& row[k].release_date is None && row[k].primary_type is None
                &&& row[k].secondary_types.len() == 0 && thin(row[k])
            }
        }),
{
    lemma_populars_shown(artists, covers, artists.len() as int);
    assert(artists.take(artists.len() as int) =~= artists);
    if 0 <= i < artists.len() && popular_shown(artists, covers, i) {
        lemma_populars_shown(artists, covers, i);
        lemma_populars_shown(artists, covers, i + 1);
        lemma_populars_front(artists, covers, i + 1);
        assert(artists.take(i + 1).drop_last() =~= artists.take(i));
        assert(artists.take(i + 1).last() == artists[i]);
        let k = populars_shown(artists, covers, i) as int;
        assert(popular_artists_of(artists.take(i + 1), covers)[k] == popular_artists_of(
            artists,
            covers,
        )[k]);
    }
}

// ---------------------------------------------------------------------------
// Borrowed covers and places to listen
// ---------------------------------------------------------------------------

/// Is this release-group a full album?
pub open spec fn is_full_album(rg: ReleaseGroup) -> bool {
    rg.primary_type matches Some(t) && t@ == "Album"@
}

proof fn lemma_first_album(groups: Seq<ReleaseGroup>, i: int)
    requires
        0 <= i <= groups.len(),
        i < groups.len() ==> is_full_album(groups[i]),
        forall|j: int| 0 <= j < i ==> !is_full_album(#[trigger] groups[j]),
    ensures
        i < groups.len() ==> first_album(groups) == Some(groups[i]),
        i == groups.len() ==> first_album(groups) is None,
    decreases groups.len(),
{
    if i > 0 {
        let rest = groups.drop_first();
        assert(!is_full_album(groups[0]));
        assert forall|j: int| 0 <= j < i - 1 implies !is_full_album(#[trigger] rest[j]) by {
            assert(rest[j] == groups[j + 1]);
        }
        lemma_first_album(rest, i - 1);
    }
}

/// An artist borrows the front of the first full album among its own
/// release-groups; of the first release-group, where none of them is a full
/// album; and none, where there is none to borrow from.
pub proof fn lemma_cover_is_of_the_first_album(groups: Seq<ReleaseGroup>, i: int)
    requires
        0 <= i <= groups.len(),
        i < groups.len() ==> is_full_album(groups[i]),
        forall|j: int| 0 <= j < i ==> !is_full_album(#[trigger] groups[j]),
    ensures
        i < groups.len() ==> borrowed_cover(groups) == Some(
            CoverView::ReleaseGroupFront { release_group_mbid: groups[i].id@ },
        ),
        i == groups.len() && groups.len() > 0 ==> borrowed_cover(groups) == Some(
            CoverView::ReleaseGroupFront { release_group_mbid: groups[0].id@ },
        ),
        groups.len() == 0 ==> borrowed_cover(groups) is None,
{
    lemma_first_album(groups, i);
}

/// Does a relation say where to listen: is it of one of the two streaming types,
/// in whatever case, and does it point at a web address?
pub open spec fn says_where(relation: (Seq<char>, Seq<char>)) -> bool {
    &&& lowered(relation.0) == "streaming"@ || lowered(relation.0) == "free streaming"@
    &&& has_prefix(relation.1, "http://"@) || has_prefix(relation.1, "https://"@)
}

/// One more relation adds its address to the places to listen where it says one
/// that is not among them yet, behind the others; and nothing otherwise.
pub proof fn lemma_places_to_listen_grow(
    before: Seq<(Seq<char>, Seq<char>)>,
    relation: (Seq<char>, Seq<char>),
)
    ensures
        listening_links(Seq::empty()) == Seq::<Seq<char>>::empty(),
        says_where(relation) && !listening_links(before).contains(relation.1) ==> listening_links(
            before.push(relation),
        ) == listening_links(before).push(relation.1),
        !says_where(relation) || listening_links(before).contains(relation.1) ==> listening_links(
            before.push(relation),
        ) == listening_links(before),
{
    let pick = |r: (Seq<char>, Seq<char>)| listening_link(r);
    let same = |url: Seq<char>| url;
    let all = before.push(relation);
    let done = before.filter_map(pick);
    let none: Seq<(Seq<char>, Seq<char>)> = Seq::empty();
    assert(none.filter_map(pick) =~= Seq::empty());
    assert(all.drop_last() =~= before);
    let links = listening_links(before);
    if says_where(relation) {
        assert(all.filter_map(pick) =~= done.push(relation.1));
        assert(done.push(relation.1).drop_last() =~= done);
        assert(has_key(links, same, relation.1) == links.contains(relation.1)) by {
            if links.contains(relation.1) {
                let k = choose|k: int| 0 <= k < links.len() && links[k] == relation.1;
                assert(same(links[k]) == relation.1);
            }
        }
    } else {
        assert(all.filter_map(pick) =~= done);
    }
}

/// The places to listen are the addresses of the relations that say where, and
/// no others.
pub proof fn lemma_every_place_to_listen_is_listed(
    relations: Seq<(Seq<char>, Seq<char>)>,
    url: Seq<char>,
)
    ensures
        listening_links(relations).contains(url) <==> exists|i: int|
            0 <= i < relations.len() && says_where(#[trigger] relations[i]) && relations[i].1
                == url,
    decreases relations.len(),
{
    if relations.len() == 0 {
        lemma_places_to_listen_grow(relations, (url, url));
        assert(relations =~= Seq::empty());
    } else {
        let before = relations.drop_last();
        let last = relations.last();
        lemma_every_place_to_listen_is_listed(before, url);
        lemma_places_to_listen_grow(before, last);
        assert(before.push(last) =~= relations);
        let links = listening_links(before);
        let all = listening_links(relations);
        if links.contains(url) {
            let i = choose|i: int|
                0 <= i < before.len() && says_where(#[trigger] before[i]) && before[i].1 == url;
            assert(relations[i] == before[i]);
            let k = choose|k: int| 0 <= k < links.len() && links[k] == url;
            assert(all[k] == url);
        }
        if says_where(last) && last.1 == url {
            assert(relations[relations.len() - 1] == last);
            if !links.contains(url) {
                assert(all[all.len() - 1] == url);
            }
        }
        if all.contains(url) && !links.contains(url) {
            let k = choose|k: int| 0 <= k < all.len() && all[k] == url;
            if k < links.len() {
                assert(links[k] == url);
            }
        }
        if exists|i: int|
            0 <= i < relations.len() && says_where(#[trigger] relations[i]) && relations[i].1
                == url {
            let i = choose|i: int|
                0 <= i < relations.len() && says_where(#[trigger] relations[i]) && relations[i].1
                    == url;
            if i < before.len() {
                assert(before[i] == relations[i]);
            }
        }
    }
}

/// The card of a work that was looked up is its release-group's, with the
/// release that was found folded in; and there is none without a release-group
/// that makes one.
pub proof fn lemma_looked_up_albums(rg: ReleaseGroup, release: Release)
    ensures
        album_by_id(None, Some(release)) is None && album_by_id(None, None) is None,
        album_by_id(Some(rg), None) == album_card_of(rg),
        album_card_of(rg) is None ==> album_by_id(Some(rg), Some(release)) is None,
        album_card_of(rg) matches Some(c) ==> album_by_id(Some(rg), Some(release)) == Some(
            detailed(c, release),
        ),
{
}

/// The card of an artist that was looked up is the artist's, with every place to
/// listen that its relations say and nothing else changed; and there is none
/// without an artist that makes one.
pub proof fn lemma_looked_up_artists(
    a: Artist,
    cover: Option<CoverView>,
    relations: Vec<(String, String)>,
    url: Seq<char>,
)
    ensures
        artist_by_id(None, cover, Some(relations)) is None,
        artist_by_id(None, cover, None) is None,
        artist_by_id(Some(a), cover, None) == artist_card_of(a, cover),
        artist_card_of(a, cover) is None ==> artist_by_id(Some(a), cover, Some(relations)) is None,
        artist_card_of(a, cover) matches Some(c) ==> (artist_by_id(
            Some(a),
            cover,
            Some(relations),
        ) matches Some(found) && {
            &&& found == (CardView { streaming_links: found.streaming_links, ..c })
            &&& found.streaming_links.contains(url) <==> exists|i: int|
                0 <= i < relations@.len() && says_where(
                    ((#[trigger] relations@[i]).0@, relations@[i].1@),
                ) && relations@[i].1@ == url
        }),
{
    let pairs = pair_texts(relations@);
    lemma_every_place_to_listen_is_listed(pairs, url);
    if let Some(c) = artist_card_of(a, cover) {
        assert(artist_by_id(Some(a), cover, None)->0 =~= c);
        if exists|i: int| 0 <= i < pairs.len() && says_where(#[trigger] pairs[i]) && pairs[i].1
            == url {
            let i = choose|i: int|
                0 <= i < pairs.len() && says_where(#[trigger] pairs[i]) && pairs[i].1 == url;
            assert(says_where((relations@[i].0@, relations@[i].1@)));
        }
        if exists|i: int|
            0 <= i < relations@.len() && says_where(
                ((#[trigger] relations@[i]).0@, relations@[i].1@),
            ) && relations@[i].1@ == url {
            let i = choose|i: int|
                0 <= i < relations@.len() && says_where(
                    ((#[trigger] relations@[i]).0@, relations@[i].1@),
                ) && relations@[i].1@ == url;
            assert(says_where(pairs[i]));
        }
    }
}

} // verus!
