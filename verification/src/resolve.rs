//! Upstream answers to [`Card`]s.
//!
//! The requests themselves are made outside this library. Each method here
//! takes what a request came back with, and says which cards it makes.
use vstd::prelude::*;
use vstd::string::*;

use crate::card::{
    cover_view, detailed, displayable, Card, CardKind, CardSource, CardView, Cover, CoverView,
};
use crate::client::{
    credit_text, first_identified, head, pair_texts, primary_artist, render_credit, Artist,
    ArtistCredit, Asked, Release, ReleaseGroup,
};
use crate::consts::{MAX_ARTIST_COVER_LOOKUPS, MB_MAX_PAGES, MB_PAGE_LIMIT};
use crate::distinct::{first_of_each, has_key, lemma_kept_is_listed, lemma_kept_once};
use crate::genres::{genre_list, genre_names};
use crate::listenbrainz::{
    artist_views, work_views, ArtistView, PopularArtist, PopularWork, WorkView,
};
use crate::record_laws::undetailed;
use crate::text::{
    blank, contains_text, copy_text, copy_texts, copy_unless_blank, has_prefix, is_blank,
    lemma_texts_push, lemma_trimmed_twice, lowered, opt_text, same_text, starts_with, texts,
    to_lower, trim, trimmed, unless_blank, unless_empty,
};

verus! {

/// What each card of a list says.
pub open spec fn card_views(cards: Seq<Card>) -> Seq<CardView> {
    cards.map_values(|c: Card| c@)
}

/// A card with nothing but what it is, its id and its title.
pub open spec fn bare_card(kind: CardKind, mbid: Seq<char>, title: Seq<char>) -> CardView {
    CardView {
        source: CardSource::MusicBrainz,
        kind,
        mbid,
        title,
        album_artist: None,
        artists: Seq::empty(),
        artist_mbid: None,
        cover: None,
        disambiguation: None,
        genres: Seq::empty(),
        release_date: None,
        track_count: None,
        disc_count: None,
        label: None,
        catalog_number: None,
        primary_type: None,
        secondary_types: Seq::empty(),
        tracks: Seq::empty(),
        streaming_links: Seq::empty(),
    }
}

// ---------------------------------------------------------------------------
// Single cards
// ---------------------------------------------------------------------------

/// The name a credit gives its artist, where it gives one.
pub open spec fn credited_name(credit: ArtistCredit) -> Option<Seq<char>> {
    match credit.artist {
        Some(artist) => unless_blank(Some(artist.name@)),
        None => None,
    }
}

/// The album card of a release-group; none where it has no id or no title.
pub open spec fn album_card_of(rg: ReleaseGroup) -> Option<CardView> {
    if rg.id@.len() == 0 || is_blank(rg.title@) {
        None
    } else {
        Some(
            CardView {
                album_artist: unless_empty(Some(trimmed(credit_text(rg.artist_credit@)))),
                artists: rg.artist_credit@.filter_map(|c: ArtistCredit| credited_name(c)),
                artist_mbid: match first_identified(rg.artist_credit@) {
                    Some(artist) => Some(artist.id@),
                    None => None,
                },
                cover: Some(CoverView::ReleaseGroupFront { release_group_mbid: rg.id@ }),
                disambiguation: unless_blank(opt_text(rg.disambiguation)),
                genres: genre_list(rg.genres@, rg.tags@),
                release_date: opt_text(rg.first_release_date),
                primary_type: opt_text(rg.primary_type),
                secondary_types: texts(rg.secondary_types@),
                ..bare_card(CardKind::Album, rg.id@, trimmed(rg.title@))
            },
        )
    }
}

/// The album card of a popular work; none where it has no id or no title.
pub open spec fn popular_album_of(w: WorkView) -> Option<CardView> {
    if w.release_group_mbid.len() == 0 || is_blank(w.title) {
        None
    } else {
        Some(
            CardView {
                album_artist: unless_blank(Some(w.artist_name)),
                artists: if is_blank(w.artist_name) {
                    Seq::empty()
                } else {
                    seq![w.artist_name]
                },
                artist_mbid: w.artist_mbid,
                cover: Some(
                    match w.caa {
                        Some((release_mbid, caa_id)) => CoverView::Resolved {
                            release_mbid,
                            caa_id,
                        },
                        None => CoverView::ReleaseGroupFront {
                            release_group_mbid: w.release_group_mbid,
                        },
                    },
                ),
                release_date: w.release_date,
                ..bare_card(CardKind::Album, w.release_group_mbid, trimmed(w.title))
            },
        )
    }
}

/// The card of a named artist; none without an id, a name or a cover.
pub open spec fn named_artist_card(
    id: Seq<char>,
    name: Seq<char>,
    cover: Option<CoverView>,
) -> Option<CardView> {
    if id.len() == 0 || is_blank(name) || cover is None {
        None
    } else {
        Some(
            CardView {
                artists: seq![name],
                cover,
                ..bare_card(CardKind::Artist, id, trimmed(name))
            },
        )
    }
}

/// The card of an artist; none without an id, a name or a cover.
pub open spec fn artist_card_of(a: Artist, cover: Option<CoverView>) -> Option<CardView> {
    match named_artist_card(a.id@, a.name@, cover) {
        Some(card) => Some(
            CardView {
                disambiguation: unless_blank(opt_text(a.disambiguation)),
                genres: genre_list(a.genres@, a.tags@),
                primary_type: opt_text(a.artist_type),
                ..card
            },
        ),
        None => None,
    }
}

fn credited_names(credits: &Vec<ArtistCredit>) -> (out: Vec<String>)
    ensures
        texts(out@) == credits@.filter_map(|c: ArtistCredit| credited_name(c)),
{
    let ghost pick = |c: ArtistCredit| credited_name(c);
    let mut out: Vec<String> = Vec::new();
    let mut i: usize = 0;
    assert(texts(out@) =~= Seq::empty());
    while i < credits.len()
        invariant
            i <= credits.len(),
            pick == (|c: ArtistCredit| credited_name(c)),
            texts(out@) == credits@.take(i as int).filter_map(pick),
        decreases credits.len() - i,
    {
        proof {
            credits@.lemma_filter_map_take_succ(pick, i as int);
        }
        if let Some(artist) = &credits[i].artist {
            if !blank(artist.name.as_str()) {
                proof {
                    lemma_texts_push(out@, artist.name);
                }
                out.push(artist.name.clone());
            }
        }
        assert(texts(out@) =~= credits@.take(i + 1).filter_map(pick));
        i += 1;
    }
    assert(credits@.take(i as int) =~= credits@);
    out
}

/// Makes cards of upstream answers.
pub struct Resolver;

impl Resolver {
    pub fn new() -> Self {
        Resolver
    }

    /// An album card from a release-group, with no further upstream calls.
    ///
    /// The cover is the release-group front endpoint, which may answer 404;
    /// nothing in hand here can predict that.
    pub fn album_card(&self, rg: &ReleaseGroup) -> (out: Option<Card>)
        ensures
            out is Some == album_card_of(*rg) is Some,
            out matches Some(c) ==> album_card_of(*rg) == Some(c@),
    {
        if rg.id.as_str().is_empty() || blank(rg.title.as_str()) {
            return None;
        }
        let credit = render_credit(rg.artist_credit.as_slice());
        let card = Card {
            source: CardSource::MusicBrainz,
            kind: CardKind::Album,
            mbid: rg.id.clone(),
            title: trim(rg.title.as_str()).to_string(),
            album_artist: if credit.as_str().is_empty() {
                None
            } else {
                Some(credit)
            },
            artists: credited_names(&rg.artist_credit),
            artist_mbid: match primary_artist(rg.artist_credit.as_slice()) {
                Some(artist) => Some(artist.id.clone()),
                None => None,
            },
            cover: Some(Cover::ReleaseGroupFront { release_group_mbid: rg.id.clone() }),
            disambiguation: copy_unless_blank(&rg.disambiguation),
            genres: genre_names(rg.genres.as_slice(), rg.tags.as_slice()),
            release_date: copy_text(&rg.first_release_date),
            track_count: None,
            disc_count: None,
            label: None,
            catalog_number: None,
            primary_type: copy_text(&rg.primary_type),
            secondary_types: copy_texts(&rg.secondary_types),
            tracks: Vec::new(),
            streaming_links: Vec::new(),
        };
        assert(card@ =~= album_card_of(*rg).unwrap());
        Some(card)
    }

    /// An album card from a ListenBrainz entry, with no MusicBrainz call at
    /// all. That is what makes a browse row affordable; the price is a thinner
    /// card, with no genres and no track count.
    pub fn album_card_from_popular(&self, w: &PopularWork) -> (out: Option<Card>)
        ensures
            out is Some == popular_album_of(w@) is Some,
            out matches Some(c) ==> popular_album_of(w@) == Some(c@),
    {
        if w.release_group_mbid.as_str().is_empty() || blank(w.title.as_str()) {
            return None;
        }
        let unnamed = blank(w.artist_name.as_str());
        let mut artists: Vec<String> = Vec::new();
        if !unnamed {
            artists.push(w.artist_name.clone());
        }
        let cover = match &w.caa {
            Some((release_mbid, caa_id)) => Cover::Resolved {
                release_mbid: release_mbid.clone(),
                caa_id: *caa_id,
            },
            None => Cover::ReleaseGroupFront { release_group_mbid: w.release_group_mbid.clone() },
        };
        let card = Card {
            source: CardSource::MusicBrainz,
            kind: CardKind::Album,
            mbid: w.release_group_mbid.clone(),
            title: trim(w.title.as_str()).to_string(),
            album_artist: if unnamed {
                None
            } else {
                Some(w.artist_name.clone())
            },
            artists,
            artist_mbid: copy_text(&w.artist_mbid),
            cover: Some(cover),
            disambiguation: None,
            genres: Vec::new(),
            release_date: copy_text(&w.release_date),
            track_count: None,
            disc_count: None,
            label: None,
            catalog_number: None,
            primary_type: None,
            secondary_types: Vec::new(),
            tracks: Vec::new(),
            streaming_links: Vec::new(),
        };
        assert(card@ =~= popular_album_of(w@).unwrap());
        Some(card)
    }

    /// An artist card.
    ///
    /// The image is borrowed from one of the artist's releases: neither
    /// MusicBrainz nor the Cover Art Archive holds artist photographs. An
    /// artist for whom no cover is in hand gets no card rather than a blank
    /// tile.
    pub fn artist_card(&self, a: &Artist, cover: Option<Cover>) -> (out: Option<Card>)
        ensures
            out is Some == artist_card_of(*a, cover_view(cover)) is Some,
            out matches Some(c) ==> artist_card_of(*a, cover_view(cover)) == Some(c@),
    {
        if a.id.as_str().is_empty() || blank(a.name.as_str()) || cover.is_none() {
            return None;
        }
        let mut artists: Vec<String> = Vec::new();
        artists.push(a.name.clone());
        let card = Card {
            source: CardSource::MusicBrainz,
            kind: CardKind::Artist,
            mbid: a.id.clone(),
            title: trim(a.name.as_str()).to_string(),
            album_artist: None,
            artists,
            artist_mbid: None,
            cover,
            disambiguation: copy_unless_blank(&a.disambiguation),
            genres: genre_names(a.genres.as_slice(), a.tags.as_slice()),
            release_date: None,
            track_count: None,
            disc_count: None,
            label: None,
            catalog_number: None,
            primary_type: copy_text(&a.artist_type),
            secondary_types: Vec::new(),
            tracks: Vec::new(),
            streaming_links: Vec::new(),
        };
        assert(card@ =~= artist_card_of(*a, cover_view(cover)).unwrap());
        Some(card)
    }
}

// ---------------------------------------------------------------------------
// Rows
// ---------------------------------------------------------------------------

/// The album cards of a row of release-groups.
pub open spec fn album_cards_of(hits: Seq<ReleaseGroup>) -> Seq<CardView> {
    hits.filter_map(|rg: ReleaseGroup| album_card_of(rg))
}

/// The album cards of a row of popular works.
pub open spec fn popular_albums_of(works: Seq<WorkView>) -> Seq<CardView> {
    works.filter_map(|w: WorkView| popular_album_of(w))
}

/// The cover that was looked up for the `i`-th entry of a row.
pub open spec fn looked_up(covers: Seq<Option<Cover>>, i: int) -> Option<CoverView> {
    if 0 <= i < covers.len() {
        cover_view(covers[i])
    } else {
        None
    }
}

/// The cards of a row of artist hits. Only the head of the row has covers, and
/// a hit without one gets no card.
pub open spec fn artist_hits(hits: Seq<Artist>, covers: Seq<Option<Cover>>) -> Seq<CardView>
    decreases hits.len(),
{
    if hits.len() == 0 {
        Seq::empty()
    } else {
        let rest = artist_hits(hits.drop_last(), covers);
        let i = hits.len() - 1;
        let cover = if i < MAX_ARTIST_COVER_LOOKUPS {
            looked_up(covers, i)
        } else {
            None
        };
        match artist_card_of(hits.last(), cover) {
            Some(card) => rest.push(card),
            None => rest,
        }
    }
}

/// The cards of a row of popular artists. One without a cover gets no card.
pub open spec fn popular_artists_of(
    artists: Seq<ArtistView>,
    covers: Seq<Option<Cover>>,
) -> Seq<CardView>
    decreases artists.len(),
{
    if artists.len() == 0 {
        Seq::empty()
    } else {
        let rest = popular_artists_of(artists.drop_last(), covers);
        let a = artists.last();
        match named_artist_card(a.artist_mbid, a.name, looked_up(covers, artists.len() - 1)) {
            Some(card) => rest.push(card),
            None => rest,
        }
    }
}

/// The first release-group that is a full album.
pub open spec fn first_album(groups: Seq<ReleaseGroup>) -> Option<ReleaseGroup>
    decreases groups.len(),
{
    if groups.len() == 0 {
        None
    } else if opt_text(groups.first().primary_type) == Some("Album"@) {
        Some(groups.first())
    } else {
        first_album(groups.drop_first())
    }
}

/// The cover an artist borrows from its release-groups: that of the first full
/// album, or of the first release-group where there is none.
pub open spec fn borrowed_cover(groups: Seq<ReleaseGroup>) -> Option<CoverView> {
    match first_album(groups) {
        Some(rg) => Some(CoverView::ReleaseGroupFront { release_group_mbid: rg.id@ }),
        None => if groups.len() > 0 {
            Some(CoverView::ReleaseGroupFront { release_group_mbid: groups[0].id@ })
        } else {
            None
        },
    }
}

/// The address of a relation that says where to listen.
pub open spec fn listening_link(relation: (Seq<char>, Seq<char>)) -> Option<Seq<char>> {
    let kind = lowered(relation.0);
    let url = relation.1;
    if (kind == "streaming"@ || kind == "free streaming"@) && (has_prefix(url, "http://"@)
        || has_prefix(url, "https://"@)) {
        Some(url)
    } else {
        None
    }
}

/// The places to listen among the relations of an artist, each once, in order.
pub open spec fn listening_links(relations: Seq<(Seq<char>, Seq<char>)>) -> Seq<Seq<char>> {
    first_of_each(
        relations.filter_map(|r: (Seq<char>, Seq<char>)| listening_link(r)),
        |url: Seq<char>| url,
    )
}

/// What an optional card says.
pub open spec fn opt_card(card: Option<Card>) -> Option<CardView> {
    match card {
        Some(c) => Some(c@),
        None => None,
    }
}

/// The card of a work that was looked up: its release-group's, with its
/// canonical release folded in where there is one.
pub open spec fn album_by_id(group: Option<ReleaseGroup>, release: Option<Release>) -> Option<
    CardView,
> {
    let found = match group {
        Some(rg) => album_card_of(rg),
        None => None,
    };
    match (found, release) {
        (Some(card), Some(r)) => Some(detailed(card, r)),
        (found, _) => found,
    }
}

/// The card of an artist that was looked up, with the places to listen.
pub open spec fn artist_by_id(
    artist: Option<Artist>,
    cover: Option<CoverView>,
    relations: Option<Vec<(String, String)>>,
) -> Option<CardView> {
    let found = match artist {
        Some(a) => artist_card_of(a, cover),
        None => None,
    };
    let links = match relations {
        Some(relations) => listening_links(pair_texts(relations@)),
        None => Seq::empty(),
    };
    match found {
        Some(card) => Some(CardView { streaming_links: links, ..card }),
        None => None,
    }
}

/// What to ask next for the card of a work.
#[derive(Clone, Copy, Debug, PartialEq, Eq, Structural)]
pub enum AlbumStep {
    /// The release-group itself.
    ReleaseGroup,
    /// Its canonical track list.
    Tracklist,
    /// Nothing: what is in hand decides.
    Done,
}

/// What to ask next for the card of an artist.
#[derive(Clone, Copy, Debug, PartialEq, Eq, Structural)]
pub enum ArtistStep {
    /// The artist itself.
    Artist,
    /// A cover to borrow from its release-groups.
    Cover,
    /// Its relations to web pages.
    Relations,
    /// Nothing: what is in hand decides.
    Done,
}

/// The next request for the card of a work. A track list is asked for only
/// where there is a card to fold it into.
pub open spec fn album_step_of(group: Asked<ReleaseGroup>, release: Asked<Release>) -> AlbumStep {
    match group {
        Asked::NotYet => AlbumStep::ReleaseGroup,
        Asked::Answered(found) => if album_by_id(found, None) is Some && release is NotYet {
            AlbumStep::Tracklist
        } else {
            AlbumStep::Done
        },
    }
}

/// The next request for the card of an artist. A cover is looked for only where
/// the artist was found, and the relations only where there is a card to add
/// them to.
pub open spec fn artist_step_of(
    artist: Asked<Artist>,
    cover: Asked<Cover>,
    relations: Asked<Vec<(String, String)>>,
) -> ArtistStep {
    match artist {
        Asked::NotYet => ArtistStep::Artist,
        Asked::Answered(found) => match cover {
            Asked::NotYet => if found is Some {
                ArtistStep::Cover
            } else {
                ArtistStep::Done
            },
            Asked::Answered(cover) => if artist_by_id(found, cover_view(cover), None) is Some
                && relations is NotYet {
                ArtistStep::Relations
            } else {
                ArtistStep::Done
            },
        },
    }
}

fn copy_cover(cover: &Option<Cover>) -> (out: Option<Cover>)
    ensures
        cover_view(out) == cover_view(*cover),
{
    match cover {
        Some(Cover::ReleaseGroupFront { release_group_mbid }) => Some(
            Cover::ReleaseGroupFront { release_group_mbid: release_group_mbid.clone() },
        ),
        Some(Cover::Resolved { release_mbid, caa_id }) => Some(
            Cover::Resolved { release_mbid: release_mbid.clone(), caa_id: *caa_id },
        ),
        None => None,
    }
}

/// No tags, no genres.
proof fn lemma_no_genres()
    ensures
        genre_list(Seq::empty(), Seq::empty()) == Seq::<Seq<char>>::empty(),
{
    assert(genre_list(Seq::empty(), Seq::empty()) =~= Seq::<Seq<char>>::empty());
}

/// How many of a row of artist hits have a cover looked up for them. Each
/// lookup is a request against a budget of one a second, so only the head of
/// the row pays for one.
pub fn cover_lookups(hits: usize) -> (n: usize)
    ensures
        n == (if hits < MAX_ARTIST_COVER_LOOKUPS {
            hits
        } else {
            MAX_ARTIST_COVER_LOOKUPS
        }),
        hits <= 3 ==> n == hits,
        hits > 3 ==> n == 3,
{
    if hits < MAX_ARTIST_COVER_LOOKUPS {
        hits
    } else {
        MAX_ARTIST_COVER_LOOKUPS
    }
}

/// How many of a popularity list of artists have a cover looked up for them, in
/// a row of `n`: those that the row is made of, and no others.
pub fn popular_cover_lookups(artists: usize, n: usize) -> (k: usize)
    ensures
        k == (if artists < n {
            artists
        } else {
            n
        }),
        k <= artists && k <= n,
        k == artists || k == n,
{
    if artists < n {
        artists
    } else {
        n
    }
}

/// How many release-groups of a discography are asked for.
pub fn discography_cap(n: usize) -> (cap: usize)
    ensures
        cap == (if n < MB_MAX_PAGES * MB_PAGE_LIMIT {
            n as int
        } else {
            MB_MAX_PAGES * MB_PAGE_LIMIT
        }),
        n <= 300 ==> cap == n,
        n > 300 ==> cap == 300,
{
    let most: usize = MB_MAX_PAGES as usize * MB_PAGE_LIMIT;
    if n < most {
        n
    } else {
        most
    }
}

impl Resolver {
    /// The album cards of a row of release-groups, in order.
    fn album_cards(&self, hits: &Vec<ReleaseGroup>) -> (out: Vec<Card>)
        ensures
            card_views(out@) == album_cards_of(hits@),
    {
        let ghost pick = |rg: ReleaseGroup| album_card_of(rg);
        let mut out: Vec<Card> = Vec::new();
        let mut i: usize = 0;
        assert(card_views(out@) =~= Seq::empty());
        while i < hits.len()
            invariant
                i <= hits.len(),
                pick == (|rg: ReleaseGroup| album_card_of(rg)),
                card_views(out@) == hits@.take(i as int).filter_map(pick),
            decreases hits.len() - i,
        {
            proof {
                hits@.lemma_filter_map_take_succ(pick, i as int);
            }
            if let Some(card) = self.album_card(&hits[i]) {
                let ghost before = out@;
                out.push(card);
                assert(card_views(out@) =~= card_views(before).push(card@));
            }
            assert(card_views(out@) =~= hits@.take(i + 1).filter_map(pick));
            i += 1;
        }
        assert(hits@.take(i as int) =~= hits@);
        out
    }

    /// The album cards of a row of popular works, in order.
    pub fn album_cards_from_popular(&self, works: &Vec<PopularWork>) -> (out: Vec<Card>)
        ensures
            card_views(out@) == popular_albums_of(work_views(works@)),
    {
        let ghost pick = |w: WorkView| popular_album_of(w);
        let ghost all = work_views(works@);
        let mut out: Vec<Card> = Vec::new();
        let mut i: usize = 0;
        assert(card_views(out@) =~= Seq::empty());
        while i < works.len()
            invariant
                i <= works.len(),
                pick == (|w: WorkView| popular_album_of(w)),
                all == work_views(works@),
                card_views(out@) == all.take(i as int).filter_map(pick),
            decreases works.len() - i,
        {
            proof {
                all.lemma_filter_map_take_succ(pick, i as int);
            }
            if let Some(card) = self.album_card_from_popular(&works[i]) {
                let ghost before = out@;
                out.push(card);
                assert(card_views(out@) =~= card_views(before).push(card@));
            }
            assert(card_views(out@) =~= all.take(i + 1).filter_map(pick));
            i += 1;
        }
        assert(all.take(i as int) =~= all);
        out
    }

    /// The cards of a free-text album search.
    pub fn album_cards_for_text(&self, hits: &Vec<ReleaseGroup>) -> (out: Vec<Card>)
        ensures
            card_views(out@) == album_cards_of(hits@),
    {
        self.album_cards(hits)
    }

    /// The cards of a genre row.
    pub fn album_cards_for_tag(&self, hits: &Vec<ReleaseGroup>) -> (out: Vec<Card>)
        ensures
            card_views(out@) == album_cards_of(hits@),
    {
        self.album_cards(hits)
    }

    /// An artist's discography as album cards. At most [`discography_cap`] of
    /// them are asked for.
    pub fn album_cards_for_artist(&self, hits: &Vec<ReleaseGroup>) -> (out: Vec<Card>)
        ensures
            card_views(out@) == album_cards_of(hits@),
    {
        self.album_cards(hits)
    }

    /// The cards of a free-text artist search. `covers` are those looked up for
    /// the first [`cover_lookups`] hits.
    pub fn artist_cards_for_text(
        &self,
        hits: &Vec<Artist>,
        covers: &Vec<Option<Cover>>,
    ) -> (out: Vec<Card>)
        ensures
            card_views(out@) == artist_hits(hits@, covers@),
    {
        let mut out: Vec<Card> = Vec::new();
        let mut i: usize = 0;
        assert(card_views(out@) =~= Seq::empty());
        while i < hits.len()
            invariant
                i <= hits.len(),
                card_views(out@) == artist_hits(hits@.take(i as int), covers@),
            decreases hits.len() - i,
        {
            let cover = if i < MAX_ARTIST_COVER_LOOKUPS && i < covers.len() {
                copy_cover(&covers[i])
            } else {
                None
            };
            assert(hits@.take(i + 1).drop_last() =~= hits@.take(i as int));
            assert(hits@.take(i + 1).last() == hits@[i as int]);
            if let Some(card) = self.artist_card(&hits[i], cover) {
                let ghost before = out@;
                out.push(card);
                assert(card_views(out@) =~= card_views(before).push(card@));
            }
            i += 1;
        }
        assert(hits@.take(i as int) =~= hits@);
        out
    }

    /// The cards of a popularity list, of its first `n` artists. `covers` are
    /// those looked up for each of them; an artist without one gets no card
    /// rather than a blank tile.
    pub fn artist_cards_from_popular(
        &self,
        artists: &[PopularArtist],
        n: usize,
        covers: &Vec<Option<Cover>>,
    ) -> (out: Vec<Card>)
        ensures
            card_views(out@) == popular_artists_of(
                head(artist_views(artists@), n as int),
                covers@,
            ),
    {
        let ghost all = head(artist_views(artists@), n as int);
        let mut out: Vec<Card> = Vec::new();
        let mut i: usize = 0;
        assert(card_views(out@) =~= Seq::empty());
        while i < artists.len() && i < n
            invariant
                i <= all.len(),
                all == head(artist_views(artists@), n as int),
                card_views(out@) == popular_artists_of(all.take(i as int), covers@),
            decreases artists.len() - i,
        {
            assert(all.take(i + 1).drop_last() =~= all.take(i as int));
            assert(all.take(i + 1).last() == artists@[i as int]@);
            let cover = if i < covers.len() {
                copy_cover(&covers[i])
            } else {
                None
            };
            let a = Artist {
                id: artists[i].artist_mbid.clone(),
                name: artists[i].name.clone(),
                artist_type: None,
                country: None,
                disambiguation: None,
                tags: Vec::new(),
                genres: Vec::new(),
            };
            proof {
                assert(a.tags@ =~= Seq::empty());
                assert(a.genres@ =~= Seq::empty());
                lemma_no_genres();
            }
            if let Some(card) = self.artist_card(&a, cover) {
                let ghost before = out@;
                out.push(card);
                assert(card_views(out@) =~= card_views(before).push(card@));
                assert(card@ =~= named_artist_card(a.id@, a.name@, cover_view(cover)).unwrap());
            }
            i += 1;
        }
        assert(all.take(i as int) =~= all);
        out
    }

    /// Borrows a cover from one of an artist's release-groups.
    ///
    /// A full album goes before a single or a compilation: its cover is the
    /// image people associate with the artist.
    pub fn cover_for_artist(&self, groups: &Vec<ReleaseGroup>) -> (out: Option<Cover>)
        ensures
            cover_view(out) == borrowed_cover(groups@),
    {
        let mut i: usize = 0;
        assert(groups@.skip(0) =~= groups@);
        while i < groups.len()
            invariant
                i <= groups.len(),
                first_album(groups@) == first_album(groups@.skip(i as int)),
            decreases groups.len() - i,
        {
            assert(groups@.skip(i as int).first() == groups@[i as int]);
            assert(groups@.skip(i as int).drop_first() =~= groups@.skip(i + 1));
            if let Some(t) = &groups[i].primary_type {
                if same_text(t.as_str(), "Album") {
                    return Some(
                        Cover::ReleaseGroupFront { release_group_mbid: groups[i].id.clone() },
                    );
                }
            }
            i += 1;
        }
        if groups.len() > 0 {
            Some(Cover::ReleaseGroupFront { release_group_mbid: groups[0].id.clone() })
        } else {
            None
        }
    }

    /// The places to listen, from an artist's relations. Both flavours count,
    /// `free streaming` and `streaming`. No relations in hand, no links.
    pub fn streaming_links(&self, relations: &Option<Vec<(String, String)>>) -> (out: Vec<String>)
        ensures
            texts(out@) == (match relations {
                Some(relations) => listening_links(pair_texts(relations@)),
                None => Seq::empty(),
            }),
    {
        let mut out: Vec<String> = Vec::new();
        assert(texts(out@) =~= Seq::empty());
        let Some(all) = relations else {
            return out;
        };
        let ghost pairs = pair_texts(all@);
        let ghost pick = |r: (Seq<char>, Seq<char>)| listening_link(r);
        let ghost same = |url: Seq<char>| url;
        let mut i: usize = 0;
        assert(pairs.take(0) =~= Seq::empty());
        while i < all.len()
            invariant
                i <= all.len(),
                pairs == pair_texts(all@),
                pick == (|r: (Seq<char>, Seq<char>)| listening_link(r)),
                same == (|url: Seq<char>| url),
                texts(out@) == first_of_each(pairs.take(i as int).filter_map(pick), same),
            decreases all.len() - i,
        {
            proof {
                pairs.lemma_filter_map_take_succ(pick, i as int);
            }
            let lower = to_lower(all[i].0.as_str());
            let url = all[i].1.as_str();
            if (same_text(lower.as_str(), "streaming") || same_text(
                lower.as_str(),
                "free streaming",
            )) && (starts_with(url, "http://") || starts_with(url, "https://")) {
                let ghost done = pairs.take(i as int).filter_map(pick);
                assert(pairs.take(i + 1).filter_map(pick) =~= done.push(url@));
                assert(done.push(url@).drop_last() =~= done);
                let known = contains_text(&out, url);
                assert(known == has_key(texts(out@), same, url@)) by {
                    if known {
                        let k = choose|k: int|
                            0 <= k < texts(out@).len() && texts(out@)[k] == url@;
                        assert(same(texts(out@)[k]) == url@);
                    }
                }
                if !known {
                    proof {
                        lemma_texts_push(out@, all@[i as int].1);
                    }
                    out.push(all[i].1.clone());
                }
            }
            i += 1;
        }
        assert(pairs.take(i as int) =~= pairs);
        out
    }

    /// What to ask next for the card of a work: the release-group first, and
    /// its track list once there is a card to fold it into.
    pub fn album_step(&self, group: &Asked<ReleaseGroup>, release: &Asked<Release>) -> (step:
        AlbumStep)
        ensures
            step == album_step_of(*group, *release),
    {
        match group {
            Asked::NotYet => AlbumStep::ReleaseGroup,
            Asked::Answered(None) => AlbumStep::Done,
            Asked::Answered(Some(rg)) => match (self.album_card(rg), release) {
                (Some(_), Asked::NotYet) => AlbumStep::Tracklist,
                _ => AlbumStep::Done,
            },
        }
    }

    /// What to ask next for the card of an artist: the artist first, a cover to
    /// borrow for it, and the places to listen once there is a card to add them
    /// to.
    pub fn artist_step(
        &self,
        artist: &Asked<Artist>,
        cover: &Asked<Cover>,
        relations: &Asked<Vec<(String, String)>>,
    ) -> (step: ArtistStep)
        ensures
            step == artist_step_of(*artist, *cover, *relations),
    {
        match artist {
            Asked::NotYet => ArtistStep::Artist,
            Asked::Answered(None) => ArtistStep::Done,
            Asked::Answered(Some(a)) => match cover {
                Asked::NotYet => ArtistStep::Cover,
                Asked::Answered(cover) => {
                    let card = self.artist_card(a, copy_cover(cover));
                    match (card, relations) {
                        (Some(_), Asked::NotYet) => ArtistStep::Relations,
                        _ => ArtistStep::Done,
                    }
                },
            },
        }
    }

    /// The card a deep link or a detail page asks for: the release-group's,
    /// with its canonical release folded in where there is one.
    pub fn album_card_by_mbid(
        &self,
        group: &Option<ReleaseGroup>,
        release: &Option<Release>,
    ) -> (out: Option<Card>)
        ensures
            opt_card(out) == album_by_id(*group, *release),
    {
        let Some(rg) = group else {
            return None;
        };
        let Some(card) = self.album_card(rg) else {
            return None;
        };
        match release {
            Some(r) => Some(card.with_release_detail(r)),
            None => Some(card),
        }
    }

    /// The artist card of the detail path, with the places to listen.
    pub fn artist_card_by_mbid(
        &self,
        artist: &Option<Artist>,
        cover: Option<Cover>,
        relations: &Option<Vec<(String, String)>>,
    ) -> (out: Option<Card>)
        ensures
            opt_card(out) == artist_by_id(*artist, cover_view(cover), *relations),
    {
        let Some(a) = artist else {
            return None;
        };
        let Some(card) = self.artist_card(a, cover) else {
            return None;
        };
        let mut card = card;
        card.streaming_links = self.streaming_links(relations);
        Some(card)
    }
}

// ---------------------------------------------------------------------------
// Laws
// ---------------------------------------------------------------------------

/// Every album card that is made would render, is filed under the id it was
/// made from, and has nothing yet that only a release tells.
pub proof fn lemma_album_cards_are_displayable(rg: ReleaseGroup, w: WorkView)
    ensures
        album_card_of(rg) matches Some(c) ==> {
            &&& displayable(c) && undetailed(c)
            &&& c.kind == CardKind::Album && c.mbid == rg.id@ && c.mbid.len() > 0
        },
        popular_album_of(w) matches Some(c) ==> {
            &&& displayable(c) && undetailed(c)
            &&& c.kind == CardKind::Album && c.mbid == w.release_group_mbid && c.mbid.len() > 0
        },
{
    lemma_trimmed_twice(rg.title@);
    lemma_trimmed_twice(w.title);
}

/// An artist gets a card just where it has an id, a name and a cover, and the
/// card would render.
pub proof fn lemma_artist_cards_need_a_cover(a: Artist, cover: Option<CoverView>)
    ensures
        artist_card_of(a, cover) is Some <==> a.id@.len() > 0 && !is_blank(a.name@) && cover
            is Some,
        artist_card_of(a, cover) matches Some(c) ==> {
            &&& displayable(c) && c.cover == cover
            &&& undetailed(c) && c.kind == CardKind::Artist && c.mbid == a.id@
        },
{
    lemma_trimmed_twice(a.name@);
}

/// A popular work's resolved cover goes before the front endpoint.
pub proof fn lemma_resolved_cover_is_preferred(w: WorkView)
    ensures
        popular_album_of(w) matches Some(c) ==> (c.cover matches Some(CoverView::Resolved { .. }))
            == w.caa is Some,
{
}

/// Every card of a row of release-groups or of popular works is an album's, and
/// would render.
pub proof fn lemma_album_rows_are_displayable(
    hits: Seq<ReleaseGroup>,
    works: Seq<WorkView>,
    i: int,
)
    ensures
        0 <= i < album_cards_of(hits).len() ==> displayable(album_cards_of(hits)[i])
            && album_cards_of(hits)[i].kind == CardKind::Album,
        0 <= i < popular_albums_of(works).len() ==> displayable(popular_albums_of(works)[i])
            && popular_albums_of(works)[i].kind == CardKind::Album,
{
    let pick = |rg: ReleaseGroup| album_card_of(rg);
    let pick_popular = |w: WorkView| popular_album_of(w);
    if 0 <= i < album_cards_of(hits).len() {
        let card = album_cards_of(hits)[i];
        hits.lemma_filter_map_contains(pick, card);
        let rg = choose|rg: ReleaseGroup| #[trigger] hits.contains(rg) && pick(rg) == Some(card);
        lemma_trimmed_twice(rg.title@);
    }
    if 0 <= i < popular_albums_of(works).len() {
        let card = popular_albums_of(works)[i];
        works.lemma_filter_map_contains(pick_popular, card);
        let w = choose|w: WorkView| #[trigger]
            works.contains(w) && pick_popular(w) == Some(card);
        lemma_trimmed_twice(w.title);
    }
}

/// Every card of a row of popular artists is an artist's, and would render.
pub proof fn lemma_popular_artist_cards_are_displayable(
    artists: Seq<ArtistView>,
    covers: Seq<Option<Cover>>,
    i: int,
)
    requires
        0 <= i < popular_artists_of(artists, covers).len(),
    ensures
        displayable(popular_artists_of(artists, covers)[i]),
        popular_artists_of(artists, covers)[i].kind == CardKind::Artist,
    decreases artists.len(),
{
    let rest = popular_artists_of(artists.drop_last(), covers);
    if i < rest.len() {
        lemma_popular_artist_cards_are_displayable(artists.drop_last(), covers, i);
    } else {
        lemma_trimmed_twice(artists.last().name);
    }
}

/// Every card of a row of artist hits is an artist's, and would render.
pub proof fn lemma_artist_hits_are_displayable(
    hits: Seq<Artist>,
    covers: Seq<Option<Cover>>,
    i: int,
)
    requires
        0 <= i < artist_hits(hits, covers).len(),
    ensures
        displayable(artist_hits(hits, covers)[i]),
        artist_hits(hits, covers)[i].kind == CardKind::Artist,
    decreases hits.len(),
{
    let rest = artist_hits(hits.drop_last(), covers);
    if i < rest.len() {
        lemma_artist_hits_are_displayable(hits.drop_last(), covers, i);
    } else {
        lemma_trimmed_twice(hits.last().name@);
    }
}

/// A row of artist hits needs no more covers than are looked up for it.
pub proof fn lemma_hits_need_no_more_covers(hits: Seq<Artist>, covers: Seq<Option<Cover>>)
    ensures
        artist_hits(hits, covers) == artist_hits(
            hits,
            head(covers, MAX_ARTIST_COVER_LOOKUPS as int),
        ),
    decreases hits.len(),
{
    if hits.len() > 0 {
        lemma_hits_need_no_more_covers(hits.drop_last(), covers);
    }
}

/// A row of popular artists needs no more covers than are looked up for it: one
/// to each artist of the row.
pub proof fn lemma_popular_artists_need_no_more_covers(
    artists: Seq<ArtistView>,
    covers: Seq<Option<Cover>>,
    k: int,
)
    requires
        artists.len() <= k,
    ensures
        popular_artists_of(artists, covers) == popular_artists_of(artists, head(covers, k)),
    decreases artists.len(),
{
    if artists.len() > 0 {
        lemma_popular_artists_need_no_more_covers(artists.drop_last(), covers, k);
    }
}

/// The card of a work costs a request for the release-group, and one for the
/// track list where there is a card to fold it into. Each is asked once, and
/// what was not asked by the end could not have changed the card.
pub proof fn lemma_album_asks_what_it_needs(
    group: Asked<ReleaseGroup>,
    release: Asked<Release>,
    other_group: Option<ReleaseGroup>,
    other_release: Option<Release>,
)
    ensures
        album_step_of(group, release) == AlbumStep::ReleaseGroup ==> group is NotYet,
        album_step_of(group, release) == AlbumStep::Tracklist ==> release is NotYet && album_by_id(
            group.known(),
            None,
        ) is Some,
        album_step_of(group, release) == AlbumStep::Done ==> album_by_id(
            group.known(),
            release.known(),
        ) == album_by_id(group.or(other_group), release.or(other_release)),
{
}

/// The card of an artist costs a request for the artist, one for a cover where
/// the artist was found, and one for the relations where there is a card to add
/// them to. Each is asked once, and what was not asked by the end could not have
/// changed the card.
pub proof fn lemma_artist_asks_what_it_needs(
    artist: Asked<Artist>,
    cover: Asked<Cover>,
    relations: Asked<Vec<(String, String)>>,
    other_artist: Option<Artist>,
    other_cover: Option<Cover>,
    other_relations: Option<Vec<(String, String)>>,
)
    ensures
        ({
            let step = artist_step_of(artist, cover, relations);
            &&& step == ArtistStep::Artist ==> artist is NotYet
            &&& step == ArtistStep::Cover ==> cover is NotYet && artist.known() is Some
            &&& step == ArtistStep::Relations ==> relations is NotYet && artist_by_id(
                artist.known(),
                cover_view(cover.known()),
                None,
            ) is Some
            &&& step == ArtistStep::Done ==> artist_by_id(
                artist.known(),
                cover_view(cover.known()),
                relations.known(),
            ) == artist_by_id(
                artist.or(other_artist),
                cover_view(cover.or(other_cover)),
                relations.or(other_relations),
            )
        }),
{
}

/// Every place to listen is a web address, and none is given twice.
pub proof fn lemma_listening_links_are_web_addresses(relations: Seq<(Seq<char>, Seq<char>)>)
    ensures
        ({
            let links = listening_links(relations);
            &&& links.no_duplicates()
            &&& forall|i: int|
                0 <= i < links.len() ==> has_prefix(#[trigger] links[i], "http://"@) || has_prefix(
                    links[i],
                    "https://"@,
                )
        }),
{
    let pick = |r: (Seq<char>, Seq<char>)| listening_link(r);
    let same = |url: Seq<char>| url;
    let all = relations.filter_map(pick);
    let links = listening_links(relations);
    lemma_kept_once(all, same);
    assert forall|i: int, j: int| 0 <= i < links.len() && 0 <= j < links.len() && i != j implies
        links[i] != links[j] by {
        assert(same(links[i]) == links[i] && same(links[j]) == links[j]);
    }
    assert forall|i: int| 0 <= i < links.len() implies has_prefix(#[trigger] links[i], "http://"@)
        || has_prefix(links[i], "https://"@) by {
        lemma_kept_is_listed(all, same, i);
        relations.lemma_filter_map_contains(pick, links[i]);
    }
}

} // verus!
