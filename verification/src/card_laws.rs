//! What holds of every card: of the release that is folded into it, of the type
//! it is filed under, and of its addresses.
use vstd::prelude::*;

use crate::card::{
    cover_url, detailed, id_halves, media_count, media_tracks, medium_disc,
    medium_tracks, record_id_of, release_type_of, titled_track, Card, CardSource, CardView, Cover,
    CoverView,
};
use crate::client::{Medium, Release, Track};
use crate::distinct::{how_many, lemma_picked_at, lemma_picked_count};
use crate::number::signed_decimal;
use crate::text::{
    first_index, is_blank, lemma_first_index, lowered, opt_text, texts, trimmed,
};

verus! {

// ---------------------------------------------------------------------------
// The track list
// ---------------------------------------------------------------------------

/// Does a track have a title, of its own or of its recording?
pub open spec fn has_title(t: Track) -> bool {
    !is_blank(t.title@) || (t.recording matches Some(r) && !is_blank(r.title@))
}

/// How many tracks with a title the first `d` media list.
pub open spec fn titled_upto(media: Seq<Medium>, d: int) -> nat
    decreases d,
{
    if d <= 0 {
        0
    } else {
        titled_upto(media, d - 1) + how_many(media[d - 1].tracks@, |t: Track| has_title(t))
    }
}

/// Where the `i`-th track of the `d`-th medium stands in the track list: behind
/// every track with a title that comes before it.
pub open spec fn track_place(media: Seq<Medium>, d: int, i: int) -> int {
    (titled_upto(media, d) + how_many(media[d].tracks@.take(i), |t: Track| has_title(t))) as int
}

/// The tracks of the first media stand first.
proof fn lemma_media_tracks_front(media: Seq<Medium>, d: int)
    requires
        0 <= d <= media.len(),
    ensures
        media_tracks(media.take(d)).len() == titled_upto(media, d),
        media_tracks(media.take(d)).len() <= media_tracks(media).len(),
        forall|k: int|
            0 <= k < media_tracks(media.take(d)).len() ==> media_tracks(media.take(d))[k]
                == #[trigger] media_tracks(media)[k],
    decreases media.len(),
{
    if d == media.len() {
        assert(media.take(d) =~= media);
        if d > 0 {
            let init = media.drop_last();
            lemma_media_tracks_front(init, d - 1);
            assert(init.take(d - 1) =~= init);
            lemma_titled_upto_front(media, init, d - 1);
            let m = media.last();
            lemma_picked_count(
                m.tracks@,
                |t: Track| titled_track(medium_disc(m), t),
                |t: Track| has_title(t),
            );
        }
    } else {
        let init = media.drop_last();
        lemma_media_tracks_front(init, d);
        assert(init.take(d) =~= media.take(d));
        lemma_titled_upto_front(media, init, d);
    }
}

/// Only the first media tell how many tracks they list.
proof fn lemma_titled_upto_front(a: Seq<Medium>, b: Seq<Medium>, d: int)
    requires
        d <= a.len(),
        d <= b.len(),
        forall|k: int| 0 <= k < d ==> a[k] == b[k],
    ensures
        titled_upto(a, d) == titled_upto(b, d),
    decreases d,
{
    if d > 0 {
        lemma_titled_upto_front(a, b, d - 1);
        assert(a[d - 1] == b[d - 1]);
    }
}

/// Every track with a title is in the track list of the card, behind those that
/// come before it on the release, and its entry says what the track says: its
/// position and its disc, its title, its length, its recording and the first
/// code of that.
///
/// A medium without a position is disc one. What a track leaves out, a title or
/// a length, its recording tells.
pub proof fn lemma_every_titled_track_is_listed(card: CardView, release: Release, d: int, i: int)
    requires
        0 <= d < release.media@.len(),
        0 <= i < release.media@[d].tracks@.len(),
        has_title(release.media@[d].tracks@[i]),
    ensures
        ({
            let m = release.media@[d];
            let t = m.tracks@[i];
            let list = detailed(card, release).tracks;
            let k = track_place(release.media@, d, i);
            &&& 0 <= k < list.len()
            &&& list[k].position == t.position
            &&& m.position > 0 ==> list[k].disc == m.position
            &&& m.position == 0 ==> list[k].disc == 1
            &&& !is_blank(t.title@) ==> list[k].title == t.title@
            &&& is_blank(t.title@) ==> (t.recording matches Some(r) && list[k].title == r.title@)
            &&& t.length is Some ==> list[k].length_ms == t.length
            &&& t.length is None && t.recording is None ==> list[k].length_ms is None
            &&& t.length is None ==> (t.recording matches Some(r) ==> list[k].length_ms
                == r.length)
            &&& t.recording is None ==> list[k].mb_recording_id is None && list[k].isrc is None
            &&& t.recording matches Some(r) ==> {
                &&& r.id@.len() > 0 ==> list[k].mb_recording_id == Some(r.id@)
                &&& r.id@.len() == 0 ==> list[k].mb_recording_id is None
                &&& r.isrcs@.len() > 0 ==> list[k].isrc == Some(r.isrcs@[0]@)
                &&& r.isrcs@.len() == 0 ==> list[k].isrc is None
            }
        }),
{
    let media = release.media@;
    let m = media[d];
    let pick = |t: Track| titled_track(medium_disc(m), t);
    let keep = |t: Track| has_title(t);
    lemma_media_tracks_front(media, d);
    lemma_media_tracks_front(media, d + 1);
    assert(media.take(d + 1).drop_last() =~= media.take(d));
    assert(media.take(d + 1).last() == m);
    lemma_picked_at(m.tracks@, pick, keep, i);
    let k = track_place(media, d, i);
    let upto = media_tracks(media.take(d + 1));
    assert(upto[k] == medium_tracks(m)[k - titled_upto(media, d)]);
    assert(media_tracks(media)[k] == upto[k]);
}

/// The track list of a card has one entry to each track with a title, and no
/// others.
pub proof fn lemma_only_titled_tracks_are_listed(card: CardView, release: Release)
    ensures
        detailed(card, release).tracks.len() == titled_upto(
            release.media@,
            release.media@.len() as int,
        ),
{
    lemma_media_tracks_front(release.media@, release.media@.len() as int);
    assert(release.media@.take(release.media@.len() as int) =~= release.media@);
}

/// Two tracks of one medium that state different positions have different
/// positions in the track list, and the one that comes first on the medium
/// stands first.
pub proof fn lemma_positions_tell_tracks_apart(
    card: CardView,
    release: Release,
    d: int,
    i: int,
    j: int,
)
    requires
        0 <= d < release.media@.len(),
        0 <= i < j < release.media@[d].tracks@.len(),
        has_title(release.media@[d].tracks@[i]),
        has_title(release.media@[d].tracks@[j]),
        release.media@[d].tracks@[i].position != release.media@[d].tracks@[j].position,
    ensures
        ({
            let list = detailed(card, release).tracks;
            let a = track_place(release.media@, d, i);
            let b = track_place(release.media@, d, j);
            &&& 0 <= a < b < list.len()
            &&& list[a].position != list[b].position
            &&& list[a].disc == list[b].disc
        }),
{
    lemma_every_titled_track_is_listed(card, release, d, i);
    lemma_every_titled_track_is_listed(card, release, d, j);
    lemma_how_many_grows(release.media@[d].tracks@, |t: Track| has_title(t), i, j);
}

/// One more item to keep is one more item kept.
proof fn lemma_how_many_grows<T>(items: Seq<T>, keep: spec_fn(T) -> bool, i: int, j: int)
    requires
        0 <= i < j <= items.len(),
        keep(items[i]),
    ensures
        how_many(items.take(i), keep) < how_many(items.take(j), keep),
    decreases j,
{
    assert(items.take(j).drop_last() =~= items.take(j - 1));
    assert(items.take(j).last() == items[j - 1]);
    if i < j - 1 {
        lemma_how_many_grows(items, keep, i, j - 1);
    }
}

// ---------------------------------------------------------------------------
// Counts and labels
// ---------------------------------------------------------------------------

/// How many tracks the first `d` media have, by what each declares, or lists
/// where it declares none.
pub open spec fn tracks_upto(media: Seq<Medium>, d: int) -> nat
    decreases d,
{
    if d <= 0 {
        0
    } else if media[d - 1].track_count > 0 {
        tracks_upto(media, d - 1) + media[d - 1].track_count as nat
    } else {
        tracks_upto(media, d - 1) + media[d - 1].tracks@.len()
    }
}

proof fn lemma_tracks_upto(media: Seq<Medium>, d: int)
    requires
        0 <= d <= media.len(),
        forall|k: int| 0 <= k < media.len() ==> (#[trigger] media[k]).tracks@.len() <= u32::MAX,
    ensures
        media_count(media.take(d)) == tracks_upto(media, d),
    decreases d,
{
    if d > 0 {
        lemma_tracks_upto(media, d - 1);
        assert(media.take(d).drop_last() =~= media.take(d - 1));
        assert(media.take(d).last() == media[d - 1]);
    }
}

/// The counts of a card are those of the release that is folded into it: as
/// many tracks as its media have together, held at the ceiling, and as many
/// discs as there are media. A release without any says nothing of them.
pub proof fn lemma_counts_are_those_of_the_release(card: CardView, release: Release)
    requires
        release.media@.len() <= u32::MAX,
        forall|k: int|
            0 <= k < release.media@.len() ==> (#[trigger] release.media@[k]).tracks@.len()
                <= u32::MAX,
    ensures
        ({
            let n = tracks_upto(release.media@, release.media@.len() as int);
            let after = detailed(card, release);
            &&& n == 0 ==> after.track_count == card.track_count
            &&& 0 < n <= 500 ==> (after.track_count matches Some(c) && c == n)
            &&& n > 500 ==> after.track_count == Some(500u32)
            &&& release.media@.len() == 0 ==> after.disc_count == card.disc_count
            &&& release.media@.len() > 0 ==> (after.disc_count matches Some(c) && c
                == release.media@.len())
        }),
{
    lemma_tracks_upto(release.media@, release.media@.len() as int);
    assert(release.media@.take(release.media@.len() as int) =~= release.media@);
}

/// The label and the catalogue number of a card are those that the release
/// names first; a release that names none says nothing of them.
pub proof fn lemma_label_is_the_first_named(card: CardView, release: Release)
    ensures
        ({
            let after = detailed(card, release);
            let infos = release.label_info@;
            &&& infos.len() == 0 ==> after.label == card.label && after.catalog_number
                == card.catalog_number
            &&& infos.len() > 0 ==> {
                &&& infos[0].label is None ==> after.label is None
                &&& infos[0].label matches Some(l) ==> {
                    &&& l.name@.len() > 0 ==> after.label == Some(l.name@)
                    &&& l.name@.len() == 0 ==> after.label is None
                }
                &&& infos[0].catalog_number is None ==> after.catalog_number is None
                &&& infos[0].catalog_number matches Some(n) ==> {
                    &&& n@.len() > 0 ==> after.catalog_number == Some(n@)
                    &&& n@.len() == 0 ==> after.catalog_number is None
                }
            }
        }),
{
}

/// Folding a release into a card leaves what the card is, and everything that
/// the release does not tell, as it was.
pub proof fn lemma_detail_keeps_the_work(card: CardView, release: Release)
    ensures
        ({
            let after = detailed(card, release);
            &&& after.source == card.source && after.kind == card.kind
            &&& after.mbid == card.mbid && after.title == card.title
            &&& after.album_artist == card.album_artist && after.artists == card.artists
            &&& after.artist_mbid == card.artist_mbid && after.cover == card.cover
            &&& after.disambiguation == card.disambiguation && after.genres == card.genres
            &&& after.release_date == card.release_date
            &&& after.primary_type == card.primary_type && after.secondary_types
                == card.secondary_types
            &&& after.streaming_links == card.streaming_links
        }),
{
}

// ---------------------------------------------------------------------------
// The release type
// ---------------------------------------------------------------------------

/// Does a secondary type name a release type?
pub open spec fn names_secondary(s: Seq<char>) -> bool {
    let token = lowered(trimmed(s));
    ||| token == "compilation"@
    ||| token == "live"@
    ||| token == "soundtrack"@
    ||| token == "remix"@
    ||| token == "dj-mix"@
    ||| token == "dj mix"@
}

/// The first secondary type that names a release type is what a work is filed
/// under, in whatever case it is written and whatever its primary type is.
pub proof fn lemma_first_secondary_type_wins(card: CardView, i: int)
    requires
        0 <= i < card.secondary_types.len(),
        names_secondary(card.secondary_types[i]),
        forall|j: int| 0 <= j < i ==> !names_secondary(#[trigger] card.secondary_types[j]),
    ensures
        ({
            let token = lowered(trimmed(card.secondary_types[i]));
            let filed = release_type_of(card);
            &&& token == "compilation"@ ==> filed == Some("Compilation"@)
            &&& token == "live"@ ==> filed == Some("Live"@)
            &&& token == "soundtrack"@ ==> filed == Some("Soundtrack"@)
            &&& token == "remix"@ ==> filed == Some("Remix"@)
            &&& token == "dj-mix"@ || token == "dj mix"@ ==> filed == Some("DJMix"@)
        }),
    decreases card.secondary_types.len(),
{
    lemma_type_tokens();
    if i > 0 {
        let rest = CardView { secondary_types: card.secondary_types.drop_first(), ..card };
        assert(!names_secondary(card.secondary_types[0]));
        assert forall|j: int| 0 <= j < i - 1 implies !names_secondary(
            #[trigger] rest.secondary_types[j],
        ) by {
            assert(rest.secondary_types[j] == card.secondary_types[j + 1]);
        }
        lemma_first_secondary_type_wins(rest, i - 1);
    }
}

/// A work without a secondary type that names a release type is filed under its
/// primary type, in whatever case that is written; and under none where that
/// names none either.
pub proof fn lemma_primary_type_is_the_rest(card: CardView)
    requires
        forall|j: int|
            0 <= j < card.secondary_types.len() ==> !names_secondary(
                #[trigger] card.secondary_types[j],
            ),
    ensures
        card.primary_type is None ==> release_type_of(card) is None,
        card.primary_type matches Some(s) ==> {
            let token = lowered(trimmed(s));
            let filed = release_type_of(card);
            &&& token == "album"@ ==> filed == Some("Album"@)
            &&& token == "single"@ ==> filed == Some("Single"@)
            &&& token == "ep"@ ==> filed == Some("EP"@)
            &&& token == "broadcast"@ ==> filed == Some("Broadcast"@)
            &&& token == "other"@ ==> filed == Some("Other"@)
            &&& token != "album"@ && token != "single"@ && token != "ep"@ && token
                != "broadcast"@ && token != "other"@ ==> filed is None
        },
    decreases card.secondary_types.len(),
{
    lemma_type_tokens();
    if card.secondary_types.len() > 0 {
        let rest = CardView { secondary_types: card.secondary_types.drop_first(), ..card };
        assert(!names_secondary(card.secondary_types[0]));
        assert forall|j: int| 0 <= j < rest.secondary_types.len() implies !names_secondary(
            #[trigger] rest.secondary_types[j],
        ) by {
            assert(rest.secondary_types[j] == card.secondary_types[j + 1]);
        }
        lemma_primary_type_is_the_rest(rest);
    }
}

/// The names of the types tell themselves apart.
proof fn lemma_type_tokens()
    ensures
        "compilation"@.len() == 11 && "live"@.len() == 4 && "soundtrack"@.len() == 10,
        "remix"@.len() == 5 && "dj-mix"@.len() == 6 && "dj mix"@.len() == 6,
        "album"@.len() == 5 && "single"@.len() == 6 && "ep"@.len() == 2,
        "broadcast"@.len() == 9 && "other"@.len() == 5,
        "album"@[0] == 'a' && "other"@[0] == 'o',
{
    reveal_strlit("compilation");
    reveal_strlit("live");
    reveal_strlit("soundtrack");
    reveal_strlit("remix");
    reveal_strlit("dj-mix");
    reveal_strlit("dj mix");
    reveal_strlit("album");
    reveal_strlit("single");
    reveal_strlit("ep");
    reveal_strlit("broadcast");
    reveal_strlit("other");
}

// ---------------------------------------------------------------------------
// Addresses
// ---------------------------------------------------------------------------

/// A cover is addressed by the release-group whose front it is, or by the
/// release and the number of the image where somebody resolved one.
pub proof fn lemma_covers_are_addressed_by_their_ids(group: Seq<char>, release: Seq<char>, id: i64)
    ensures
        cover_url(CoverView::ReleaseGroupFront { release_group_mbid: group })
            == "https://coverartarchive.org"@ + "/release-group/"@ + group + "/"@ + "front-500"@,
        cover_url(CoverView::Resolved { release_mbid: release, caa_id: id })
            == "https://coverartarchive.org"@ + "/release/"@ + release + "/"@ + signed_decimal(
            id as int,
        ) + "-500.jpg"@,
{
}

/// The record id of a work is the name of its source, a colon and the bare id.
pub proof fn lemma_record_ids_carry_the_bare_id(mbid: Seq<char>)
    ensures
        record_id_of(CardSource::MusicBrainz, mbid) == "musicbrainz"@ + ":"@ + mbid,
{
}

/// A text splits at its first colon wherever there is something on both sides
/// of it, and nowhere else.
pub proof fn lemma_where_ids_split(source: Seq<char>, id: Seq<char>, other: Seq<char>)
    requires
        !source.contains(':'),
        !other.contains(':'),
    ensures
        source.len() > 0 && id.len() > 0 ==> id_halves(source + ":"@ + id) == Some((source, id)),
        source.len() == 0 || id.len() == 0 ==> id_halves(source + ":"@ + id) is None,
        id_halves(other) is None,
{
    reveal_strlit(":");
    let whole = source + ":"@ + id;
    let n = source.len() as int;
    lemma_first_index(whole, ':');
    lemma_first_index(other, ':');
    let at = first_index(whole, ':');
    assert(whole[n] == ':');
    assert forall|i: int| 0 <= i < n implies whole[i] != ':' by {
        assert(source.contains(source[i]));
        assert(whole[i] == source[i]);
    }
    assert(at == n);
    assert(whole.take(n) =~= source);
    assert(whole.skip(n + 1) =~= id);
    if first_index(other, ':') < other.len() {
        assert(other.contains(other[first_index(other, ':')]));
    }
}

// ---------------------------------------------------------------------------
// What cards say
// ---------------------------------------------------------------------------

/// A card says what its fields hold, each field by itself.
pub proof fn lemma_a_card_says_its_fields(card: Card, i: int)
    ensures
        card@.source == card.source && card@.kind == card.kind,
        card@.mbid == card.mbid@ && card@.title == card.title@,
        card@.album_artist == opt_text(card.album_artist),
        card@.artist_mbid == opt_text(card.artist_mbid),
        card@.disambiguation == opt_text(card.disambiguation),
        card@.release_date == opt_text(card.release_date),
        card@.label == opt_text(card.label),
        card@.catalog_number == opt_text(card.catalog_number),
        card@.primary_type == opt_text(card.primary_type),
        card@.track_count == card.track_count && card@.disc_count == card.disc_count,
        card@.artists == texts(card.artists@) && card@.genres == texts(card.genres@),
        card@.secondary_types == texts(card.secondary_types@),
        card@.streaming_links == texts(card.streaming_links@),
        card@.cover is Some == card.cover is Some,
        card.cover matches Some(Cover::ReleaseGroupFront { release_group_mbid }) ==> card@.cover
            == Some(CoverView::ReleaseGroupFront { release_group_mbid: release_group_mbid@ }),
        card.cover matches Some(Cover::Resolved { release_mbid, caa_id }) ==> card@.cover == Some(
            CoverView::Resolved { release_mbid: release_mbid@, caa_id },
        ),
        card@.tracks.len() == card.tracks@.len(),
        0 <= i < card.tracks@.len() ==> {
            let t = card.tracks@[i];
            let said = card@.tracks[i];
            &&& said.position == t.position && said.disc == t.disc && said.title == t.title@
            &&& said.length_ms == t.length_ms
            &&& said.mb_recording_id == opt_text(t.mb_recording_id)
            &&& said.isrc == opt_text(t.isrc)
        },
{
}

} // verus!
