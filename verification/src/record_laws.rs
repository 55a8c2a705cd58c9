//! What holds of every record a card projects to.
use vstd::prelude::*;

use crate::card::{detailed, displayable, release_type_of, CardKind, CardView, TrackView};
use crate::client::{completed_date, Release};
use crate::consts::MAX_TRACK_COUNT;
use crate::discovery::{is_true, BrowseMode};
use crate::number::{decimal, is_digit, lemma_decimal_injective, lemma_decimal_reads_back};
use crate::record::{
    count_text, identity_fields, in_set, is_web_address, own_fields, play_locators, present_names,
    provenance_key, put, record_fields, record_of, stated_release_type, track_key,
    with_release_fields, with_track, with_tracks, Fields, Filters, LocatorsView,
};
use crate::text::{has_prefix, is_blank, joined, lowered, present, trimmed, unless_empty};

verus! {

/// The field names tell themselves apart by their length and a few characters.
proof fn lemma_keys()
    ensures
        "fileType"@.len() == 8 && "fileType"@[0] == 'f',
        "contentKind"@.len() == 11 && "contentKind"@[0] == 'c' && "contentKind"@[1] == 'o',
        "domain"@.len() == 6 && "domain"@[0] == 'd' && "domain"@[1] == 'o',
        "title"@.len() == 5 && "title"@[0] == 't' && "title"@[1] == 'i',
        "mbReleaseGroupId"@.len() == 16 && "mbReleaseGroupId"@[0] == 'm',
        "mbArtistId"@.len() == 10 && "mbArtistId"@[0] == 'm',
        "albumArtist"@.len() == 11 && "albumArtist"@[0] == 'a' && "albumArtist"@[1] == 'l',
        "artists/"@.len() == 8 && "artists/"@[0] == 'a' && "artists/"@[1] == 'r',
        "releasedate"@.len() == 11 && "releasedate"@[0] == 'r' && "releasedate"@[7] == 'd',
        "trackCount"@.len() == 10 && "trackCount"@[0] == 't' && "trackCount"@[1] == 'r'
            && "trackCount"@[5] == 'C',
        "discCount"@.len() == 9 && "discCount"@[0] == 'd' && "discCount"@[1] == 'i',
        "releaseType"@.len() == 11 && "releaseType"@[0] == 'r' && "releaseType"@[7] == 'T',
        "label"@.len() == 5 && "label"@[0] == 'l',
        "catalogNumber"@.len() == 13 && "catalogNumber"@[0] == 'c' && "catalogNumber"@[1] == 'a',
        "description/eng"@.len() == 15 && "description/eng"@[0] == 'd' && "description/eng"@[1]
            == 'e',
        "genres/"@.len() == 7 && "genres/"@[0] == 'g',
        "tracks/"@.len() == 7 && "tracks/"@[0] == 't' && "tracks/"@[1] == 'r' && "tracks/"@[5]
            == 's',
        "cover"@.len() == 5 && "cover"@[0] == 'c' && "cover"@[1] == 'o',
        "photo"@.len() == 5 && "photo"@[0] == 'p',
        "cids/"@.len() == 5 && "cids/"@[0] == 'c' && "cids/"@[1] == 'i',
        "source/gateway:"@.len() == 15 && "source/gateway:"@[0] == 's',
        "externalPlay/"@.len() == 13 && "externalPlay/"@[0] == 'e',
        "genres"@.len() == 6 && "genres"@[0] == 'g',
        "languages"@.len() == 9 && "languages"@[0] == 'l',
{
    reveal_strlit("fileType");
    reveal_strlit("contentKind");
    reveal_strlit("domain");
    reveal_strlit("title");
    reveal_strlit("mbReleaseGroupId");
    reveal_strlit("mbArtistId");
    reveal_strlit("albumArtist");
    reveal_strlit("artists/");
    reveal_strlit("releasedate");
    reveal_strlit("trackCount");
    reveal_strlit("discCount");
    reveal_strlit("releaseType");
    reveal_strlit("label");
    reveal_strlit("catalogNumber");
    reveal_strlit("description/eng");
    reveal_strlit("genres/");
    reveal_strlit("tracks/");
    reveal_strlit("cover");
    reveal_strlit("photo");
    reveal_strlit("cids/");
    reveal_strlit("source/gateway:");
    reveal_strlit("externalPlay/");
    reveal_strlit("genres");
    reveal_strlit("languages");
}

/// The members of a key-set begin with its prefix.
proof fn lemma_member_prefix(prefix: Seq<char>, names: Seq<Seq<char>>, key: Seq<char>)
    requires
        in_set(prefix, names, key),
    ensures
        has_prefix(key, prefix),
        prefix.len() <= key.len(),
        forall|i: int| 0 <= i < prefix.len() ==> #[trigger] key[i] == prefix[i],
{
    let i = choose|i: int| 0 <= i < names.len() && key == prefix + #[trigger] names[i];
    assert(key.take(prefix.len() as int) =~= prefix);
}

/// A prefix fixes the characters it stands for.
proof fn lemma_prefix_chars(key: Seq<char>, prefix: Seq<char>)
    requires
        has_prefix(key, prefix),
    ensures
        prefix.len() <= key.len(),
        forall|i: int| 0 <= i < prefix.len() ==> #[trigger] key[i] == prefix[i],
{
    assert forall|i: int| 0 <= i < prefix.len() implies #[trigger] key[i] == prefix[i] by {
        assert(key.take(prefix.len() as int)[i] == key[i]);
    }
}

/// The fields of a track all begin with `tracks/`.
proof fn lemma_track_key_prefix(i: nat, field: Seq<char>)
    ensures
        has_prefix(track_key(i, field), "tracks/"@),
{
    let key = track_key(i, field);
    assert(key.take("tracks/"@.len() as int) =~= "tracks/"@);
}

/// The tracks of a card change no field but those that begin with `tracks/`.
proof fn lemma_tracks_frame(fields: Fields, tracks: Seq<TrackView>, key: Seq<char>)
    requires
        !has_prefix(key, "tracks/"@),
    ensures
        with_tracks(fields, tracks).contains_key(key) == fields.contains_key(key),
        fields.contains_key(key) ==> with_tracks(fields, tracks)[key] == fields[key],
    decreases tracks.len(),
{
    if tracks.len() > 0 {
        lemma_tracks_frame(fields, tracks.drop_last(), key);
        let i = (tracks.len() - 1) as nat;
        lemma_track_key_prefix(i, "title"@);
        lemma_track_key_prefix(i, "position"@);
        lemma_track_key_prefix(i, "disc"@);
        lemma_track_key_prefix(i, "length"@);
        lemma_track_key_prefix(i, "mbRecordingId"@);
        lemma_track_key_prefix(i, "isrc"@);
    }
}

/// What the first characters of a key behind a prefix are.
proof fn lemma_behind_a_prefix(key: Seq<char>)
    ensures
        has_prefix(key, "tracks/"@) ==> key.len() >= 7 && key[0] == 't' && key[1] == 'r' && key[5]
            == 's',
        has_prefix(key, "artists/"@) ==> key.len() >= 8 && key[0] == 'a' && key[1] == 'r',
        has_prefix(key, "genres/"@) ==> key.len() >= 7 && key[0] == 'g',
        has_prefix(key, "externalPlay/"@) ==> key.len() >= 13 && key[0] == 'e',
        has_prefix(key, "cids/"@) ==> key.len() >= 5 && key[0] == 'c' && key[1] == 'i',
        has_prefix(key, "source/gateway:"@) ==> key.len() >= 15 && key[0] == 's',
{
    lemma_keys();
    if has_prefix(key, "tracks/"@) {
        lemma_prefix_chars(key, "tracks/"@);
    }
    if has_prefix(key, "artists/"@) {
        lemma_prefix_chars(key, "artists/"@);
    }
    if has_prefix(key, "genres/"@) {
        lemma_prefix_chars(key, "genres/"@);
    }
    if has_prefix(key, "externalPlay/"@) {
        lemma_prefix_chars(key, "externalPlay/"@);
    }
    if has_prefix(key, "cids/"@) {
        lemma_prefix_chars(key, "cids/"@);
    }
    if has_prefix(key, "source/gateway:"@) {
        lemma_prefix_chars(key, "source/gateway:"@);
    }
}

/// The fields of a card that stand behind no prefix.
spec fn plain_fields(card: CardView, at: LocatorsView) -> Fields {
    let fields = Map::empty().insert("fileType"@, "card"@).insert(
        "contentKind"@,
        card.kind.facet(),
    ).insert("domain"@, "music"@).insert("title"@, trimmed(card.title)).insert(
        card.kind.id_key(),
        card.mbid,
    );
    let fields = put(fields, "mbArtistId"@, unless_empty(card.artist_mbid));
    let fields = put(fields, "albumArtist"@, present(card.album_artist));
    let fields = put(
        fields,
        "releasedate"@,
        match card.release_date {
            Some(d) => completed_date(d),
            None => None,
        },
    );
    let fields = put(fields, "trackCount"@, count_text(card.track_count, MAX_TRACK_COUNT));
    let fields = put(fields, "discCount"@, count_text(card.disc_count, u32::MAX));
    let fields = put(fields, "releaseType"@, stated_release_type(card));
    let fields = put(fields, "label"@, present(card.label));
    let fields = put(fields, "catalogNumber"@, present(card.catalog_number));
    let fields = put(fields, "description/eng"@, present(card.disambiguation));
    put(fields, card.kind.artwork_key(), at.artwork)
}

/// Is this key behind one of the prefixes?
spec fn prefixed(key: Seq<char>) -> bool {
    ||| has_prefix(key, "tracks/"@)
    ||| has_prefix(key, "artists/"@)
    ||| has_prefix(key, "genres/"@)
    ||| has_prefix(key, "externalPlay/"@)
    ||| has_prefix(key, "cids/"@)
    ||| has_prefix(key, "source/gateway:"@)
}

/// A key behind no prefix is a field of the card just where it is a plain one.
proof fn lemma_plain_key(card: CardView, at: LocatorsView, key: Seq<char>)
    requires
        !prefixed(key),
    ensures
        own_fields(card, at).contains_key(key) == plain_fields(card, at).contains_key(key),
        plain_fields(card, at).contains_key(key) ==> own_fields(card, at)[key] == plain_fields(
            card,
            at,
        )[key],
{
    if in_set("artists/"@, present_names(card.artists), key) {
        lemma_member_prefix("artists/"@, present_names(card.artists), key);
    }
    if in_set("genres/"@, present_names(card.genres), key) {
        lemma_member_prefix("genres/"@, present_names(card.genres), key);
    }
    if in_set("externalPlay/"@, play_locators(card.streaming_links, at.external_play), key) {
        lemma_member_prefix(
            "externalPlay/"@,
            play_locators(card.streaming_links, at.external_play),
            key,
        );
    }
    lemma_tracks_frame(with_release_fields(identity_fields(card), card), card.tracks, key);
    if let Some(cid) = at.card {
        assert(("cids/"@ + cid).take("cids/"@.len() as int) =~= "cids/"@);
    }
    let stamp = provenance_key(card);
    assert(stamp.take("source/gateway:"@.len() as int) =~= "source/gateway:"@);
}

/// No plain field is behind a prefix.
proof fn lemma_plain_fields_are_not_prefixed(card: CardView, at: LocatorsView, key: Seq<char>)
    requires
        plain_fields(card, at).contains_key(key),
    ensures
        !prefixed(key),
{
    lemma_keys();
    lemma_behind_a_prefix(key);
}

/// The fields a row of tracks adds to others are those it adds to none.
proof fn lemma_tracks_apart(fields: Fields, tracks: Seq<TrackView>, key: Seq<char>)
    ensures
        with_tracks(fields, tracks).contains_key(key) == (fields.contains_key(key) || with_tracks(
            Map::empty(),
            tracks,
        ).contains_key(key)),
    decreases tracks.len(),
{
    if tracks.len() > 0 {
        lemma_tracks_apart(fields, tracks.drop_last(), key);
    }
}

/// Every key of a card, by where it comes from.
proof fn lemma_own_keys(card: CardView, at: LocatorsView, key: Seq<char>)
    ensures
        own_fields(card, at).contains_key(key) == {
            ||| plain_fields(card, at).contains_key(key)
            ||| in_set("artists/"@, present_names(card.artists), key)
            ||| in_set("genres/"@, present_names(card.genres), key)
            ||| with_tracks(Map::empty(), card.tracks).contains_key(key)
            ||| (at.card matches Some(cid) && key == "cids/"@ + cid)
            ||| key == provenance_key(card)
            ||| in_set(
                "externalPlay/"@,
                play_locators(card.streaming_links, at.external_play),
                key,
            )
        },
{
    lemma_tracks_apart(with_release_fields(identity_fields(card), card), card.tracks, key);
}

/// The keys behind a prefix come from what the prefix stands for.
proof fn lemma_prefixes(card: CardView, at: LocatorsView, key: Seq<char>)
    ensures
        has_prefix(key, "cids/"@) ==> own_fields(card, at).contains_key(key) == (
        at.card matches Some(cid) && key == "cids/"@ + cid),
        has_prefix(key, "externalPlay/"@) ==> own_fields(card, at).contains_key(key) == in_set(
            "externalPlay/"@,
            play_locators(card.streaming_links, at.external_play),
            key,
        ),
        has_prefix(key, "genres/"@) ==> own_fields(card, at).contains_key(key) == in_set(
            "genres/"@,
            present_names(card.genres),
            key,
        ),
        has_prefix(key, "artists/"@) ==> own_fields(card, at).contains_key(key) == in_set(
            "artists/"@,
            present_names(card.artists),
            key,
        ),
        has_prefix(key, "tracks/"@) ==> own_fields(card, at).contains_key(key) == with_tracks(
            Map::empty(),
            card.tracks,
        ).contains_key(key),
        prefixed(key) && !has_prefix(key, "tracks/"@) && own_fields(card, at).contains_key(key)
            ==> own_fields(card, at)[key] == "true"@,
{
    lemma_own_keys(card, at, key);
    lemma_keys();
    lemma_behind_a_prefix(key);
    if plain_fields(card, at).contains_key(key) {
        lemma_plain_fields_are_not_prefixed(card, at, key);
    }
    if in_set("artists/"@, present_names(card.artists), key) {
        lemma_member_prefix("artists/"@, present_names(card.artists), key);
    }
    if in_set("genres/"@, present_names(card.genres), key) {
        lemma_member_prefix("genres/"@, present_names(card.genres), key);
    }
    if in_set("externalPlay/"@, play_locators(card.streaming_links, at.external_play), key) {
        lemma_member_prefix(
            "externalPlay/"@,
            play_locators(card.streaming_links, at.external_play),
            key,
        );
    }
    if let Some(cid) = at.card {
        assert(("cids/"@ + cid).take("cids/"@.len() as int) =~= "cids/"@);
    }
    let stamp = provenance_key(card);
    assert(stamp.take("source/gateway:"@.len() as int) =~= "source/gateway:"@);
    if !has_prefix(key, "tracks/"@) {
        lemma_tracks_frame(Map::empty(), card.tracks, key);
        lemma_tracks_frame(with_release_fields(identity_fields(card), card), card.tracks, key);
    }
}

/// A card is emitted just where it would render, whatever the query and the
/// addresses are; and its record is filed under the source and the bare id.
pub proof fn lemma_what_renders_is_emitted(card: CardView, filters: Filters, at: LocatorsView)
    ensures
        record_of(card, filters, at) is Some == displayable(card),
        record_of(card, filters, at) matches Some(r) ==> r.record_id == card.source.name() + ":"@
            + card.mbid && r.upstream_id == card.source.name(),
{
}

/// Echoing a filter never changes a field that the card states itself.
pub proof fn lemma_own_fields_win(
    card: CardView,
    filters: Filters,
    at: LocatorsView,
    key: Seq<char>,
)
    requires
        own_fields(card, at).contains_key(key),
    ensures
        record_fields(card, filters, at).contains_key(key),
        record_fields(card, filters, at)[key] == own_fields(card, at)[key],
{
}

/// Every structured filter of the query is a field of the record, `genres` and
/// `languages` apart: with the values that the query allowed, unless the card
/// states the field itself.
pub proof fn lemma_filters_are_echoed(
    card: CardView,
    filters: Filters,
    at: LocatorsView,
    key: Seq<char>,
)
    requires
        filters.contains_key(key),
        filters[key].len() > 0,
        key != "genres"@,
        key != "languages"@,
    ensures
        record_fields(card, filters, at).contains_key(key),
        !own_fields(card, at).contains_key(key) ==> record_fields(card, filters, at)[key]
            == joined(filters[key], ","@),
        !own_fields(card, at).contains_key(key) && filters[key].len() == 1 ==> record_fields(
            card,
            filters,
            at,
        )[key] == filters[key][0],
{
}

/// The mode of a browse query is a field of every record that answers it, with
/// the values that the query gave it.
pub proof fn lemma_browse_modes_are_echoed(
    card: CardView,
    filters: Filters,
    at: LocatorsView,
    mode: BrowseMode,
)
    requires
        is_true(filters, mode.key()),
    ensures
        record_fields(card, filters, at).contains_key(mode.key()),
        record_fields(card, filters, at)[mode.key()] == joined(filters[mode.key()], ","@),
{
    reveal_strlit("popular");
    reveal_strlit("trending");
    reveal_strlit("fresh");
    assert("popular"@[0] == 'p' && "trending"@[0] == 't' && "trending"@[5] == 'i');
    assert("fresh"@[0] == 'f');
    lemma_keys();
    lemma_behind_a_prefix(mode.key());
    lemma_plain_key(card, at, mode.key());
}

/// A record never carries the flat fields `genres` and `languages`, whatever
/// the query filtered on.
pub proof fn lemma_key_sets_are_not_echoed(card: CardView, filters: Filters, at: LocatorsView)
    ensures
        !record_fields(card, filters, at).contains_key("genres"@),
        !record_fields(card, filters, at).contains_key("languages"@),
{
    lemma_keys();
    lemma_behind_a_prefix("genres"@);
    lemma_behind_a_prefix("languages"@);
    lemma_plain_key(card, at, "genres"@);
    lemma_plain_key(card, at, "languages"@);
}

/// The axes of a card are plain fields.
proof fn lemma_axis(card: CardView, at: LocatorsView, key: Seq<char>)
    ensures
        ({
            let fields = own_fields(card, at);
            &&& key == "fileType"@ ==> fields.contains_key(key) && fields[key] == "card"@
            &&& key == "contentKind"@ ==> fields.contains_key(key) && fields[key]
                == card.kind.facet()
            &&& key == "domain"@ ==> fields.contains_key(key) && fields[key] == "music"@
            &&& key == "title"@ ==> fields.contains_key(key) && fields[key] == trimmed(card.title)
        }),
{
    lemma_keys();
    lemma_behind_a_prefix(key);
    if !prefixed(key) {
        lemma_plain_key(card, at, key);
    }
}

/// Whatever the query filtered on, a record says that it is a card of the music
/// domain, which kind of work it is and what the work is called, and where it
/// came from.
pub proof fn lemma_every_record_has_its_axes(card: CardView, filters: Filters, at: LocatorsView)
    ensures
        ({
            let fields = record_fields(card, filters, at);
            &&& fields.contains_key("fileType"@) && fields["fileType"@] == "card"@
            &&& fields.contains_key("contentKind"@) && fields["contentKind"@] == card.kind.facet()
            &&& fields.contains_key("domain"@) && fields["domain"@] == "music"@
            &&& fields.contains_key("title"@) && fields["title"@] == trimmed(card.title)
            &&& fields.contains_key(provenance_key(card)) && fields[provenance_key(card)]
                == "true"@
        }),
{
    lemma_axis(card, at, "fileType"@);
    lemma_axis(card, at, "contentKind"@);
    lemma_axis(card, at, "domain"@);
    lemma_axis(card, at, "title"@);
    assert(own_fields(card, at).contains_key(provenance_key(card)) && own_fields(
        card,
        at,
    )[provenance_key(card)] == "true"@) by {
        lemma_own_keys(card, at, provenance_key(card));
        let stamp = provenance_key(card);
        assert(stamp.take("source/gateway:"@.len() as int) =~= "source/gateway:"@);
        lemma_behind_a_prefix(stamp);
        lemma_prefixes(card, at, stamp);
    }
}

/// An album is addressed by its release-group and an artist by its artist id;
/// an artist states no release-group and no release type.
pub proof fn lemma_ids_follow_the_kind(card: CardView, at: LocatorsView)
    ensures
        ({
            let fields = own_fields(card, at);
            &&& card.kind == CardKind::Album ==> {
                &&& fields.contains_key("mbReleaseGroupId"@)
                &&& fields["mbReleaseGroupId"@] == card.mbid
                &&& fields.contains_key("mbArtistId"@) == unless_empty(card.artist_mbid) is Some
            }
            &&& card.kind == CardKind::Artist ==> {
                &&& !fields.contains_key("mbReleaseGroupId"@)
                &&& !fields.contains_key("releaseType"@)
                &&& fields.contains_key("mbArtistId"@)
                &&& unless_empty(card.artist_mbid) is None ==> fields["mbArtistId"@] == card.mbid
            }
            &&& unless_empty(card.artist_mbid) matches Some(a) ==> fields["mbArtistId"@] == a
        }),
{
    lemma_keys();
    lemma_behind_a_prefix("mbReleaseGroupId"@);
    lemma_behind_a_prefix("mbArtistId"@);
    lemma_behind_a_prefix("releaseType"@);
    lemma_plain_key(card, at, "mbReleaseGroupId"@);
    lemma_plain_key(card, at, "mbArtistId"@);
    lemma_plain_key(card, at, "releaseType"@);
}

/// A card's artwork is the locator that was minted for it, under the name that
/// its kind has for artwork and not under the other kind's.
pub proof fn lemma_artwork_is_the_locator(card: CardView, at: LocatorsView)
    ensures
        ({
            let fields = own_fields(card, at);
            &&& fields.contains_key(card.kind.artwork_key()) == at.artwork is Some
            &&& at.artwork matches Some(locator) ==> fields[card.kind.artwork_key()] == locator
            &&& card.kind == CardKind::Album ==> !fields.contains_key("photo"@)
            &&& card.kind == CardKind::Artist ==> !fields.contains_key("cover"@)
        }),
{
    lemma_keys();
    lemma_behind_a_prefix("photo"@);
    lemma_behind_a_prefix("cover"@);
    lemma_plain_key(card, at, "photo"@);
    lemma_plain_key(card, at, "cover"@);
}

/// The card's own address is the only member of its `cids/` set: no streaming
/// link can stand for the work.
pub proof fn lemma_only_the_card_address_is_a_cid(card: CardView, at: LocatorsView, key: Seq<char>)
    requires
        has_prefix(key, "cids/"@),
    ensures
        own_fields(card, at).contains_key(key) == (at.card matches Some(cid) && key == "cids/"@
            + cid),
        own_fields(card, at).contains_key(key) ==> own_fields(card, at)[key] == "true"@,
{
    lemma_prefixes(card, at, key);
}

/// The streaming links are the external-play set, by their locators, and a card
/// without any has none.
pub proof fn lemma_streaming_links_are_external_play(
    card: CardView,
    at: LocatorsView,
    key: Seq<char>,
)
    requires
        has_prefix(key, "externalPlay/"@),
    ensures
        own_fields(card, at).contains_key(key) == in_set(
            "externalPlay/"@,
            play_locators(card.streaming_links, at.external_play),
            key,
        ),
        own_fields(card, at).contains_key(key) ==> own_fields(card, at)[key] == "true"@,
{
    lemma_prefixes(card, at, key);
}

/// Only a web address ever becomes an external-play locator: a card whose links
/// are none of them web addresses has none.
pub proof fn lemma_only_web_addresses_are_played(
    links: Seq<Seq<char>>,
    minted: Seq<Option<Seq<char>>>,
)
    requires
        forall|i: int| 0 <= i < links.len() ==> !is_web_address(#[trigger] links[i]),
    ensures
        play_locators(links, minted) == Seq::<Seq<char>>::empty(),
    decreases links.len(),
{
    if links.len() > 0 {
        let init = links.drop_last();
        assert forall|i: int| 0 <= i < init.len() implies !is_web_address(#[trigger] init[i]) by {
            assert(init[i] == links[i]);
        }
        lemma_only_web_addresses_are_played(init, minted);
        assert(!is_web_address(links[links.len() - 1]));
    }
}

/// Is this the external-play key of one of the links: of a web address, for
/// which a locator was minted?
pub open spec fn plays(
    links: Seq<Seq<char>>,
    minted: Seq<Option<Seq<char>>>,
    key: Seq<char>,
) -> bool {
    exists|i: int|
        0 <= i < links.len() && i < minted.len() && is_web_address(links[i]) && (
        #[trigger] minted[i] matches Some(locator) && key == "externalPlay/"@ + locator)
}

/// The external-play set has the keys of the links, and no other.
proof fn lemma_play_keys(links: Seq<Seq<char>>, minted: Seq<Option<Seq<char>>>, key: Seq<char>)
    ensures
        in_set("externalPlay/"@, play_locators(links, minted), key) == plays(links, minted, key),
    decreases links.len(),
{
    if links.len() > 0 {
        let init = links.drop_last();
        let last = links.len() - 1;
        let rest = play_locators(init, minted);
        let all = play_locators(links, minted);
        lemma_play_keys(init, minted, key);
        if plays(init, minted, key) {
            let i = choose|i: int|
                0 <= i < init.len() && i < minted.len() && is_web_address(init[i]) && (
                #[trigger] minted[i] matches Some(locator) && key == "externalPlay/"@ + locator);
            assert(links[i] == init[i]);
            assert(plays(links, minted, key));
            let j = choose|j: int|
                0 <= j < rest.len() && key == "externalPlay/"@ + #[trigger] rest[j];
            assert(all[j] == rest[j]);
        }
        if in_set("externalPlay/"@, all, key) {
            let j = choose|j: int|
                0 <= j < all.len() && key == "externalPlay/"@ + #[trigger] all[j];
            if j < rest.len() {
                assert(rest[j] == all[j]);
            } else {
                assert(minted[last] == Some(all[j]));
            }
        }
        if plays(links, minted, key) {
            let i = choose|i: int|
                0 <= i < links.len() && i < minted.len() && is_web_address(links[i]) && (
                #[trigger] minted[i] matches Some(locator) && key == "externalPlay/"@ + locator);
            if i < last {
                assert(init[i] == links[i]);
            } else {
                assert(all[all.len() - 1] == minted[last]->0);
            }
        }
    }
}

/// A record is addressed by its card and by nothing else, and is played at its
/// card's links and nowhere else.
///
/// Of its keys behind `cids/` there is the card's own address, where that was
/// minted, and no other. Of those behind `externalPlay/` there are the locators
/// that were minted for the card's links to web addresses, and no others. So it
/// is for every query that filters on neither set.
pub proof fn lemma_a_record_has_its_own_addresses(
    card: CardView,
    filters: Filters,
    at: LocatorsView,
    key: Seq<char>,
)
    requires
        displayable(card),
        forall|k: Seq<char>| #[trigger]
            filters.contains_key(k) ==> !has_prefix(k, "cids/"@) && !has_prefix(
                k,
                "externalPlay/"@,
            ),
    ensures
        record_of(card, filters, at) matches Some(r) && {
            &&& has_prefix(key, "cids/"@) ==> r.fields.contains_key(key) == (
            at.card matches Some(cid) && key == "cids/"@ + cid)
            &&& has_prefix(key, "externalPlay/"@) ==> r.fields.contains_key(key) == plays(
                card.streaming_links,
                at.external_play,
                key,
            )
            &&& (has_prefix(key, "cids/"@) || has_prefix(key, "externalPlay/"@))
                && r.fields.contains_key(key) ==> r.fields[key] == "true"@
        },
{
    lemma_prefixes(card, at, key);
    lemma_play_keys(card.streaming_links, at.external_play, key);
}

/// Every locator that was minted for a link to a web address is played, whatever
/// the query filtered on.
pub proof fn lemma_every_minted_link_is_played(
    card: CardView,
    filters: Filters,
    at: LocatorsView,
    i: int,
)
    requires
        displayable(card),
        0 <= i < card.streaming_links.len(),
        i < at.external_play.len(),
        is_web_address(card.streaming_links[i]),
        at.external_play[i] is Some,
    ensures
        record_of(card, filters, at) matches Some(r) && r.fields.contains_key(
            "externalPlay/"@ + at.external_play[i]->0,
        ) && r.fields["externalPlay/"@ + at.external_play[i]->0] == "true"@,
{
    let key = "externalPlay/"@ + at.external_play[i]->0;
    assert(key.take("externalPlay/"@.len() as int) =~= "externalPlay/"@);
    lemma_prefixes(card, at, key);
    lemma_play_keys(card.streaming_links, at.external_play, key);
}

/// Genres and artists are key-sets: one key to each name that is not blank, and
/// never one joined value.
pub proof fn lemma_genres_and_artists_are_key_sets(card: CardView, at: LocatorsView, key: Seq<char>)
    ensures
        has_prefix(key, "genres/"@) ==> own_fields(card, at).contains_key(key) == in_set(
            "genres/"@,
            present_names(card.genres),
            key,
        ),
        has_prefix(key, "artists/"@) ==> own_fields(card, at).contains_key(key) == in_set(
            "artists/"@,
            present_names(card.artists),
            key,
        ),
        (has_prefix(key, "genres/"@) || has_prefix(key, "artists/"@)) && own_fields(
            card,
            at,
        ).contains_key(key) ==> own_fields(card, at)[key] == "true"@,
{
    lemma_behind_a_prefix(key);
    lemma_prefixes(card, at, key);
}

/// A card without tracks states no field behind `tracks/`.
pub proof fn lemma_no_tracks_no_track_fields(card: CardView, at: LocatorsView, key: Seq<char>)
    requires
        card.tracks.len() == 0,
        has_prefix(key, "tracks/"@),
    ensures
        !own_fields(card, at).contains_key(key),
{
    lemma_prefixes(card, at, key);
}

/// The value of one field of a track, where it has one.
pub open spec fn track_value(track: TrackView, field: Seq<char>) -> Option<Seq<char>> {
    if field == "title"@ {
        Some(track.title)
    } else if field == "position"@ {
        Some(decimal(track.position as nat))
    } else if field == "disc"@ {
        Some(decimal(track.disc as nat))
    } else if field == "length"@ {
        match track.length_ms {
            Some(ms) => Some(decimal(ms as nat)),
            None => None,
        }
    } else if field == "mbRecordingId"@ {
        track.mb_recording_id
    } else if field == "isrc"@ {
        track.isrc
    } else {
        None
    }
}

/// A key tells which track it belongs to and which field of it.
proof fn lemma_track_keys_differ(i: nat, f: Seq<char>, j: nat, g: Seq<char>)
    requires
        track_key(i, f) == track_key(j, g),
    ensures
        i == j,
        f == g,
{
    let a = track_key(i, f);
    let b = track_key(j, g);
    let p = "tracks/"@.len() as int;
    let m = decimal(i).len() as int;
    let n = decimal(j).len() as int;
    reveal_strlit("/");
    lemma_decimal_reads_back(i);
    lemma_decimal_reads_back(j);
    assert(a[p + m] == '/');
    assert(b[p + n] == '/');
    if m < n {
        assert(b[p + m] == decimal(j)[m]);
        assert(is_digit(decimal(j)[m]));
    } else if n < m {
        assert(a[p + n] == decimal(i)[n]);
        assert(is_digit(decimal(i)[n]));
    }
    assert(a.subrange(p, p + m) =~= decimal(i));
    assert(b.subrange(p, p + n) =~= decimal(j));
    lemma_decimal_injective(i, j);
    assert(a.skip(p + m + 1) =~= f);
    assert(b.skip(p + n + 1) =~= g);
}

/// What the fields of one track change.
proof fn lemma_with_track(fields: Fields, n: nat, track: TrackView, i: nat, field: Seq<char>)
    ensures
        ({
            let key = track_key(i, field);
            let after = with_track(fields, n, track);
            &&& i != n || track_value(track, field) is None ==> after.contains_key(key)
                == fields.contains_key(key)
            &&& i != n && fields.contains_key(key) ==> after[key] == fields[key]
            &&& i == n ==> (track_value(track, field) matches Some(v) ==> after.contains_key(key)
                && after[key] == v)
        }),
{
    reveal_strlit("title");
    reveal_strlit("position");
    reveal_strlit("disc");
    reveal_strlit("length");
    reveal_strlit("mbRecordingId");
    reveal_strlit("isrc");
    assert("disc"@[0] == 'd' && "isrc"@[0] == 'i');
    let key = track_key(i, field);
    if key == track_key(n, "title"@) {
        lemma_track_keys_differ(i, field, n, "title"@);
    }
    if key == track_key(n, "position"@) {
        lemma_track_keys_differ(i, field, n, "position"@);
    }
    if key == track_key(n, "disc"@) {
        lemma_track_keys_differ(i, field, n, "disc"@);
    }
    if key == track_key(n, "length"@) {
        lemma_track_keys_differ(i, field, n, "length"@);
    }
    if key == track_key(n, "mbRecordingId"@) {
        lemma_track_keys_differ(i, field, n, "mbRecordingId"@);
    }
    if key == track_key(n, "isrc"@) {
        lemma_track_keys_differ(i, field, n, "isrc"@);
    }
}

/// The fields of a row of tracks are those of each track, under its position.
proof fn lemma_tracks_by_position(
    fields: Fields,
    tracks: Seq<TrackView>,
    i: nat,
    field: Seq<char>,
)
    requires
        !fields.contains_key(track_key(i, field)),
    ensures
        ({
            let key = track_key(i, field);
            let after = with_tracks(fields, tracks);
            &&& after.contains_key(key) == (i < tracks.len() && track_value(
                tracks[i as int],
                field,
            ) is Some)
            &&& after.contains_key(key) ==> track_value(tracks[i as int], field) == Some(after[key])
        }),
    decreases tracks.len(),
{
    if tracks.len() > 0 {
        let n = (tracks.len() - 1) as nat;
        let rest = tracks.drop_last();
        lemma_tracks_by_position(fields, rest, i, field);
        lemma_with_track(with_tracks(fields, rest), n, tracks.last(), i, field);
    }
}

/// The canonical track list is an indexed list: behind `tracks/` and a
/// position stand the fields of the track at that position, and nothing else.
pub proof fn lemma_tracks_read_back(card: CardView, at: LocatorsView, i: nat, field: Seq<char>)
    ensures
        ({
            let key = track_key(i, field);
            let fields = own_fields(card, at);
            &&& fields.contains_key(key) == (i < card.tracks.len() && track_value(
                card.tracks[i as int],
                field,
            ) is Some)
            &&& fields.contains_key(key) ==> track_value(card.tracks[i as int], field) == Some(
                fields[key],
            )
        }),
{
    let key = track_key(i, field);
    let base = with_release_fields(identity_fields(card), card);
    lemma_track_key_prefix(i, field);
    lemma_keys();
    lemma_behind_a_prefix(key);
    let bare = CardView { tracks: Seq::empty(), ..card };
    lemma_no_tracks_no_track_fields(bare, at, key);
    assert(!base.contains_key(key));
    lemma_tracks_by_position(base, card.tracks, i, field);
    if in_set("externalPlay/"@, play_locators(card.streaming_links, at.external_play), key) {
        lemma_member_prefix(
            "externalPlay/"@,
            play_locators(card.streaming_links, at.external_play),
            key,
        );
    }
    if let Some(cid) = at.card {
        assert(("cids/"@ + cid).take("cids/"@.len() as int) =~= "cids/"@);
    }
    let stamp = provenance_key(card);
    assert(stamp.take("source/gateway:"@.len() as int) =~= "source/gateway:"@);
}

/// A card with nothing yet that a release tells of it.
pub open spec fn undetailed(card: CardView) -> bool {
    &&& card.track_count is None
    &&& card.disc_count is None
    &&& card.label is None
    &&& card.catalog_number is None
    &&& card.tracks.len() == 0
}

/// Growth is append-only: folding a release into a browse card adds fields to
/// the record at the same address, and changes none that it had.
pub proof fn lemma_detail_only_adds(
    card: CardView,
    release: Release,
    at: LocatorsView,
    key: Seq<char>,
)
    requires
        undetailed(card),
        own_fields(card, at).contains_key(key),
    ensures
        own_fields(detailed(card, release), at).contains_key(key),
        own_fields(detailed(card, release), at)[key] == own_fields(card, at)[key],
{
    let after = detailed(card, release);
    if prefixed(key) {
        lemma_behind_a_prefix(key);
        lemma_own_keys(card, at, key);
        lemma_own_keys(after, at, key);
        lemma_prefixes(card, at, key);
        lemma_prefixes(after, at, key);
    } else {
        lemma_plain_key(card, at, key);
        lemma_plain_key(after, at, key);
        lemma_plain_grows(card, release, at, key);
    }
}

/// The plain fields of a browse card stay when a release is folded into it.
proof fn lemma_plain_grows(card: CardView, release: Release, at: LocatorsView, key: Seq<char>)
    requires
        undetailed(card),
        plain_fields(card, at).contains_key(key),
    ensures
        plain_fields(detailed(card, release), at).contains_key(key),
        plain_fields(detailed(card, release), at)[key] == plain_fields(card, at)[key],
{
    lemma_keys();
    let after = detailed(card, release);
    assert(stated_release_type(after) == stated_release_type(card));
}

/// Is a field of a record there just where its text says something, and is it
/// that text without the white space around it?
pub open spec fn states(fields: Fields, key: Seq<char>, text: Option<Seq<char>>) -> bool {
    &&& text is None ==> !fields.contains_key(key)
    &&& text matches Some(t) ==> {
        &&& is_blank(t) ==> !fields.contains_key(key)
        &&& !is_blank(t) ==> fields.contains_key(key) && fields[key] == trimmed(t)
    }
}

/// A card states its album artist, its label, its catalogue number and what
/// tells it from its namesakes, each where it has one; its date, completed,
/// where that is one; its counts, where they are not zero and, of tracks, not
/// above the ceiling; and, of an album, the type it is filed under.
pub proof fn lemma_a_card_states_its_release(card: CardView, at: LocatorsView)
    ensures
        ({
            let fields = own_fields(card, at);
            &&& states(fields, "albumArtist"@, card.album_artist)
            &&& states(fields, "label"@, card.label)
            &&& states(fields, "catalogNumber"@, card.catalog_number)
            &&& states(fields, "description/eng"@, card.disambiguation)
            &&& card.release_date is None ==> !fields.contains_key("releasedate"@)
            &&& card.release_date matches Some(d) ==> {
                &&& fields.contains_key("releasedate"@) == completed_date(d) is Some
                &&& completed_date(d) matches Some(full) ==> fields["releasedate"@] == full
            }
            &&& fields.contains_key("trackCount"@) == (card.track_count matches Some(n) && 0 < n
                <= 500)
            &&& card.track_count matches Some(n) ==> (0 < n <= 500 ==> fields["trackCount"@]
                == decimal(n as nat))
            &&& fields.contains_key("discCount"@) == (card.disc_count matches Some(n) && 0 < n)
            &&& card.disc_count matches Some(n) ==> (0 < n ==> fields["discCount"@] == decimal(
                n as nat,
            ))
            &&& card.kind == CardKind::Artist ==> !fields.contains_key("releaseType"@)
            &&& card.kind == CardKind::Album ==> {
                &&& fields.contains_key("releaseType"@) == release_type_of(card) is Some
                &&& release_type_of(card) matches Some(t) ==> fields["releaseType"@] == t
            }
        }),
{
    lemma_keys();
    lemma_behind_a_prefix("albumArtist"@);
    lemma_behind_a_prefix("label"@);
    lemma_behind_a_prefix("catalogNumber"@);
    lemma_behind_a_prefix("description/eng"@);
    lemma_behind_a_prefix("releasedate"@);
    lemma_behind_a_prefix("trackCount"@);
    lemma_behind_a_prefix("discCount"@);
    lemma_behind_a_prefix("releaseType"@);
    lemma_plain_key(card, at, "albumArtist"@);
    lemma_plain_key(card, at, "label"@);
    lemma_plain_key(card, at, "catalogNumber"@);
    lemma_plain_key(card, at, "description/eng"@);
    lemma_plain_key(card, at, "releasedate"@);
    lemma_plain_key(card, at, "trackCount"@);
    lemma_plain_key(card, at, "discCount"@);
    lemma_plain_key(card, at, "releaseType"@);
}

/// Is this name one of a list, without the white space around it?
pub open spec fn is_among(list: Seq<Seq<char>>, name: Seq<char>) -> bool {
    exists|i: int| 0 <= i < list.len() && !is_blank(#[trigger] list[i]) && trimmed(list[i]) == name
}

proof fn lemma_present_names(list: Seq<Seq<char>>, name: Seq<char>)
    ensures
        present_names(list).contains(name) == is_among(list, name),
    decreases list.len(),
{
    if list.len() > 0 {
        let init = list.drop_last();
        lemma_present_names(init, name);
        let names = present_names(init);
        let all = present_names(list);
        if is_among(init, name) {
            let i = choose|i: int|
                0 <= i < init.len() && !is_blank(#[trigger] init[i]) && trimmed(init[i]) == name;
            assert(list[i] == init[i]);
            let k = choose|k: int| 0 <= k < names.len() && names[k] == name;
            assert(all[k] == name);
        }
        if !is_blank(list.last()) && trimmed(list.last()) == name {
            assert(list[list.len() - 1] == list.last());
            assert(all[all.len() - 1] == name);
        }
        if is_among(list, name) && !is_among(init, name) {
            let i = choose|i: int|
                0 <= i < list.len() && !is_blank(#[trigger] list[i]) && trimmed(list[i]) == name;
            if i < init.len() {
                assert(init[i] == list[i]);
            }
        }
        if all.contains(name) && !names.contains(name) {
            let k = choose|k: int| 0 <= k < all.len() && all[k] == name;
            if k < names.len() {
                assert(names[k] == name);
            }
        }
    }
}

proof fn lemma_set_of_names(prefix: Seq<char>, list: Seq<Seq<char>>, name: Seq<char>)
    ensures
        in_set(prefix, present_names(list), prefix + name) == is_among(list, name),
        has_prefix(prefix + name, prefix),
{
    lemma_present_names(list, name);
    let names = present_names(list);
    assert((prefix + name).take(prefix.len() as int) =~= prefix);
    if in_set(prefix, names, prefix + name) {
        let i = choose|i: int|
            0 <= i < names.len() && prefix + name == prefix + #[trigger] names[i];
        assert((prefix + name).skip(prefix.len() as int) =~= name);
        assert((prefix + names[i]).skip(prefix.len() as int) =~= names[i]);
    }
    if names.contains(name) {
        let i = choose|i: int| 0 <= i < names.len() && names[i] == name;
        assert(prefix + name == prefix + names[i]);
    }
}

/// Every genre and every artist of a card is a key of its record, `true` behind
/// the prefix of its set, and no other name is.
pub proof fn lemma_every_genre_and_artist_is_a_key(
    card: CardView,
    at: LocatorsView,
    name: Seq<char>,
)
    ensures
        ({
            let fields = own_fields(card, at);
            let genre = "genres/"@ + name;
            let artist = "artists/"@ + name;
            &&& fields.contains_key(genre) <==> is_among(card.genres, name)
            &&& fields.contains_key(genre) ==> fields[genre] == "true"@
            &&& fields.contains_key(artist) <==> is_among(card.artists, name)
            &&& fields.contains_key(artist) ==> fields[artist] == "true"@
        }),
{
    lemma_set_of_names("genres/"@, card.genres, name);
    lemma_set_of_names("artists/"@, card.artists, name);
    lemma_behind_a_prefix("genres/"@ + name);
    lemma_behind_a_prefix("artists/"@ + name);
    lemma_prefixes(card, at, "genres/"@ + name);
    lemma_prefixes(card, at, "artists/"@ + name);
}

/// Every field of a record is one that a card states, or a filter of the query.
/// What a card states has one of these names.
pub proof fn lemma_a_record_has_no_other_fields(
    card: CardView,
    filters: Filters,
    at: LocatorsView,
    key: Seq<char>,
)
    ensures
        record_fields(card, filters, at).contains_key(key) ==> own_fields(card, at).contains_key(
            key,
        ) || filters.contains_key(key),
        own_fields(card, at).contains_key(key) ==> {
            ||| key == "fileType"@ || key == "contentKind"@ || key == "domain"@
            ||| key == "title"@ || key == "mbReleaseGroupId"@ || key == "mbArtistId"@
            ||| key == "albumArtist"@ || key == "releasedate"@ || key == "trackCount"@
            ||| key == "discCount"@ || key == "releaseType"@ || key == "label"@
            ||| key == "catalogNumber"@ || key == "description/eng"@
            ||| key == "cover"@ || key == "photo"@
            ||| has_prefix(key, "artists/"@) || has_prefix(key, "genres/"@)
            ||| has_prefix(key, "tracks/"@) || has_prefix(key, "cids/"@)
            ||| has_prefix(key, "externalPlay/"@) || key == "source/gateway:"@ + "musicbrainz"@
        },
{
    lemma_own_keys(card, at, key);
    if in_set("artists/"@, present_names(card.artists), key) {
        lemma_member_prefix("artists/"@, present_names(card.artists), key);
    }
    if in_set("genres/"@, present_names(card.genres), key) {
        lemma_member_prefix("genres/"@, present_names(card.genres), key);
    }
    if in_set("externalPlay/"@, play_locators(card.streaming_links, at.external_play), key) {
        lemma_member_prefix(
            "externalPlay/"@,
            play_locators(card.streaming_links, at.external_play),
            key,
        );
    }
    if !has_prefix(key, "tracks/"@) {
        lemma_tracks_frame(Map::empty(), card.tracks, key);
    }
    if let Some(cid) = at.card {
        assert(("cids/"@ + cid).take("cids/"@.len() as int) =~= "cids/"@);
    }
}

/// The `i`-th track of a card is stated under its place in the list: its title,
/// its position and its disc always, and its length, its recording and its code
/// where it has them.
pub proof fn lemma_a_card_states_its_tracks(card: CardView, at: LocatorsView, i: nat)
    requires
        i < card.tracks.len(),
    ensures
        ({
            let fields = own_fields(card, at);
            let t = card.tracks[i as int];
            let place = "tracks/"@ + decimal(i) + "/"@;
            &&& fields.contains_key(place + "title"@) && fields[place + "title"@] == t.title
            &&& fields.contains_key(place + "position"@) && fields[place + "position"@] == decimal(
                t.position as nat,
            )
            &&& fields.contains_key(place + "disc"@) && fields[place + "disc"@] == decimal(
                t.disc as nat,
            )
            &&& fields.contains_key(place + "length"@) == t.length_ms is Some
            &&& t.length_ms matches Some(ms) ==> fields[place + "length"@] == decimal(ms as nat)
            &&& fields.contains_key(place + "mbRecordingId"@) == t.mb_recording_id is Some
            &&& t.mb_recording_id matches Some(id) ==> fields[place + "mbRecordingId"@] == id
            &&& fields.contains_key(place + "isrc"@) == t.isrc is Some
            &&& t.isrc matches Some(code) ==> fields[place + "isrc"@] == code
        }),
{
    reveal_strlit("title");
    reveal_strlit("position");
    reveal_strlit("disc");
    reveal_strlit("length");
    reveal_strlit("mbRecordingId");
    reveal_strlit("isrc");
    assert("disc"@[0] == 'd' && "isrc"@[0] == 'i');
    lemma_tracks_read_back(card, at, i, "title"@);
    lemma_tracks_read_back(card, at, i, "position"@);
    lemma_tracks_read_back(card, at, i, "disc"@);
    lemma_tracks_read_back(card, at, i, "length"@);
    lemma_tracks_read_back(card, at, i, "mbRecordingId"@);
    lemma_tracks_read_back(card, at, i, "isrc"@);
}

/// A web address begins with one of the two schemes of the web, in whatever
/// case.
pub proof fn lemma_what_a_web_address_is(url: Seq<char>)
    ensures
        is_web_address(url) <==> has_prefix(lowered(url), "http://"@) || has_prefix(
            lowered(url),
            "https://"@,
        ),
{
}

/// A filter without values adds nothing to the record.
pub proof fn lemma_empty_filters_are_not_echoed(
    card: CardView,
    filters: Filters,
    at: LocatorsView,
    key: Seq<char>,
)
    requires
        !own_fields(card, at).contains_key(key),
        !filters.contains_key(key) || filters[key].len() == 0,
    ensures
        !record_fields(card, filters, at).contains_key(key),
{
}

} // verus!
