//! The projection of a card to the wire record.
//!
//! A card's addresses are minted outside this library, by the gateway's
//! hashers. [`Card::locator_requests`] says what they are to be minted from,
//! and [`Card::to_record`] takes what came back as [`Locators`].
use vstd::prelude::*;
use vstd::string::*;

use crate::card::{
    cover_url, displayable, record_id_of, release_type_of, CanonicalTrack, Card, CardKind, CardView,
    TrackView,
};
use crate::client::{completed_date, normalise_date};
use crate::consts::MAX_TRACK_COUNT;
use crate::number::{decimal, decimal_text};
use crate::strmap::{lemma_key_list, StrMap};
use crate::text::{
    copy_texts, has_prefix, join, joined, lowered, opt_text, present, same_text, starts_with, texts,
    to_lower, trim, trim_present, trimmed, unless_empty,
};

verus! {

/// A record as the gateway takes it: who published it, its feeder-scoped id and
/// its fields.
pub struct DiscoveryRecord {
    pub upstream_id: String,
    pub record_id: String,
    pub fields: StrMap<String>,
}

/// What a record says.
#[verifier::ext_equal]
pub struct RecordView {
    pub upstream_id: Seq<char>,
    pub record_id: Seq<char>,
    pub fields: Fields,
}

impl View for DiscoveryRecord {
    type V = RecordView;

    open spec fn view(&self) -> RecordView {
        RecordView {
            upstream_id: self.upstream_id@,
            record_id: self.record_id@,
            fields: self.fields@,
        }
    }
}

/// What an optional record says.
pub open spec fn opt_record(record: Option<DiscoveryRecord>) -> Option<RecordView> {
    match record {
        Some(r) => Some(r@),
        None => None,
    }
}

/// What the addresses of a card are minted from.
pub struct LocatorRequests {
    /// The source half of the card address's preimage.
    pub source: String,
    /// The id half of the card address's preimage.
    pub id: String,
    /// The image to mint an artwork locator for.
    pub artwork: Option<String>,
    /// The pages to mint external-play locators for, in order.
    pub external_play: Vec<String>,
}

/// The addresses minted for a card; one that could not be minted is absent.
pub struct Locators {
    /// The card's own address.
    pub card: Option<String>,
    /// The locator of the card's cover image.
    pub artwork: Option<String>,
    /// The locators of the card's streaming links, in order.
    pub external_play: Vec<Option<String>>,
}

/// What a set of minted addresses is.
#[verifier::ext_equal]
pub struct LocatorsView {
    pub card: Option<Seq<char>>,
    pub artwork: Option<Seq<char>>,
    pub external_play: Seq<Option<Seq<char>>>,
}

impl View for Locators {
    type V = LocatorsView;

    open spec fn view(&self) -> LocatorsView {
        LocatorsView {
            card: opt_text(self.card),
            artwork: opt_text(self.artwork),
            external_play: self.external_play@.map_values(|s: Option<String>| opt_text(s)),
        }
    }
}

/// The fields of a record.
pub type Fields = Map<Seq<char>, Seq<char>>;

/// Fields with one more, where there is a value for it.
pub open spec fn put(fields: Fields, key: Seq<char>, value: Option<Seq<char>>) -> Fields {
    match value {
        Some(v) => fields.insert(key, v),
        None => fields,
    }
}

/// Is this key a member of a key-set?
pub open spec fn in_set(prefix: Seq<char>, names: Seq<Seq<char>>, key: Seq<char>) -> bool {
    exists|i: int| 0 <= i < names.len() && key == prefix + #[trigger] names[i]
}

/// Fields with a key-set: each name, behind the prefix, is a key whose value is
/// `true`.
pub open spec fn with_set(fields: Fields, prefix: Seq<char>, names: Seq<Seq<char>>) -> Fields {
    Map::new(
        |key: Seq<char>| fields.contains_key(key) || in_set(prefix, names, key),
        |key: Seq<char>|
            if in_set(prefix, names, key) {
                "true"@
            } else {
                fields[key]
            },
    )
}

/// The names of a list that are not blank, trimmed.
pub open spec fn present_names(list: Seq<Seq<char>>) -> Seq<Seq<char>> {
    list.filter_map(|s: Seq<char>| present(Some(s)))
}

/// A web address: what a consumer may hand to an anchor or a new tab.
pub open spec fn is_web_address(url: Seq<char>) -> bool {
    has_prefix(lowered(url), "http://"@) || has_prefix(lowered(url), "https://"@)
}

/// The locators of the links that are web addresses, where one was minted.
pub open spec fn play_locators(
    links: Seq<Seq<char>>,
    minted: Seq<Option<Seq<char>>>,
) -> Seq<Seq<char>>
    decreases links.len(),
{
    if links.len() == 0 {
        Seq::empty()
    } else {
        let rest = play_locators(links.drop_last(), minted);
        let i = links.len() - 1;
        if i < minted.len() && is_web_address(links[i]) {
            match minted[i] {
                Some(locator) => rest.push(locator),
                None => rest,
            }
        } else {
            rest
        }
    }
}

/// The decimal text of a count that is not zero and not above the ceiling.
pub open spec fn count_text(n: Option<u32>, ceiling: u32) -> Option<Seq<char>> {
    match n {
        Some(n) => if 0 < n <= ceiling {
            Some(decimal(n as nat))
        } else {
            None
        },
        None => None,
    }
}

/// The key of one field of the `i`-th track.
pub open spec fn track_key(i: nat, field: Seq<char>) -> Seq<char> {
    "tracks/"@ + decimal(i) + "/"@ + field
}

/// Fields with those of the `i`-th track.
pub open spec fn with_track(fields: Fields, i: nat, track: TrackView) -> Fields {
    let fields = fields.insert(track_key(i, "title"@), track.title);
    let fields = fields.insert(track_key(i, "position"@), decimal(track.position as nat));
    let fields = fields.insert(track_key(i, "disc"@), decimal(track.disc as nat));
    let fields = put(
        fields,
        track_key(i, "length"@),
        match track.length_ms {
            Some(ms) => Some(decimal(ms as nat)),
            None => None,
        },
    );
    let fields = put(fields, track_key(i, "mbRecordingId"@), track.mb_recording_id);
    put(fields, track_key(i, "isrc"@), track.isrc)
}

/// Fields with those of every track, by position in the list.
pub open spec fn with_tracks(fields: Fields, tracks: Seq<TrackView>) -> Fields
    decreases tracks.len(),
{
    if tracks.len() == 0 {
        fields
    } else {
        with_track(
            with_tracks(fields, tracks.drop_last()),
            (tracks.len() - 1) as nat,
            tracks.last(),
        )
    }
}

/// The type axes, the title and the ids of a card.
pub open spec fn identity_fields(card: CardView) -> Fields {
    let fields = Map::empty().insert("fileType"@, "card"@).insert(
        "contentKind"@,
        card.kind.facet(),
    ).insert("domain"@, "music"@).insert("title"@, trimmed(card.title)).insert(
        card.kind.id_key(),
        card.mbid,
    );
    let fields = put(fields, "mbArtistId"@, unless_empty(card.artist_mbid));
    let fields = put(fields, "albumArtist"@, present(card.album_artist));
    with_set(fields, "artists/"@, present_names(card.artists))
}

/// The release type that a card states: an album's, and no artist's.
pub open spec fn stated_release_type(card: CardView) -> Option<Seq<char>> {
    if card.kind == CardKind::Album {
        release_type_of(card)
    } else {
        None
    }
}

/// Fields with what a card says of its release.
pub open spec fn with_release_fields(fields: Fields, card: CardView) -> Fields {
    let fields = put(
        fields,
        "releasedate"@,
        match card.release_date {
            Some(d) => completed_date(d),
            None => None,
        },
    );
    let fields = put(fields, "trackCount"@, count_text(card.track_count, MAX_TRACK_COUNT));
    let fields = put(fields, "discCount"@, count_text(card.disc_count, u32::MAX));
    let fields = put(fields, "releaseType"@, stated_release_type(card));
    let fields = put(fields, "label"@, present(card.label));
    let fields = put(fields, "catalogNumber"@, present(card.catalog_number));
    let fields = put(fields, "description/eng"@, present(card.disambiguation));
    with_set(fields, "genres/"@, present_names(card.genres))
}

/// The key of a card's provenance.
pub open spec fn provenance_key(card: CardView) -> Seq<char> {
    "source/gateway:"@ + card.source.name()
}

/// Fields with the addresses of a card and its provenance.
pub open spec fn with_locator_fields(fields: Fields, card: CardView, at: LocatorsView) -> Fields {
    let fields = put(fields, card.kind.artwork_key(), at.artwork);
    let fields = match at.card {
        Some(cid) => fields.insert("cids/"@ + cid, "true"@),
        None => fields,
    };
    let fields = fields.insert(provenance_key(card), "true"@);
    with_set(
        fields,
        "externalPlay/"@,
        play_locators(card.streaming_links, at.external_play),
    )
}

/// The fields that a card states itself.
pub open spec fn own_fields(card: CardView, at: LocatorsView) -> Fields {
    let fields = with_release_fields(identity_fields(card), card);
    let fields = with_tracks(fields, card.tracks);
    with_locator_fields(fields, card, at)
}

/// The structured filters of a query.
pub type Filters = Map<Seq<char>, Seq<Seq<char>>>;

/// Is a filter echoed beside a card's own fields?
///
/// Not `genres` and `languages`: both are key-sets, so the flat field would not
/// have the shape that a reader looks for.
pub open spec fn echoed(own: Fields, filters: Filters, key: Seq<char>) -> bool {
    &&& filters.contains_key(key)
    &&& filters[key].len() > 0
    &&& key != "languages"@
    &&& key != "genres"@
    &&& !own.contains_key(key)
}

/// A card's own fields, and the query's filters that are echoed beside them.
pub open spec fn with_echo(own: Fields, filters: Filters) -> Fields {
    Map::new(
        |key: Seq<char>| own.contains_key(key) || echoed(own, filters, key),
        |key: Seq<char>|
            if own.contains_key(key) {
                own[key]
            } else {
                joined(filters[key], ","@)
            },
    )
}

/// The fields of a card's record.
pub open spec fn record_fields(card: CardView, filters: Filters, at: LocatorsView) -> Fields {
    with_echo(own_fields(card, at), filters)
}

/// The record a card projects to; none where it would not render.
pub open spec fn record_of(card: CardView, filters: Filters, at: LocatorsView) -> Option<
    RecordView,
> {
    if displayable(card) {
        Some(
            RecordView {
                upstream_id: card.source.name(),
                record_id: record_id_of(card.source, card.mbid),
                fields: record_fields(card, filters, at),
            },
        )
    } else {
        None
    }
}

// ---------------------------------------------------------------------------
// Building the fields
// ---------------------------------------------------------------------------

fn put_text(fields: &mut StrMap<String>, key: &str, value: &str)
    ensures
        final(fields)@ == old(fields)@.insert(key@, value@),
{
    fields.insert(key.to_string(), value.to_string());
}

fn put_present(fields: &mut StrMap<String>, key: &str, value: &Option<String>)
    ensures
        final(fields)@ == put(old(fields)@, key@, present(opt_text(*value))),
{
    if let Some(v) = trim_present(value) {
        put_text(fields, key, v);
    }
}

/// One more name in a key-set.
proof fn lemma_set_grows(fields: Fields, prefix: Seq<char>, names: Seq<Seq<char>>, name: Seq<char>)
    ensures
        with_set(fields, prefix, names.push(name)) == with_set(fields, prefix, names).insert(
            prefix + name,
            "true"@,
        ),
{
    let more = names.push(name);
    assert forall|key: Seq<char>|
        in_set(prefix, more, key) == (in_set(prefix, names, key) || key == prefix + name) by {
        if in_set(prefix, names, key) {
            let i = choose|i: int| 0 <= i < names.len() && key == prefix + #[trigger] names[i];
            assert(more[i] == names[i]);
        }
        if key == prefix + name {
            assert(more[names.len() as int] == name);
        }
    }
    assert(with_set(fields, prefix, more) =~= with_set(fields, prefix, names).insert(
        prefix + name,
        "true"@,
    ));
}

fn put_member(fields: &mut StrMap<String>, prefix: &str, name: &str)
    ensures
        final(fields)@ == old(fields)@.insert(prefix@ + name@, "true"@),
{
    let mut key = prefix.to_string();
    key.append(name);
    fields.insert(key, "true".to_string());
}

fn put_names(fields: &mut StrMap<String>, prefix: &str, list: &Vec<String>)
    ensures
        final(fields)@ == with_set(old(fields)@, prefix@, present_names(texts(list@))),
{
    let ghost start = fields@;
    let ghost all = texts(list@);
    let ghost pick = |s: Seq<char>| present(Some(s));
    let mut i: usize = 0;
    proof {
        assert(all.take(0).filter_map(pick) =~= Seq::empty());
        assert(with_set(start, prefix@, Seq::empty()) =~= start);
    }
    while i < list.len()
        invariant
            i <= list.len(),
            all == texts(list@),
            pick == (|s: Seq<char>| present(Some(s))),
            fields@ == with_set(start, prefix@, all.take(i as int).filter_map(pick)),
        decreases list.len() - i,
    {
        proof {
            all.lemma_filter_map_take_succ(pick, i as int);
        }
        let name = trim(list[i].as_str());
        if !name.is_empty() {
            proof {
                let done = all.take(i as int).filter_map(pick);
                lemma_set_grows(start, prefix@, done, name@);
                assert(all.take(i + 1).filter_map(pick) =~= done.push(name@));
            }
            put_member(fields, prefix, name);
        }
        i += 1;
    }
    assert(all.take(i as int) =~= all);
}

fn web_address(url: &str) -> (b: bool)
    ensures
        b == is_web_address(url@),
{
    let lower = to_lower(url);
    starts_with(lower.as_str(), "http://") || starts_with(lower.as_str(), "https://")
}

fn put_play_locators(
    fields: &mut StrMap<String>,
    links: &Vec<String>,
    minted: &Vec<Option<String>>,
)
    ensures
        final(fields)@ == with_set(
            old(fields)@,
            "externalPlay/"@,
            play_locators(
                texts(links@),
                minted@.map_values(|s: Option<String>| opt_text(s)),
            ),
        ),
{
    let ghost start = fields@;
    let ghost all = texts(links@);
    let ghost ids = minted@.map_values(|s: Option<String>| opt_text(s));
    let mut i: usize = 0;
    assert(with_set(start, "externalPlay/"@, Seq::empty()) =~= start);
    while i < links.len()
        invariant
            i <= links.len(),
            all == texts(links@),
            ids == minted@.map_values(|s: Option<String>| opt_text(s)),
            fields@ == with_set(
                start,
                "externalPlay/"@,
                play_locators(all.take(i as int), ids),
            ),
        decreases links.len() - i,
    {
        assert(all.take(i + 1).drop_last() =~= all.take(i as int));
        assert(all.take(i + 1)[i as int] == links@[i as int]@);
        if i < minted.len() && web_address(links[i].as_str()) {
            assert(ids[i as int] == opt_text(minted@[i as int]));
            if let Some(locator) = &minted[i] {
                proof {
                    lemma_set_grows(
                        start,
                        "externalPlay/"@,
                        play_locators(all.take(i as int), ids),
                        locator@,
                    );
                }
                put_member(fields, "externalPlay/", locator.as_str());
            }
        }
        i += 1;
    }
    assert(all.take(i as int) =~= all);
}

fn track_field(i: usize, field: &str) -> (key: String)
    ensures
        key@ == track_key(i as nat, field@),
{
    let mut key = "tracks/".to_string();
    key.append(decimal_text(i as u64).as_str());
    key.append("/");
    key.append(field);
    key
}

fn put_track(fields: &mut StrMap<String>, i: usize, track: &CanonicalTrack)
    ensures
        final(fields)@ == with_track(old(fields)@, i as nat, track@),
{
    fields.insert(track_field(i, "title"), track.title.clone());
    fields.insert(track_field(i, "position"), decimal_text(track.position as u64));
    fields.insert(track_field(i, "disc"), decimal_text(track.disc as u64));
    if let Some(ms) = track.length_ms {
        fields.insert(track_field(i, "length"), decimal_text(ms));
    }
    if let Some(id) = &track.mb_recording_id {
        fields.insert(track_field(i, "mbRecordingId"), id.clone());
    }
    if let Some(isrc) = &track.isrc {
        fields.insert(track_field(i, "isrc"), isrc.clone());
    }
}

fn put_tracks(fields: &mut StrMap<String>, tracks: &Vec<CanonicalTrack>)
    ensures
        final(fields)@ == with_tracks(
            old(fields)@,
            tracks@.map_values(|t: CanonicalTrack| t@),
        ),
{
    let ghost start = fields@;
    let ghost all = tracks@.map_values(|t: CanonicalTrack| t@);
    let mut i: usize = 0;
    while i < tracks.len()
        invariant
            i <= tracks.len(),
            all == tracks@.map_values(|t: CanonicalTrack| t@),
            fields@ == with_tracks(start, all.take(i as int)),
        decreases tracks.len() - i,
    {
        put_track(fields, i, &tracks[i]);
        assert(all.take(i + 1).drop_last() =~= all.take(i as int));
        assert(all.take(i + 1).last() == tracks@[i as int]@);
        i += 1;
    }
    assert(all.take(i as int) =~= all);
}

fn put_count(fields: &mut StrMap<String>, key: &str, n: Option<u32>, ceiling: u32)
    ensures
        final(fields)@ == put(old(fields)@, key@, count_text(n, ceiling)),
{
    if let Some(n) = n {
        if 0 < n && n <= ceiling {
            fields.insert(key.to_string(), decimal_text(n as u64));
        }
    }
}

fn put_identity(fields: &mut StrMap<String>, card: &Card)
    requires
        old(fields)@ == Map::<Seq<char>, Seq<char>>::empty(),
    ensures
        final(fields)@ == identity_fields(card@),
{
    put_text(fields, "fileType", "card");
    put_text(fields, "contentKind", card.kind.content_kind());
    put_text(fields, "domain", "music");
    put_text(fields, "title", trim(card.title.as_str()));
    match card.kind {
        CardKind::Album => {
            put_text(fields, "mbReleaseGroupId", card.mbid.as_str());
        },
        CardKind::Artist => {
            put_text(fields, "mbArtistId", card.mbid.as_str());
        },
    }
    if let Some(a) = &card.artist_mbid {
        if !a.as_str().is_empty() {
            put_text(fields, "mbArtistId", a.as_str());
        }
    }
    put_present(fields, "albumArtist", &card.album_artist);
    put_names(fields, "artists/", &card.artists);
}

fn put_release(fields: &mut StrMap<String>, card: &Card)
    ensures
        final(fields)@ == with_release_fields(old(fields)@, card@),
{
    if let Some(raw) = &card.release_date {
        if let Some(d) = normalise_date(raw.as_str()) {
            fields.insert("releasedate".to_string(), d);
        }
    }
    put_count(fields, "trackCount", card.track_count, MAX_TRACK_COUNT);
    put_count(fields, "discCount", card.disc_count, u32::MAX);
    if card.kind == CardKind::Album {
        if let Some(t) = card.release_type() {
            put_text(fields, "releaseType", t);
        }
    }
    put_present(fields, "label", &card.label);
    put_present(fields, "catalogNumber", &card.catalog_number);
    put_present(fields, "description/eng", &card.disambiguation);
    put_names(fields, "genres/", &card.genres);
}

fn put_locators(fields: &mut StrMap<String>, card: &Card, at: &Locators)
    ensures
        final(fields)@ == with_locator_fields(old(fields)@, card@, at@),
{
    if let Some(locator) = &at.artwork {
        put_text(fields, card.kind.artwork_field(), locator.as_str());
    }
    if let Some(cid) = &at.card {
        put_member(fields, "cids/", cid.as_str());
    }
    put_member(fields, "source/gateway:", card.source.as_str());
    put_play_locators(fields, &card.streaming_links, &at.external_play);
}

/// A card's own fields and the echo of those filters that are in a list.
spec fn echo_among(own: Fields, filters: Filters, keys: Seq<Seq<char>>) -> Fields {
    Map::new(
        |key: Seq<char>|
            own.contains_key(key) || (echoed(own, filters, key) && keys.contains(key)),
        |key: Seq<char>|
            if own.contains_key(key) {
                own[key]
            } else {
                joined(filters[key], ","@)
            },
    )
}

fn put_echo(fields: &mut StrMap<String>, filters: &StrMap<Vec<String>>)
    ensures
        final(fields)@ == with_echo(old(fields)@, filters@),
{
    let ghost own = fields@;
    let ghost keys = filters.key_list();
    let n = filters.len();
    let mut i: usize = 0;
    assert(fields@ =~= echo_among(own, filters@, keys.take(0)));
    while i < n
        invariant
            i <= n,
            n == keys.len(),
            keys == filters.key_list(),
            fields@ == echo_among(own, filters@, keys.take(i as int)),
        decreases n - i,
    {
        let (key, allowed) = filters.entry(i);
        assert forall|k: Seq<char>|
            keys.take(i + 1).contains(k) == (keys.take(i as int).contains(k) || k == key@) by {
            assert(keys.take(i + 1) =~= keys.take(i as int).push(key@));
            if keys.take(i as int).contains(k) {
                let j = choose|j: int| 0 <= j < i && keys.take(i as int)[j] == k;
                assert(keys.take(i + 1)[j] == k);
            }
            if k == key@ {
                assert(keys.take(i + 1)[i as int] == k);
            }
        }
        assert(filters@[key@] =~= texts(allowed@));
        let ghost before = fields@;
        if same_text(key.as_str(), "languages") || same_text(key.as_str(), "genres")
            || fields.contains_key(key.as_str()) || allowed.len() == 0 {
        } else {
            fields.insert(key.clone(), join(allowed, ","));
        }
        assert(fields@ =~= echo_among(own, filters@, keys.take(i + 1)));
        i += 1;
    }
    proof {
        lemma_key_list(filters);
        assert(keys.take(i as int) =~= keys);
        assert(fields@ =~= with_echo(own, filters@));
    }
}

impl Card {
    /// What this card's addresses are minted from: the source and bare id for
    /// the card itself, the address of the cover image for the artwork, and
    /// each streaming link for the external-play set.
    pub fn locator_requests(&self) -> (out: LocatorRequests)
        ensures
            out.source@ == self.source.name(),
            out.id@ == self.mbid@,
            opt_text(out.artwork) == (match self@.cover {
                Some(cover) => Some(cover_url(cover)),
                None => None,
            }),
            texts(out.external_play@) == self@.streaming_links,
            out.artwork is Some == self.cover is Some,
            out.external_play@.len() == self.streaming_links@.len(),
            forall|i: int|
                0 <= i < self.streaming_links@.len() ==> (#[trigger] out.external_play@[i])@
                    == self.streaming_links@[i]@,
    {
        LocatorRequests {
            source: self.source.as_str().to_string(),
            id: self.mbid.clone(),
            artwork: match &self.cover {
                Some(cover) => Some(cover.url()),
                None => None,
            },
            external_play: copy_texts(&self.streaming_links),
        }
    }

    /// Project to the wire record.
    ///
    /// Declines a card with no title or no cover source: it would fail the
    /// consumer's quality gate and render as a hole in the grid.
    ///
    /// `query_filters` echoes back every structured filter the query carried.
    /// Both tiers between here and the consumer match each record against the
    /// query again, and a missing field fails the match.
    pub fn to_record(
        &self,
        query_filters: &StrMap<Vec<String>>,
        locators: &Locators,
    ) -> (out: Option<DiscoveryRecord>)
        ensures
            opt_record(out) == record_of(self@, query_filters@, locators@),
    {
        if !self.is_displayable() {
            return None;
        }
        let mut fields: StrMap<String> = StrMap::new();
        put_identity(&mut fields, self);
        put_release(&mut fields, self);
        put_tracks(&mut fields, &self.tracks);
        put_locators(&mut fields, self, locators);
        put_echo(&mut fields, query_filters);
        Some(
            DiscoveryRecord {
                upstream_id: self.source.as_str().to_string(),
                record_id: self.record_id(),
                fields,
            },
        )
    }
}

} // verus!
