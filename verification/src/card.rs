//! The music card model.
//!
//! A **card** identifies a *work* (an album, an artist), not a file. It carries
//! the display pair the quality gate needs (title and cover) plus every
//! cross-source identifier that was resolved.
//!
//! A card locator takes no kind prefix: a MusicBrainz Identifier is a UUID,
//! unique across every entity type, so a card's address is minted from the
//! bare id. The record id, `"musicbrainz:<mbid>"`, is that preimage; putting a
//! kind in between would re-mint every card address.
use vstd::prelude::*;
use vstd::string::*;

use crate::client::{Medium, Release, Track};
use crate::consts::{CAA_BASE, CAA_FRONT_SIZE, MAX_TRACK_COUNT};
use crate::number::{signed_decimal, signed_decimal_text};
use crate::text::{
    blank, chars_of, copy_unless_empty, find_char, first_index, is_blank, lemma_first_index,
    lowered, opt_text, same_text, texts, to_lower, trim, trimmed, unless_empty,
};

verus! {

/// The metadata source that published a card. Its text is the namespace of the
/// card's address: changing it re-mints every card from that source.
#[derive(Debug, Clone, Copy, PartialEq, Eq, Structural)]
pub enum CardSource {
    MusicBrainz,
}

impl CardSource {
    /// The text of a source.
    pub open spec fn name(self) -> Seq<char> {
        match self {
            CardSource::MusicBrainz => "musicbrainz"@,
        }
    }

    /// The text of the source.
    pub fn as_str(self) -> (s: &'static str)
        ensures
            s@ == self.name(),
    {
        match self {
            CardSource::MusicBrainz => "musicbrainz",
        }
    }
}

/// Which work a card describes.
#[derive(Debug, Clone, Copy, PartialEq, Eq, Structural)]
pub enum CardKind {
    Album,
    Artist,
}

impl CardKind {
    /// The `contentKind` facet of a kind.
    pub open spec fn facet(self) -> Seq<char> {
        match self {
            CardKind::Album => "album"@,
            CardKind::Artist => "artist"@,
        }
    }

    /// The field a kind writes its artwork to.
    pub open spec fn artwork_key(self) -> Seq<char> {
        match self {
            CardKind::Album => "cover"@,
            CardKind::Artist => "photo"@,
        }
    }

    /// The field a kind writes its own id to.
    pub open spec fn id_key(self) -> Seq<char> {
        match self {
            CardKind::Album => "mbReleaseGroupId"@,
            CardKind::Artist => "mbArtistId"@,
        }
    }

    /// The `contentKind` facet. Orthogonal to `fileType=card`.
    pub fn content_kind(self) -> (s: &'static str)
        ensures
            s@ == self.facet(),
    {
        match self {
            CardKind::Album => "album",
            CardKind::Artist => "artist",
        }
    }

    /// Which artwork field this kind writes: an album has a sleeve, an artist
    /// has a portrait. The value is a locator, never a raw URL.
    pub fn artwork_field(self) -> (s: &'static str)
        ensures
            s@ == self.artwork_key(),
    {
        match self {
            CardKind::Album => "cover",
            CardKind::Artist => "photo",
        }
    }
}

/// Where a card's cover image comes from.
#[derive(Debug, Clone, PartialEq, Eq)]
pub enum Cover {
    /// The front image of a release-group. Answers 404 when nothing is
    /// illustrated, which hides the card downstream.
    ReleaseGroupFront { release_group_mbid: String },
    /// A specific image somebody already resolved: it is known to exist.
    Resolved { release_mbid: String, caa_id: i64 },
}

/// What a cover is.
pub enum CoverView {
    ReleaseGroupFront { release_group_mbid: Seq<char> },
    Resolved { release_mbid: Seq<char>, caa_id: i64 },
}

impl View for Cover {
    type V = CoverView;

    open spec fn view(&self) -> CoverView {
        match self {
            Cover::ReleaseGroupFront { release_group_mbid } => CoverView::ReleaseGroupFront {
                release_group_mbid: release_group_mbid@,
            },
            Cover::Resolved { release_mbid, caa_id } => CoverView::Resolved {
                release_mbid: release_mbid@,
                caa_id: *caa_id,
            },
        }
    }
}

/// The address of a cover image.
pub open spec fn cover_url(cover: CoverView) -> Seq<char> {
    match cover {
        CoverView::ReleaseGroupFront { release_group_mbid } => CAA_BASE@ + "/release-group/"@
            + release_group_mbid + "/"@ + CAA_FRONT_SIZE@,
        CoverView::Resolved { release_mbid, caa_id } => CAA_BASE@ + "/release/"@ + release_mbid
            + "/"@ + signed_decimal(caa_id as int) + "-500.jpg"@,
    }
}

impl Cover {
    /// The address of the image.
    pub fn url(&self) -> (out: String)
        ensures
            out@ == cover_url(self@),
    {
        let mut out = CAA_BASE.to_string();
        match self {
            Cover::ReleaseGroupFront { release_group_mbid } => {
                out.append("/release-group/");
                out.append(release_group_mbid.as_str());
                out.append("/");
                out.append(CAA_FRONT_SIZE);
            },
            Cover::Resolved { release_mbid, caa_id } => {
                out.append("/release/");
                out.append(release_mbid.as_str());
                out.append("/");
                out.append(signed_decimal_text(*caa_id).as_str());
                out.append("-500.jpg");
            },
        }
        out
    }
}

/// A resolved work.
///
/// Immutable by contract: nothing that drifts without the work changing. A
/// card is the one record several peers derive independently at one address,
/// so a drifting value would make them disagree forever.
#[derive(Debug, Clone)]
pub struct Card {
    pub source: CardSource,
    pub kind: CardKind,
    /// The bare id, half of the card address's preimage.
    pub mbid: String,
    pub title: String,
    /// Credited album artist (albums only), join phrases included.
    pub album_artist: Option<String>,
    /// Every credited artist name.
    pub artists: Vec<String>,
    /// The primary artist's own id, when the credit resolved one.
    pub artist_mbid: Option<String>,
    pub cover: Option<Cover>,
    /// The nearest thing MusicBrainz has to a synopsis ("live album").
    pub disambiguation: Option<String>,
    pub genres: Vec<String>,
    /// Variable-precision date, completed on projection.
    pub release_date: Option<String>,
    pub track_count: Option<u32>,
    pub disc_count: Option<u32>,
    pub label: Option<String>,
    pub catalog_number: Option<String>,
    /// `Album`, `Single`, `EP` and so on; not a `contentKind`.
    pub primary_type: Option<String>,
    pub secondary_types: Vec<String>,
    /// The canonical track list, resolved on the detail path only.
    pub tracks: Vec<CanonicalTrack>,
    /// Official places to listen elsewhere.
    pub streaming_links: Vec<String>,
}

/// One entry of an album card's canonical track list: what the album contains,
/// not what anyone can fetch.
#[derive(Debug, Clone, PartialEq, Eq)]
pub struct CanonicalTrack {
    /// 1-based position within its disc.
    pub position: u32,
    /// 1-based disc index.
    pub disc: u32,
    pub title: String,
    /// Milliseconds, when anyone has timed it.
    pub length_ms: Option<u64>,
    pub mb_recording_id: Option<String>,
    pub isrc: Option<String>,
}

/// What a track of the canonical list is.
#[verifier::ext_equal]
pub struct TrackView {
    pub position: u32,
    pub disc: u32,
    pub title: Seq<char>,
    pub length_ms: Option<u64>,
    pub mb_recording_id: Option<Seq<char>>,
    pub isrc: Option<Seq<char>>,
}

impl View for CanonicalTrack {
    type V = TrackView;

    open spec fn view(&self) -> TrackView {
        TrackView {
            position: self.position,
            disc: self.disc,
            title: self.title@,
            length_ms: self.length_ms,
            mb_recording_id: opt_text(self.mb_recording_id),
            isrc: opt_text(self.isrc),
        }
    }
}

/// What each track of a list is.
pub open spec fn track_views(tracks: Seq<CanonicalTrack>) -> Seq<TrackView> {
    tracks.map_values(|t: CanonicalTrack| t@)
}

/// What a card says.
#[verifier::ext_equal]
pub struct CardView {
    pub source: CardSource,
    pub kind: CardKind,
    pub mbid: Seq<char>,
    pub title: Seq<char>,
    pub album_artist: Option<Seq<char>>,
    pub artists: Seq<Seq<char>>,
    pub artist_mbid: Option<Seq<char>>,
    pub cover: Option<CoverView>,
    pub disambiguation: Option<Seq<char>>,
    pub genres: Seq<Seq<char>>,
    pub release_date: Option<Seq<char>>,
    pub track_count: Option<u32>,
    pub disc_count: Option<u32>,
    pub label: Option<Seq<char>>,
    pub catalog_number: Option<Seq<char>>,
    pub primary_type: Option<Seq<char>>,
    pub secondary_types: Seq<Seq<char>>,
    pub tracks: Seq<TrackView>,
    pub streaming_links: Seq<Seq<char>>,
}

/// What an optional cover is.
pub open spec fn cover_view(cover: Option<Cover>) -> Option<CoverView> {
    match cover {
        Some(c) => Some(c@),
        None => None,
    }
}

impl View for Card {
    type V = CardView;

    open spec fn view(&self) -> CardView {
        CardView {
            source: self.source,
            kind: self.kind,
            mbid: self.mbid@,
            title: self.title@,
            album_artist: opt_text(self.album_artist),
            artists: texts(self.artists@),
            artist_mbid: opt_text(self.artist_mbid),
            cover: cover_view(self.cover),
            disambiguation: opt_text(self.disambiguation),
            genres: texts(self.genres@),
            release_date: opt_text(self.release_date),
            track_count: self.track_count,
            disc_count: self.disc_count,
            label: opt_text(self.label),
            catalog_number: opt_text(self.catalog_number),
            primary_type: opt_text(self.primary_type),
            secondary_types: texts(self.secondary_types@),
            tracks: track_views(self.tracks@),
            streaming_links: texts(self.streaming_links@),
        }
    }
}

// ---------------------------------------------------------------------------
// Release types
// ---------------------------------------------------------------------------

/// The release type a secondary type stands for.
pub open spec fn secondary_release_type(s: Seq<char>) -> Option<Seq<char>> {
    let token = lowered(trimmed(s));
    if token == "compilation"@ {
        Some("Compilation"@)
    } else if token == "live"@ {
        Some("Live"@)
    } else if token == "soundtrack"@ {
        Some("Soundtrack"@)
    } else if token == "remix"@ {
        Some("Remix"@)
    } else if token == "dj-mix"@ || token == "dj mix"@ {
        Some("DJMix"@)
    } else {
        None
    }
}

/// The release type a primary type stands for.
pub open spec fn primary_release_type(s: Seq<char>) -> Option<Seq<char>> {
    let token = lowered(trimmed(s));
    if token == "album"@ {
        Some("Album"@)
    } else if token == "single"@ {
        Some("Single"@)
    } else if token == "ep"@ {
        Some("EP"@)
    } else if token == "broadcast"@ {
        Some("Broadcast"@)
    } else if token == "other"@ {
        Some("Other"@)
    } else {
        None
    }
}

/// The release type of the first secondary type that stands for one.
pub open spec fn first_secondary(types: Seq<Seq<char>>) -> Option<Seq<char>>
    decreases types.len(),
{
    if types.len() == 0 {
        None
    } else {
        match secondary_release_type(types.first()) {
            Some(t) => Some(t),
            None => first_secondary(types.drop_first()),
        }
    }
}

/// The release type of a work: that of a secondary type where one is known,
/// else that of the primary type.
pub open spec fn release_type_of(card: CardView) -> Option<Seq<char>> {
    match first_secondary(card.secondary_types) {
        Some(t) => Some(t),
        None => match card.primary_type {
            Some(s) => primary_release_type(s),
            None => None,
        },
    }
}

/// The optional text of an optional string slice.
pub open spec fn opt_str(s: Option<&'static str>) -> Option<Seq<char>> {
    match s {
        Some(s) => Some(s@),
        None => None,
    }
}

fn secondary_type(s: &str) -> (out: Option<&'static str>)
    ensures
        opt_str(out) == secondary_release_type(s@),
{
    let lower = to_lower(trim(s));
    let token = lower.as_str();
    if same_text(token, "compilation") {
        Some("Compilation")
    } else if same_text(token, "live") {
        Some("Live")
    } else if same_text(token, "soundtrack") {
        Some("Soundtrack")
    } else if same_text(token, "remix") {
        Some("Remix")
    } else if same_text(token, "dj-mix") || same_text(token, "dj mix") {
        Some("DJMix")
    } else {
        None
    }
}

fn primary_type(s: &str) -> (out: Option<&'static str>)
    ensures
        opt_str(out) == primary_release_type(s@),
{
    let lower = to_lower(trim(s));
    let token = lower.as_str();
    if same_text(token, "album") {
        Some("Album")
    } else if same_text(token, "single") {
        Some("Single")
    } else if same_text(token, "ep") {
        Some("EP")
    } else if same_text(token, "broadcast") {
        Some("Broadcast")
    } else if same_text(token, "other") {
        Some("Other")
    } else {
        None
    }
}

// ---------------------------------------------------------------------------
// Release detail
// ---------------------------------------------------------------------------

/// How many tracks a medium has: what it declares, or how many it lists where
/// it declares none.
pub open spec fn medium_count(m: Medium) -> u32 {
    if m.track_count > 0 {
        m.track_count
    } else {
        m.tracks@.len() as u32
    }
}

/// How many tracks a row of media has.
pub open spec fn media_count(media: Seq<Medium>) -> nat
    decreases media.len(),
{
    if media.len() == 0 {
        0
    } else {
        media_count(media.drop_last()) + medium_count(media.last()) as nat
    }
}

/// The disc a medium is: its position, or disc one where it has none.
pub open spec fn medium_disc(m: Medium) -> u32 {
    if m.position == 0 {
        1
    } else {
        m.position
    }
}

/// The title of a track: its own, or its recording's where its own is blank.
pub open spec fn track_title(t: Track) -> Seq<char> {
    if is_blank(t.title@) {
        match t.recording {
            Some(r) => r.title@,
            None => Seq::empty(),
        }
    } else {
        t.title@
    }
}

/// A track as an entry of the canonical list.
pub open spec fn canonical_track(disc: u32, t: Track) -> TrackView {
    TrackView {
        position: t.position,
        disc,
        title: track_title(t),
        length_ms: match t.length {
            Some(ms) => Some(ms),
            None => match t.recording {
                Some(r) => r.length,
                None => None,
            },
        },
        mb_recording_id: match t.recording {
            Some(r) => unless_empty(Some(r.id@)),
            None => None,
        },
        isrc: match t.recording {
            Some(r) => if r.isrcs@.len() > 0 {
                Some(r.isrcs@[0]@)
            } else {
                None
            },
            None => None,
        },
    }
}

/// A track that has a title.
pub open spec fn titled_track(disc: u32, t: Track) -> Option<TrackView> {
    if is_blank(track_title(t)) {
        None
    } else {
        Some(canonical_track(disc, t))
    }
}

/// The titled tracks of one medium, in order.
pub open spec fn medium_tracks(m: Medium) -> Seq<TrackView> {
    m.tracks@.filter_map(|t: Track| titled_track(medium_disc(m), t))
}

/// The titled tracks of a row of media, in order.
pub open spec fn media_tracks(media: Seq<Medium>) -> Seq<TrackView>
    decreases media.len(),
{
    if media.len() == 0 {
        Seq::empty()
    } else {
        media_tracks(media.drop_last()) + medium_tracks(media.last())
    }
}

/// A card with a release folded into it.
pub open spec fn detailed(card: CardView, release: Release) -> CardView {
    let total = media_count(release.media@);
    let label_info = release.label_info@;
    CardView {
        track_count: if total == 0 {
            card.track_count
        } else if total < MAX_TRACK_COUNT {
            Some(total as u32)
        } else {
            Some(MAX_TRACK_COUNT)
        },
        disc_count: if release.media@.len() == 0 {
            card.disc_count
        } else {
            Some(release.media@.len() as u32)
        },
        label: if label_info.len() == 0 {
            card.label
        } else {
            match label_info[0].label {
                Some(label) => unless_empty(Some(label.name@)),
                None => None,
            }
        },
        catalog_number: if label_info.len() == 0 {
            card.catalog_number
        } else {
            unless_empty(opt_text(label_info[0].catalog_number))
        },
        tracks: media_tracks(release.media@),
        ..card
    }
}

fn count_tracks(media: &Vec<Medium>) -> (n: u32)
    ensures
        n == (if media_count(media@) < MAX_TRACK_COUNT {
            media_count(media@)
        } else {
            MAX_TRACK_COUNT as nat
        }),
{
    let mut n: u32 = 0;
    let mut i: usize = 0;
    while i < media.len()
        invariant
            i <= media.len(),
            n == (if media_count(media@.take(i as int)) < MAX_TRACK_COUNT {
                media_count(media@.take(i as int))
            } else {
                MAX_TRACK_COUNT as nat
            }),
        decreases media.len() - i,
    {
        let m = &media[i];
        let count: u32 = if m.track_count > 0 {
            m.track_count
        } else {
            m.tracks.len() as u32
        };
        assert(count == medium_count(media@[i as int]));
        assert(media@.take(i + 1).drop_last() =~= media@.take(i as int));
        assert(media@.take(i + 1).last() == media@[i as int]);
        if count < MAX_TRACK_COUNT && n + count < MAX_TRACK_COUNT {
            n = n + count;
        } else {
            n = MAX_TRACK_COUNT;
        }
        i += 1;
    }
    assert(media@.take(i as int) =~= media@);
    n
}

fn read_track(disc: u32, t: &Track) -> (out: Option<CanonicalTrack>)
    ensures
        out is Some == titled_track(disc, *t) is Some,
        out matches Some(c) ==> titled_track(disc, *t) == Some(c@),
{
    let title = if blank(t.title.as_str()) {
        match &t.recording {
            Some(r) => r.title.clone(),
            None => String::new(),
        }
    } else {
        t.title.clone()
    };
    assert(title@ =~= track_title(*t));
    if blank(title.as_str()) {
        return None;
    }
    let length_ms: Option<u64> = match t.length {
        Some(ms) => Some(ms),
        None => match &t.recording {
            Some(r) => r.length,
            None => None,
        },
    };
    let mb_recording_id: Option<String> = match &t.recording {
        Some(r) => if r.id.as_str().is_empty() {
            None
        } else {
            Some(r.id.clone())
        },
        None => None,
    };
    let isrc: Option<String> = match &t.recording {
        Some(r) => if r.isrcs.len() > 0 {
            Some(r.isrcs[0].clone())
        } else {
            None
        },
        None => None,
    };
    Some(CanonicalTrack { position: t.position, disc, title, length_ms, mb_recording_id, isrc })
}

fn read_medium(m: &Medium, out: &mut Vec<CanonicalTrack>)
    ensures
        track_views(final(out)@) == track_views(old(out)@) + medium_tracks(*m),
{
    let disc: u32 = if m.position == 0 {
        1
    } else {
        m.position
    };
    let ghost all = m.tracks@;
    let ghost pick = |t: Track| titled_track(medium_disc(*m), t);
    let ghost start = track_views(out@);
    let mut i: usize = 0;
    assert(all.take(0).filter_map(pick) =~= Seq::empty());
    assert(track_views(out@) =~= start + all.take(0).filter_map(pick));
    while i < m.tracks.len()
        invariant
            i <= m.tracks.len(),
            all == m.tracks@,
            disc == medium_disc(*m),
            pick == (|t: Track| titled_track(medium_disc(*m), t)),
            track_views(out@) == start + all.take(i as int).filter_map(pick),
        decreases m.tracks.len() - i,
    {
        proof {
            all.lemma_filter_map_take_succ(pick, i as int);
        }
        let ghost before = out@;
        match read_track(disc, &m.tracks[i]) {
            Some(t) => {
                out.push(t);
                assert(track_views(out@) =~= track_views(before).push(t@));
            },
            None => {},
        }
        assert(track_views(out@) =~= start + all.take(i + 1).filter_map(pick));
        i += 1;
    }
    assert(all.take(i as int) =~= all);
}

fn read_media(media: &Vec<Medium>) -> (out: Vec<CanonicalTrack>)
    ensures
        track_views(out@) == media_tracks(media@),
{
    let mut out: Vec<CanonicalTrack> = Vec::new();
    let mut i: usize = 0;
    assert(track_views(out@) =~= Seq::empty());
    while i < media.len()
        invariant
            i <= media.len(),
            track_views(out@) == media_tracks(media@.take(i as int)),
        decreases media.len() - i,
    {
        read_medium(&media[i], &mut out);
        assert(media@.take(i + 1).drop_last() =~= media@.take(i as int));
        assert(media@.take(i + 1).last() == media@[i as int]);
        i += 1;
    }
    assert(media@.take(i as int) =~= media@);
    out
}

// ---------------------------------------------------------------------------
// Cards
// ---------------------------------------------------------------------------

/// The record id of a work: its source and its bare id.
pub open spec fn record_id_of(source: CardSource, mbid: Seq<char>) -> Seq<char> {
    source.name() + ":"@ + mbid
}

/// Would a card render: does it have a title and a cover?
pub open spec fn displayable(card: CardView) -> bool {
    !is_blank(card.title) && card.cover is Some
}

impl Card {
    /// The feeder-scoped record id, `"musicbrainz:<mbid>"`, which is also the
    /// exact preimage of the card's address.
    pub fn record_id(&self) -> (out: String)
        ensures
            out@ == record_id_of(self.source, self.mbid@),
    {
        let mut out = self.source.as_str().to_string();
        out.append(":");
        out.append(self.mbid.as_str());
        out
    }

    /// The release type a discography groups by.
    ///
    /// Secondary types win over the primary: a live album is an `Album` that
    /// is also `Live`, and what it is to a listener is the latter.
    pub fn release_type(&self) -> (out: Option<&'static str>)
        ensures
            opt_str(out) == release_type_of(self@),
    {
        let ghost types = texts(self.secondary_types@);
        let mut i: usize = 0;
        assert(types.skip(0) =~= types);
        while i < self.secondary_types.len()
            invariant
                i <= self.secondary_types.len(),
                types == texts(self.secondary_types@),
                first_secondary(types) == first_secondary(types.skip(i as int)),
            decreases self.secondary_types.len() - i,
        {
            assert(types.skip(i as int).first() == self.secondary_types@[i as int]@);
            assert(types.skip(i as int).drop_first() =~= types.skip(i + 1));
            if let Some(t) = secondary_type(self.secondary_types[i].as_str()) {
                return Some(t);
            }
            i += 1;
        }
        match &self.primary_type {
            Some(s) => primary_type(s.as_str()),
            None => None,
        }
    }

    /// Would this card actually render? Exactly the condition under which
    /// [`Card::to_record`] emits a record. It cannot predict whether the cover
    /// image exists: nothing in a MusicBrainz response reveals that.
    pub fn is_displayable(&self) -> (b: bool)
        ensures
            b == displayable(self@),
    {
        !blank(self.title.as_str()) && self.cover.is_some()
    }

    /// Fold a resolved canonical release into an album card: track and disc
    /// counts, label and catalogue number, and the canonical track list.
    ///
    /// The declared track count of a medium wins over how many tracks it
    /// lists, and the total is held at [`MAX_TRACK_COUNT`].
    pub fn with_release_detail(self, release: &Release) -> (out: Card)
        ensures
            out@ == detailed(self@, *release),
    {
        let mut out = self;
        let tracks = count_tracks(&release.media);
        if tracks > 0 {
            out.track_count = Some(tracks);
        }
        if release.media.len() > 0 {
            out.disc_count = Some(release.media.len() as u32);
        }
        if release.label_info.len() > 0 {
            let info = &release.label_info[0];
            out.label =
            match &info.label {
                Some(label) => if label.name.as_str().is_empty() {
                    None
                } else {
                    Some(label.name.clone())
                },
                None => None,
            };
            out.catalog_number = copy_unless_empty(&info.catalog_number);
        }
        out.tracks = read_media(&release.media);
        out
    }
}

/// The halves of a record id around its first colon, where neither is empty.
pub open spec fn id_halves(record_id: Seq<char>) -> Option<(Seq<char>, Seq<char>)> {
    let at = first_index(record_id, ':');
    if 0 < at && at + 1 < record_id.len() {
        Some((record_id.take(at), record_id.skip(at + 1)))
    } else {
        None
    }
}

/// Split a card record id (`"musicbrainz:<mbid>"`) back into source and id.
///
/// An id contains hyphens but never a colon, so the *first* colon is the
/// source boundary.
pub fn split_record_id(record_id: &str) -> (out: Option<(&str, &str)>)
    ensures
        out is Some == id_halves(record_id@) is Some,
        out matches Some((source, id)) ==> id_halves(record_id@) == Some((source@, id@)),
{
    let chars = chars_of(record_id);
    let n = chars.len();
    let at = find_char(&chars, ':');
    proof {
        lemma_first_index(record_id@, ':');
    }
    if 0 < at && at < n && at + 1 < n {
        let source = record_id.substring_char(0, at);
        let id = record_id.substring_char(at + 1, n);
        assert(source@ =~= record_id@.take(at as int));
        assert(id@ =~= record_id@.skip(at + 1));
        Some((source, id))
    } else {
        None
    }
}

/// A record id splits back into the two halves it was made from: the source
/// and the whole bare id, whatever the id holds.
pub proof fn lemma_record_id_splits_back(source: CardSource, mbid: Seq<char>)
    requires
        mbid.len() > 0,
    ensures
        id_halves(record_id_of(source, mbid)) == Some((source.name(), mbid)),
{
    let id = record_id_of(source, mbid);
    let name = source.name();
    reveal_strlit("musicbrainz");
    reveal_strlit(":");
    lemma_first_index(id, ':');
    let at = first_index(id, ':');
    assert(id[11] == ':');
    assert forall|i: int| 0 <= i < 11 implies id[i] != ':' by {
        assert(id[i] == name[i]);
    }
    assert(at == 11);
    assert(id.take(at) =~= name);
    assert(id.skip(at + 1) =~= mbid);
}

/// The halves of a record id, with the colon between them, are the id; and the
/// source half holds no colon.
pub proof fn lemma_halves_make_the_id(record_id: Seq<char>)
    ensures
        id_halves(record_id) matches Some((source, id)) ==> {
            &&& record_id == source + ":"@ + id
            &&& source.len() > 0 && id.len() > 0
            &&& !source.contains(':')
        },
{
    reveal_strlit(":");
    lemma_first_index(record_id, ':');
    if let Some((source, id)) = id_halves(record_id) {
        assert(record_id =~= source + ":"@ + id);
        assert forall|i: int| 0 <= i < source.len() implies source[i] != ':' by {
            assert(source[i] == record_id[i]);
        }
    }
}

} // verus!
