//! The ListenBrainz feeds: the browse signal.
//!
//! MusicBrainz knows what exists; it has no opinion about what anyone is
//! listening to. ListenBrainz supplies that.
//!
//! Its payloads are walked leniently, on purpose: the payload key differs from
//! endpoint to endpoint and has changed before, and the failure mode of a rigid
//! reading is a whole empty browse row with no error. So each field is read by
//! name with fallbacks, and an entry that yields no id is skipped by itself.
use vstd::prelude::*;
use vstd::string::*;

use crate::client::{clamp, clamped, retry_after_secs, retry_secs, Reply};
use crate::consts::{LB_MAX_COUNT, LB_MAX_DAYS, LB_RATE_LIMIT_DEFAULT_RETRY_SECS};
use crate::distinct::{
    first_of_each, has_key, lemma_filter_map_concat, lemma_kept_is_listed, lemma_kept_once,
};
use crate::json::{text_tree, trees, Json, JsonTree};
use crate::number::{decimal, decimal_text, unsigned_value};
use crate::text::{opt_text, present, same_text, trim, trimmed, unless_empty};

verus! {

/// A work ListenBrainz reports as popular or newly released: everything needed
/// to build an album card without asking MusicBrainz.
#[derive(Clone, Debug, PartialEq, Eq)]
pub struct PopularWork {
    pub release_group_mbid: String,
    pub title: String,
    pub artist_name: String,
    pub artist_mbid: Option<String>,
    /// The release and the image, when ListenBrainz already resolved a cover:
    /// one that is known to exist.
    pub caa: Option<(String, i64)>,
    pub release_date: Option<String>,
}

/// An artist ListenBrainz reports as popular.
#[derive(Clone, Debug, PartialEq, Eq)]
pub struct PopularArtist {
    pub artist_mbid: String,
    pub name: String,
}

/// What a popular work is.
#[verifier::ext_equal]
pub struct WorkView {
    pub release_group_mbid: Seq<char>,
    pub title: Seq<char>,
    pub artist_name: Seq<char>,
    pub artist_mbid: Option<Seq<char>>,
    pub caa: Option<(Seq<char>, i64)>,
    pub release_date: Option<Seq<char>>,
}

/// What a popular artist is.
#[verifier::ext_equal]
pub struct ArtistView {
    pub artist_mbid: Seq<char>,
    pub name: Seq<char>,
}

impl View for PopularWork {
    type V = WorkView;

    open spec fn view(&self) -> WorkView {
        WorkView {
            release_group_mbid: self.release_group_mbid@,
            title: self.title@,
            artist_name: self.artist_name@,
            artist_mbid: opt_text(self.artist_mbid),
            caa: match self.caa {
                Some((release, id)) => Some((release@, id)),
                None => None,
            },
            release_date: opt_text(self.release_date),
        }
    }
}

impl View for PopularArtist {
    type V = ArtistView;

    open spec fn view(&self) -> ArtistView {
        ArtistView { artist_mbid: self.artist_mbid@, name: self.name@ }
    }
}

/// What each work of a list is.
pub open spec fn work_views(works: Seq<PopularWork>) -> Seq<WorkView> {
    works.map_values(|w: PopularWork| w@)
}

/// What each artist of a list is.
pub open spec fn artist_views(artists: Seq<PopularArtist>) -> Seq<ArtistView> {
    artists.map_values(|a: PopularArtist| a@)
}

// ---------------------------------------------------------------------------
// Reading entries
// ---------------------------------------------------------------------------

/// The texts of a row of names.
pub open spec fn name_texts(names: Seq<&str>) -> Seq<Seq<char>> {
    names.map_values(|n: &str| n@)
}

/// The first of these members that is a string.
pub open spec fn first_text(entry: JsonTree, names: Seq<Seq<char>>) -> Option<Seq<char>>
    decreases names.len(),
{
    if names.len() == 0 {
        None
    } else {
        match entry.text_of(names.first()) {
            Some(s) => Some(s),
            None => first_text(entry, names.drop_first()),
        }
    }
}

/// The first of these members that is a string, trimmed; none where that
/// leaves nothing.
pub open spec fn picked(entry: JsonTree, names: Seq<Seq<char>>) -> Option<Seq<char>> {
    present(first_text(entry, names))
}

/// Reads the first present string field from a set of candidate names.
pub fn pick_str<'a>(entry: &'a Json, names: &[&str]) -> (out: Option<&'a str>)
    ensures
        out is Some == picked(entry@, name_texts(names@)) is Some,
        out matches Some(s) ==> picked(entry@, name_texts(names@)) == Some(s@),
{
    let ghost all = name_texts(names@);
    let mut i: usize = 0;
    assert(all.skip(0) =~= all);
    while i < names.len()
        invariant
            i <= names.len(),
            all == name_texts(names@),
            first_text(entry@, all) == first_text(entry@, all.skip(i as int)),
        decreases names.len() - i,
    {
        assert(all.skip(i as int).first() == names@[i as int]@);
        assert(all.skip(i as int).drop_first() =~= all.skip(i + 1));
        if let Some(s) = entry.str_of(names[i]) {
            let t = trim(s);
            return if t.is_empty() {
                None
            } else {
                Some(t)
            };
        }
        i += 1;
    }
    None
}

/// The payload list: under `payload` and the key, under the key alone, or the
/// whole document.
pub open spec fn payload(doc: JsonTree, key: Seq<char>) -> Option<Seq<JsonTree>> {
    let wrapped = match doc.get("payload"@) {
        Some(p) => p.items_of(key),
        None => None,
    };
    match wrapped {
        Some(items) => Some(items),
        None => match doc.items_of(key) {
            Some(items) => Some(items),
            None => doc.items(),
        },
    }
}

/// The payload list under `payload` and the key, tolerating an unwrapped key
/// and a bare top-level list.
pub fn payload_array<'a>(doc: &'a Json, key: &str) -> (out: Option<&'a Vec<Json>>)
    ensures
        out is Some == payload(doc@, key@) is Some,
        out matches Some(v) ==> payload(doc@, key@) == Some(trees(v@)),
{
    if let Some(p) = doc.get("payload") {
        if let Some(items) = p.array_of(key) {
            return Some(items);
        }
    }
    if let Some(items) = doc.array_of(key) {
        return Some(items);
    }
    doc.as_array()
}

/// The text of the first item of the list under `artist_mbids`.
pub open spec fn first_listed_artist(entry: JsonTree) -> Option<Seq<char>> {
    match entry.items_of("artist_mbids"@) {
        Some(ids) => if ids.len() > 0 {
            ids[0].text()
        } else {
            None
        },
        None => None,
    }
}

fn listed_artist(entry: &Json) -> (out: Option<&str>)
    ensures
        out is Some == first_listed_artist(entry@) is Some,
        out matches Some(s) ==> first_listed_artist(entry@) == Some(s@),
{
    match entry.array_of("artist_mbids") {
        Some(ids) => if ids.len() > 0 {
            ids[0].as_str()
        } else {
            None
        },
        None => None,
    }
}

/// The work an entry reports; none where it has no release-group or no title.
pub open spec fn work_of(entry: JsonTree) -> Option<WorkView> {
    let group = picked(entry, seq!["release_group_mbid"@, "release_group_id"@]);
    let title = picked(
        entry,
        seq!["release_group_name"@, "release_name"@, "title"@, "name"@],
    );
    let credit = picked(entry, seq!["artist_credit_name"@, "artist_name"@, "artist"@]);
    match (group, title) {
        (Some(group), Some(title)) => Some(
            WorkView {
                release_group_mbid: group,
                title,
                artist_name: match credit {
                    Some(name) => name,
                    None => Seq::empty(),
                },
                artist_mbid: match picked(entry, seq!["artist_mbid"@]) {
                    Some(id) => Some(id),
                    None => unless_empty(first_listed_artist(entry)),
                },
                caa: match (
                    picked(entry, seq!["caa_release_mbid"@]),
                    match entry.get("caa_id"@) {
                        Some(id) => id.integer(),
                        None => None,
                    },
                ) {
                    (Some(release), Some(id)) => Some((release, id)),
                    _ => None,
                },
                release_date: picked(
                    entry,
                    seq!["release_date"@, "date"@, "first_release_date"@],
                ),
            },
        ),
        _ => None,
    }
}

fn read_work(entry: &Json) -> (out: Option<PopularWork>)
    ensures
        out is Some == work_of(entry@) is Some,
        out matches Some(w) ==> work_of(entry@) == Some(w@),
{
    let group_names = ["release_group_mbid", "release_group_id"];
    let title_names = ["release_group_name", "release_name", "title", "name"];
    let credit_names = ["artist_credit_name", "artist_name", "artist"];
    let artist_names = ["artist_mbid"];
    let cover_names = ["caa_release_mbid"];
    let date_names = ["release_date", "date", "first_release_date"];
    proof {
        assert(name_texts(group_names@) =~= seq!["release_group_mbid"@, "release_group_id"@]);
        assert(name_texts(title_names@) =~= seq![
            "release_group_name"@,
            "release_name"@,
            "title"@,
            "name"@,
        ]);
        assert(name_texts(credit_names@) =~= seq![
            "artist_credit_name"@,
            "artist_name"@,
            "artist"@,
        ]);
        assert(name_texts(artist_names@) =~= seq!["artist_mbid"@]);
        assert(name_texts(cover_names@) =~= seq!["caa_release_mbid"@]);
        assert(name_texts(date_names@) =~= seq!["release_date"@, "date"@, "first_release_date"@]);
    }
    let Some(group) = pick_str(entry, &group_names) else {
        return None;
    };
    let Some(title) = pick_str(entry, &title_names) else {
        return None;
    };
    let artist_name = match pick_str(entry, &credit_names) {
        Some(name) => name.to_string(),
        None => String::new(),
    };
    let artist_mbid = match pick_str(entry, &artist_names) {
        Some(id) => Some(id.to_string()),
        None => match listed_artist(entry) {
            Some(id) => if id.is_empty() {
                None
            } else {
                Some(id.to_string())
            },
            None => None,
        },
    };
    let caa_id: Option<i64> = match entry.get("caa_id") {
        Some(id) => id.as_i64(),
        None => None,
    };
    let caa = match (pick_str(entry, &cover_names), caa_id) {
        (Some(release), Some(id)) => Some((release.to_string(), id)),
        _ => None,
    };
    let release_date = match pick_str(entry, &date_names) {
        Some(date) => Some(date.to_string()),
        None => None,
    };
    Some(
        PopularWork {
            release_group_mbid: group.to_string(),
            title: title.to_string(),
            artist_name,
            artist_mbid,
            caa,
            release_date,
        },
    )
}

/// The works of a list of entries: one to each release-group, the first entry
/// of each, in order.
pub open spec fn works_of(entries: Seq<JsonTree>) -> Seq<WorkView> {
    first_of_each(
        entries.filter_map(|entry: JsonTree| work_of(entry)),
        |w: WorkView| w.release_group_mbid,
    )
}

/// The works of a document; none where it has no list of them.
pub open spec fn works_in(doc: JsonTree, key: Seq<char>) -> Seq<WorkView> {
    match payload(doc, key) {
        Some(entries) => works_of(entries),
        None => Seq::empty(),
    }
}

fn holds_work(works: &Vec<PopularWork>, group: &str) -> (b: bool)
    ensures
        b == has_key(work_views(works@), |w: WorkView| w.release_group_mbid, group@),
{
    let ghost key = |w: WorkView| w.release_group_mbid;
    let ghost views = work_views(works@);
    let mut i: usize = 0;
    while i < works.len()
        invariant
            i <= works.len(),
            views == work_views(works@),
            key == (|w: WorkView| w.release_group_mbid),
            forall|j: int| 0 <= j < i ==> key(#[trigger] views[j]) != group@,
        decreases works.len() - i,
    {
        assert(key(views[i as int]) == works@[i as int].release_group_mbid@);
        if same_text(works[i].release_group_mbid.as_str(), group) {
            return true;
        }
        i += 1;
    }
    false
}

/// Parses a works payload (`release_groups` for statistics, `releases` for
/// fresh releases).
///
/// The same work can appear several times, one entry to each pressing. A card
/// is per work, so the entries collapse on the release-group.
pub fn parse_works(doc: &Json, key: &str) -> (out: Vec<PopularWork>)
    ensures
        work_views(out@) == works_in(doc@, key@),
{
    let mut out: Vec<PopularWork> = Vec::new();
    assert(work_views(out@) =~= Seq::empty());
    let Some(items) = payload_array(doc, key) else {
        return out;
    };
    let ghost all = trees(items@);
    let ghost pick = |entry: JsonTree| work_of(entry);
    let ghost id = |w: WorkView| w.release_group_mbid;
    let mut i: usize = 0;
    assert(all.take(0) =~= Seq::empty());
    while i < items.len()
        invariant
            i <= items.len(),
            all == trees(items@),
            pick == (|entry: JsonTree| work_of(entry)),
            id == (|w: WorkView| w.release_group_mbid),
            work_views(out@) == first_of_each(all.take(i as int).filter_map(pick), id),
        decreases items.len() - i,
    {
        proof {
            all.lemma_filter_map_take_succ(pick, i as int);
        }
        assert(all[i as int] == items@[i as int]@);
        if let Some(work) = read_work(&items[i]) {
            let ghost done = all.take(i as int).filter_map(pick);
            assert(all.take(i + 1).filter_map(pick) =~= done.push(work@));
            assert(done.push(work@).drop_last() =~= done);
            if !holds_work(&out, work.release_group_mbid.as_str()) {
                let ghost before = out@;
                out.push(work);
                assert(work_views(out@) =~= work_views(before).push(work@));
            }
        }
        i += 1;
    }
    assert(all.take(i as int) =~= all);
    out
}

/// The artist an entry reports; none where it has no id or no name.
pub open spec fn artist_of(entry: JsonTree) -> Option<ArtistView> {
    let id = match picked(entry, seq!["artist_mbid"@]) {
        Some(id) => Some(id),
        None => unless_empty(first_listed_artist(entry)),
    };
    match (id, picked(entry, seq!["artist_name"@, "name"@])) {
        (Some(id), Some(name)) => Some(ArtistView { artist_mbid: id, name }),
        _ => None,
    }
}

fn read_artist(entry: &Json) -> (out: Option<PopularArtist>)
    ensures
        out is Some == artist_of(entry@) is Some,
        out matches Some(a) ==> artist_of(entry@) == Some(a@),
{
    let id_names = ["artist_mbid"];
    let name_names = ["artist_name", "name"];
    proof {
        assert(name_texts(id_names@) =~= seq!["artist_mbid"@]);
        assert(name_texts(name_names@) =~= seq!["artist_name"@, "name"@]);
    }
    let found = match pick_str(entry, &id_names) {
        Some(id) => Some(id),
        None => listed_artist(entry),
    };
    let Some(id) = found else {
        return None;
    };
    if id.is_empty() {
        return None;
    }
    let Some(name) = pick_str(entry, &name_names) else {
        return None;
    };
    Some(PopularArtist { artist_mbid: id.to_string(), name: name.to_string() })
}

/// The artists of a list of entries: one to each id, the first entry of each,
/// in order.
pub open spec fn artists_of(entries: Seq<JsonTree>) -> Seq<ArtistView> {
    first_of_each(
        entries.filter_map(|entry: JsonTree| artist_of(entry)),
        |a: ArtistView| a.artist_mbid,
    )
}

/// The artists of a document; none where it has no list of them.
pub open spec fn artists_in(doc: JsonTree) -> Seq<ArtistView> {
    match payload(doc, "artists"@) {
        Some(entries) => artists_of(entries),
        None => Seq::empty(),
    }
}

fn holds_artist(artists: &Vec<PopularArtist>, id: &str) -> (b: bool)
    ensures
        b == has_key(artist_views(artists@), |a: ArtistView| a.artist_mbid, id@),
{
    let ghost key = |a: ArtistView| a.artist_mbid;
    let ghost views = artist_views(artists@);
    let mut i: usize = 0;
    while i < artists.len()
        invariant
            i <= artists.len(),
            views == artist_views(artists@),
            key == (|a: ArtistView| a.artist_mbid),
            forall|j: int| 0 <= j < i ==> key(#[trigger] views[j]) != id@,
        decreases artists.len() - i,
    {
        assert(key(views[i as int]) == artists@[i as int].artist_mbid@);
        if same_text(artists[i].artist_mbid.as_str(), id) {
            return true;
        }
        i += 1;
    }
    false
}

/// Parses a sitewide-artists payload.
pub fn parse_artists(doc: &Json) -> (out: Vec<PopularArtist>)
    ensures
        artist_views(out@) == artists_in(doc@),
{
    let mut out: Vec<PopularArtist> = Vec::new();
    assert(artist_views(out@) =~= Seq::empty());
    let Some(items) = payload_array(doc, "artists") else {
        return out;
    };
    let ghost all = trees(items@);
    let ghost pick = |entry: JsonTree| artist_of(entry);
    let ghost key = |a: ArtistView| a.artist_mbid;
    let mut i: usize = 0;
    assert(all.take(0) =~= Seq::empty());
    while i < items.len()
        invariant
            i <= items.len(),
            all == trees(items@),
            pick == (|entry: JsonTree| artist_of(entry)),
            key == (|a: ArtistView| a.artist_mbid),
            artist_views(out@) == first_of_each(all.take(i as int).filter_map(pick), key),
        decreases items.len() - i,
    {
        proof {
            all.lemma_filter_map_take_succ(pick, i as int);
        }
        assert(all[i as int] == items@[i as int]@);
        if let Some(artist) = read_artist(&items[i]) {
            let ghost done = all.take(i as int).filter_map(pick);
            assert(all.take(i + 1).filter_map(pick) =~= done.push(artist@));
            assert(done.push(artist@).drop_last() =~= done);
            if !holds_artist(&out, artist.artist_mbid.as_str()) {
                let ghost before = out@;
                out.push(artist);
                assert(artist_views(out@) =~= artist_views(before).push(artist@));
            }
        }
        i += 1;
    }
    assert(all.take(i as int) =~= all);
    out
}

// ---------------------------------------------------------------------------
// Requests and responses
// ---------------------------------------------------------------------------

/// A sitewide statistics request, over a range of time.
pub open spec fn sitewide_query(entity: Seq<char>, range: Seq<char>, count: int) -> Seq<char> {
    "stats/sitewide/"@ + entity + "?range="@ + range + "&count="@ + decimal(
        clamped(count, 1, LB_MAX_COUNT as int) as nat,
    )
}

fn sitewide_path(entity: &str, range: &str, count: usize) -> (out: String)
    ensures
        out@ == sitewide_query(entity@, range@, count as int),
{
    let mut out = "stats/sitewide/".to_string();
    out.append(entity);
    out.append("?range=");
    out.append(range);
    out.append("&count=");
    out.append(decimal_text(clamp(count, 1, LB_MAX_COUNT) as u64).as_str());
    out
}

/// The request for the sitewide top release-groups over a range of time.
pub fn popular_release_groups_path(range: &str, count: usize) -> (out: String)
    ensures
        out@ == sitewide_query("release-groups"@, range@, count as int),
{
    sitewide_path("release-groups", range, count)
}

/// The request for the sitewide top artists over a range of time.
pub fn popular_artists_path(range: &str, count: usize) -> (out: String)
    ensures
        out@ == sitewide_query("artists"@, range@, count as int),
{
    sitewide_path("artists", range, count)
}

/// The request for newly released works. `days` bounds how far back "new"
/// reaches.
pub fn fresh_releases_path(days: u32) -> (out: String)
    ensures
        out@ == "explore/fresh-releases?days="@ + decimal(
            clamped(days as int, 1, LB_MAX_DAYS as int) as nat,
        ) + "&sort=release_date&past=true&future=false"@,
        1 <= days <= 90 ==> out@ == "explore/fresh-releases?days="@ + decimal(days as nat)
            + "&sort=release_date&past=true&future=false"@,
        days == 0 ==> out@ == "explore/fresh-releases?days="@ + decimal(1)
            + "&sort=release_date&past=true&future=false"@,
        days > 90 ==> out@ == "explore/fresh-releases?days="@ + decimal(90)
            + "&sort=release_date&past=true&future=false"@,
{
    let held: u32 = if days < 1 {
        1
    } else if days > LB_MAX_DAYS {
        LB_MAX_DAYS
    } else {
        days
    };
    let mut out = "explore/fresh-releases?days=".to_string();
    out.append(decimal_text(held as u64).as_str());
    out.append("&sort=release_date&past=true&future=false");
    out
}

/// What to do with a ListenBrainz response. Its throttle is 429, and the pause
/// is the one it asks for.
pub fn listenbrainz_reply(status: u16, retry_after: &Option<String>) -> (reply: Reply)
    ensures
        reply == (if status == 429 {
            Reply::Pause(
                retry_secs(*retry_after, LB_RATE_LIMIT_DEFAULT_RETRY_SECS as int) as u64,
            )
        } else if 200 <= status < 300 {
            Reply::Read
        } else {
            Reply::Fail
        }),
        reply is Pause <==> status == 429,
        reply is Read <==> 200 <= status < 300,
        reply matches Reply::Pause(secs) ==> {
            let asked = match retry_after {
                Some(header) => unsigned_value(header@, u64::MAX as int),
                None => None,
            };
            &&& asked is None ==> secs == 2
            &&& asked matches Some(n) ==> secs == n
        },
{
    if status == 429 {
        Reply::Pause(retry_after_secs(retry_after, LB_RATE_LIMIT_DEFAULT_RETRY_SECS))
    } else if 200 <= status && status < 300 {
        Reply::Read
    } else {
        Reply::Fail
    }
}

/// The works in the body of a response, under a payload key; none where the
/// body is not JSON.
pub fn works_in_body(body: &str, key: &str) -> (out: Vec<PopularWork>)
    ensures
        work_views(out@) == (match text_tree(body@) {
            Some(doc) => works_in(doc, key@),
            None => Seq::empty(),
        }),
{
    match Json::parse(body) {
        Some(doc) => parse_works(&doc, key),
        None => {
            let out: Vec<PopularWork> = Vec::new();
            assert(work_views(out@) =~= Seq::empty());
            out
        },
    }
}

/// The works in the body of a sitewide release-group response.
pub fn popular_release_groups(body: &str) -> (out: Vec<PopularWork>)
    ensures
        work_views(out@) == (match text_tree(body@) {
            Some(doc) => works_in(doc, "release_groups"@),
            None => Seq::empty(),
        }),
{
    works_in_body(body, "release_groups")
}

/// The works in the body of a fresh-release response.
pub fn fresh_releases(body: &str) -> (out: Vec<PopularWork>)
    ensures
        work_views(out@) == (match text_tree(body@) {
            Some(doc) => works_in(doc, "releases"@),
            None => Seq::empty(),
        }),
{
    works_in_body(body, "releases")
}

/// The artists in the body of a sitewide artist response.
pub fn popular_artists(body: &str) -> (out: Vec<PopularArtist>)
    ensures
        artist_views(out@) == (match text_tree(body@) {
            Some(doc) => artists_in(doc),
            None => Seq::empty(),
        }),
{
    match Json::parse(body) {
        Some(doc) => parse_artists(&doc),
        None => {
            let out: Vec<PopularArtist> = Vec::new();
            assert(artist_views(out@) =~= Seq::empty());
            out
        },
    }
}

// ---------------------------------------------------------------------------
// Laws
// ---------------------------------------------------------------------------

/// A browse row holds no work twice, and every work it holds has an id and a
/// title.
pub proof fn lemma_one_work_to_a_release_group(doc: JsonTree, key: Seq<char>)
    ensures
        ({
            let works = works_in(doc, key);
            &&& forall|i: int, j: int|
                0 <= i < j < works.len() ==> (#[trigger] works[i]).release_group_mbid != (
                #[trigger] works[j]).release_group_mbid
            &&& forall|i: int|
                0 <= i < works.len() ==> (#[trigger] works[i]).release_group_mbid.len() > 0
                    && works[i].title.len() > 0
        }),
{
    if let Some(items) = payload(doc, key) {
        let pick = |entry: JsonTree| work_of(entry);
        let id = |w: WorkView| w.release_group_mbid;
        let all = items.filter_map(pick);
        lemma_kept_once(all, id);
        let works = works_in(doc, key);
        assert forall|i: int, j: int| 0 <= i < j < works.len() implies (
        #[trigger] works[i]).release_group_mbid != (#[trigger] works[j]).release_group_mbid by {
            assert(id(works[i]) != id(works[j]));
        }
        assert forall|i: int| 0 <= i < works.len() implies (
        #[trigger] works[i]).release_group_mbid.len() > 0 && works[i].title.len() > 0 by {
            lemma_kept_is_listed(all, id, i);
            items.lemma_filter_map_contains(pick, works[i]);
        }
    }
}

/// A browse row holds no artist twice, and every artist it holds has an id and
/// a name.
pub proof fn lemma_one_entry_to_an_artist(doc: JsonTree)
    ensures
        ({
            let artists = artists_in(doc);
            &&& forall|i: int, j: int|
                0 <= i < j < artists.len() ==> (#[trigger] artists[i]).artist_mbid != (
                #[trigger] artists[j]).artist_mbid
            &&& forall|i: int|
                0 <= i < artists.len() ==> (#[trigger] artists[i]).artist_mbid.len() > 0
                    && artists[i].name.len() > 0
        }),
{
    if let Some(items) = payload(doc, "artists"@) {
        let pick = |entry: JsonTree| artist_of(entry);
        let id = |a: ArtistView| a.artist_mbid;
        let all = items.filter_map(pick);
        lemma_kept_once(all, id);
        let artists = artists_in(doc);
        assert forall|i: int, j: int| 0 <= i < j < artists.len() implies (
        #[trigger] artists[i]).artist_mbid != (#[trigger] artists[j]).artist_mbid by {
            assert(id(artists[i]) != id(artists[j]));
        }
        assert forall|i: int| 0 <= i < artists.len() implies (
        #[trigger] artists[i]).artist_mbid.len() > 0 && artists[i].name.len() > 0 by {
            lemma_kept_is_listed(all, id, i);
            items.lemma_filter_map_contains(pick, artists[i]);
        }
    }
}

/// One bad entry never empties a row: the other entries yield what they would
/// yield without it.
pub proof fn lemma_a_bad_entry_is_skipped(
    before: Seq<JsonTree>,
    bad: JsonTree,
    after: Seq<JsonTree>,
)
    ensures
        work_of(bad) is None ==> works_of(before + seq![bad] + after) == works_of(before + after),
        artist_of(bad) is None ==> artists_of(before + seq![bad] + after) == artists_of(
            before + after,
        ),
{
    if work_of(bad) is None {
        lemma_unpicked(before, bad, after, |entry: JsonTree| work_of(entry));
    }
    if artist_of(bad) is None {
        lemma_unpicked(before, bad, after, |entry: JsonTree| artist_of(entry));
    }
}

/// An item that is not picked makes no difference to what is.
proof fn lemma_unpicked<A, B>(before: Seq<A>, item: A, after: Seq<A>, pick: spec_fn(A) -> Option<B>)
    requires
        pick(item) is None,
    ensures
        (before + seq![item] + after).filter_map(pick) == (before + after).filter_map(pick),
{
    lemma_filter_map_concat(before + seq![item], after, pick);
    lemma_filter_map_concat(before, seq![item], pick);
    lemma_filter_map_concat(before, after, pick);
    Seq::lemma_filter_map_singleton(item, pick);
    assert(before.filter_map(pick) + Seq::<B>::empty() =~= before.filter_map(pick));
}

} // verus!
