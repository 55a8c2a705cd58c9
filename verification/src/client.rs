//! MusicBrainz web-service v2: the shapes it answers in, the requests it is
//! asked, and what is made of its answers.
use vstd::prelude::*;
use vstd::string::*;

use vstd::utf8::encode_utf8;

use crate::consts::{MB_PAGE_LIMIT, MB_PAGE_SIZE, MB_RATE_LIMIT_DEFAULT_RETRY_SECS};
use crate::json::{text_tree, trees, Json, JsonTree};
use crate::number::{decimal, decimal_text, is_digit, read_unsigned, unsigned_value};
use crate::rank::{rank_all, ranked, Rank, Ranked};
use crate::text::{
    chars_of, lemma_texts_push, lowered, opt_text, same_ignoring_case, strip_end, strip_left,
    strip_right, strip_start, texts, trim, trimmed,
};

verus! {

/// An artist credit entry: one credited name and the phrase that joins it to
/// the next. See [`render_credit`].
#[derive(Clone, Debug, Default)]
pub struct ArtistCredit {
    pub name: String,
    pub joinphrase: String,
    pub artist: Option<CreditedArtist>,
}

#[derive(Clone, Debug, Default)]
pub struct CreditedArtist {
    pub id: String,
    pub name: String,
}

/// The names and join phrases of a credit list, one after the other.
pub open spec fn credit_text(credits: Seq<ArtistCredit>) -> Seq<char>
    decreases credits.len(),
{
    if credits.len() == 0 {
        Seq::empty()
    } else {
        credit_text(credits.drop_last()) + credits.last().name@ + credits.last().joinphrase@
    }
}

/// Flatten a credit list into its display string, honouring join phrases.
pub fn render_credit(credits: &[ArtistCredit]) -> (out: String)
    ensures
        out@ == trimmed(credit_text(credits@)),
{
    let mut out = String::new();
    let mut i: usize = 0;
    while i < credits.len()
        invariant
            i <= credits.len(),
            out@ == credit_text(credits@.take(i as int)),
        decreases credits.len() - i,
    {
        out.append(credits[i].name.as_str());
        out.append(credits[i].joinphrase.as_str());
        assert(credits@.take(i + 1).drop_last() =~= credits@.take(i as int));
        i += 1;
    }
    assert(credits@.take(i as int) =~= credits@);
    trim(out.as_str()).to_string()
}

/// The first credited artist with an id.
pub open spec fn first_identified(credits: Seq<ArtistCredit>) -> Option<CreditedArtist>
    decreases credits.len(),
{
    if credits.len() == 0 {
        None
    } else {
        match credits.first().artist {
            Some(artist) if artist.id@.len() > 0 => Some(artist),
            _ => first_identified(credits.drop_first()),
        }
    }
}

/// The **primary** artist of a credit list: the first entry with a resolved
/// artist id. This is what an album card is filed under; the full rendered
/// credit is what gets displayed.
pub fn primary_artist(credits: &[ArtistCredit]) -> (out: Option<&CreditedArtist>)
    ensures
        out is Some == first_identified(credits@) is Some,
        out matches Some(a) ==> first_identified(credits@) == Some(*a),
{
    let mut i: usize = 0;
    assert(credits@.skip(0) =~= credits@);
    while i < credits.len()
        invariant
            i <= credits.len(),
            first_identified(credits@) == first_identified(credits@.skip(i as int)),
        decreases credits.len() - i,
    {
        assert(credits@.skip(i as int).first() == credits@[i as int]);
        assert(credits@.skip(i as int).drop_first() =~= credits@.skip(i + 1));
        if let Some(artist) = &credits[i].artist {
            if !artist.id.as_str().is_empty() {
                return Some(artist);
            }
        }
        i += 1;
    }
    None
}

#[derive(Clone, Debug, Default)]
pub struct Tag {
    pub name: String,
    pub count: i64,
}

/// A release-group: the **work**, an album across all its pressings.
#[derive(Clone, Debug, Default)]
pub struct ReleaseGroup {
    pub id: String,
    pub title: String,
    /// `Album`, `Single`, `EP`, `Broadcast`, `Other`. Absent on sparse entries.
    pub primary_type: Option<String>,
    /// `Compilation`, `Live`, `Soundtrack`, `Remix`, and so on.
    pub secondary_types: Vec<String>,
    /// `YYYY`, `YYYY-MM` or `YYYY-MM-DD`.
    pub first_release_date: Option<String>,
    pub artist_credit: Vec<ArtistCredit>,
    pub tags: Vec<Tag>,
    pub genres: Vec<Tag>,
    pub disambiguation: Option<String>,
    /// Lucene relevance, 0 to 100, present only on search responses. It
    /// saturates: every exact title match scores 100. See
    /// [`rank_release_groups`].
    pub score: i32,
    /// Number of releases (pressings, editions, reissues) in this group: the
    /// popularity signal MusicBrainz does not otherwise have.
    pub count: u32,
}

#[derive(Clone, Debug, Default)]
pub struct Artist {
    pub id: String,
    pub name: String,
    /// `Person`, `Group`, `Orchestra`, `Choir`, `Character`, `Other`.
    pub artist_type: Option<String>,
    pub country: Option<String>,
    pub disambiguation: Option<String>,
    pub tags: Vec<Tag>,
    pub genres: Vec<Tag>,
}

/// One track on a medium.
#[derive(Clone, Debug, Default)]
pub struct Track {
    pub id: String,
    /// The printed track number, which is a string: vinyl uses `A1`/`B2`.
    /// `position` is the reliable ordinal.
    pub number: Option<String>,
    pub position: u32,
    pub title: String,
    /// Milliseconds. Absent on tracks nobody has timed.
    pub length: Option<u64>,
    pub recording: Option<Recording>,
}

#[derive(Clone, Debug, Default)]
pub struct Recording {
    pub id: String,
    pub title: String,
    pub length: Option<u64>,
    pub isrcs: Vec<String>,
}

/// One physical or logical medium (a disc) within a release.
#[derive(Clone, Debug, Default)]
pub struct Medium {
    pub position: u32,
    pub format: Option<String>,
    pub track_count: u32,
    pub tracks: Vec<Track>,
}

#[derive(Clone, Debug, Default)]
pub struct LabelInfo {
    pub catalog_number: Option<String>,
    pub label: Option<Label>,
}

#[derive(Clone, Debug, Default)]
pub struct Label {
    pub name: String,
}

/// A release: one specific pressing or edition of a release-group.
#[derive(Clone, Debug, Default)]
pub struct Release {
    pub id: String,
    pub title: String,
    pub date: Option<String>,
    pub country: Option<String>,
    pub media: Vec<Medium>,
    pub label_info: Vec<LabelInfo>,
}

// ---------------------------------------------------------------------------
// Ranking
// ---------------------------------------------------------------------------

impl Ranked for ReleaseGroup {
    open spec fn rank(&self) -> Rank {
        Rank { first: self.score as int, second: self.count as int, label: self.id@ }
    }

    fn first_figure(&self) -> (n: i64) {
        self.score as i64
    }

    fn second_figure(&self) -> (n: i64) {
        self.count as i64
    }

    fn label(&self) -> (s: &str) {
        self.id.as_str()
    }
}

/// Re-rank release-group search hits: relevance band first, then how many
/// times the work has actually been released, then the id.
///
/// MusicBrainz's `score` saturates at 100 for any exact title match, so a
/// famous album is returned behind every obscure record that shares its name.
/// The release count breaks the tie within a relevance band; the score stays
/// the primary key, or a prolific artist's loosely-matching album would
/// outrank an exact hit. The id makes the ranking of a set of hits the same
/// whatever order they came in.
pub fn rank_release_groups(hits: Vec<ReleaseGroup>) -> (out: Vec<ReleaseGroup>)
    ensures
        out@ == ranked(hits@),
{
    rank_all(hits)
}

// ---------------------------------------------------------------------------
// Dates
// ---------------------------------------------------------------------------

/// Are the characters from `from` up to `to` all digits?
pub open spec fn digits_at(s: Seq<char>, from: int, to: int) -> bool {
    forall|i: int| from <= i < to ==> is_digit(#[trigger] s[i])
}

/// A variable-precision date completed to `YYYY-MM-DD`: `YYYY`, `YYYY-MM` and
/// `YYYY-MM-DD`, every segment of fixed width and all digits, and nothing else.
pub open spec fn completed_date(raw: Seq<char>) -> Option<Seq<char>> {
    let date = trimmed(raw);
    if date.len() == 4 && digits_at(date, 0, 4) {
        Some(date + "-01-01"@)
    } else if date.len() == 7 && digits_at(date, 0, 4) && date[4] == '-' && digits_at(date, 5, 7) {
        Some(date + "-01"@)
    } else if date.len() == 10 && digits_at(date, 0, 4) && date[4] == '-' && digits_at(date, 5, 7)
        && date[7] == '-' && digits_at(date, 8, 10) {
        Some(date)
    } else {
        None
    }
}

fn only_digits(s: &Vec<char>, from: usize, to: usize) -> (b: bool)
    requires
        from <= to <= s@.len(),
    ensures
        b == digits_at(s@, from as int, to as int),
{
    let mut i: usize = from;
    while i < to
        invariant
            from <= i <= to,
            to <= s@.len(),
            digits_at(s@, from as int, i as int),
        decreases to - i,
    {
        let c = s[i];
        if !('0' <= c && c <= '9') {
            assert(!is_digit(s@[i as int]));
            return false;
        }
        i += 1;
    }
    true
}

/// Normalise a MusicBrainz variable-precision date to `YYYY-MM-DD`.
///
/// A partial date is completed with `-01` rather than dropped: losing the year
/// because the day is unknown would be the worse error. The shape is checked,
/// never inferred from the length, so nothing malformed is passed on.
pub fn normalise_date(raw: &str) -> (out: Option<String>)
    ensures
        out is Some == completed_date(raw@) is Some,
        out matches Some(d) ==> completed_date(raw@) == Some(d@),
{
    let date = trim(raw);
    let chars = chars_of(date);
    let n = chars.len();
    if n == 4 && only_digits(&chars, 0, 4) {
        let mut out = date.to_string();
        out.append("-01-01");
        Some(out)
    } else if n == 7 && only_digits(&chars, 0, 4) && chars[4] == '-' && only_digits(&chars, 5, 7) {
        let mut out = date.to_string();
        out.append("-01");
        Some(out)
    } else if n == 10 && only_digits(&chars, 0, 4) && chars[4] == '-' && only_digits(&chars, 5, 7)
        && chars[7] == '-' && only_digits(&chars, 8, 10) {
        Some(date.to_string())
    } else {
        None
    }
}

/// The year of a variable-precision date: the number its first four characters
/// are.
pub open spec fn year_value(raw: Seq<char>) -> Option<int> {
    let date = trimmed(raw);
    if date.len() >= 4 {
        unsigned_value(date.take(4), u16::MAX as int)
    } else {
        None
    }
}

/// The year from a MusicBrainz variable-precision date.
pub fn year_of(raw: &str) -> (out: Option<u16>)
    ensures
        out is Some == year_value(raw@) is Some,
        out matches Some(y) ==> year_value(raw@) == Some(y as int),
{
    let date = trim(raw);
    if date.unicode_len() < 4 {
        return None;
    }
    match read_unsigned(date.substring_char(0, 4), u16::MAX as u64) {
        Some(y) => Some(y as u16),
        None => None,
    }
}

// ---------------------------------------------------------------------------
// Requests
// ---------------------------------------------------------------------------

/// The bytes a query-string value may hold as they are.
pub open spec fn is_unreserved(b: u8) -> bool {
    ||| 0x41 <= b <= 0x5a
    ||| 0x61 <= b <= 0x7a
    ||| 0x30 <= b <= 0x39
    ||| b == 0x2d
    ||| b == 0x5f
    ||| b == 0x2e
    ||| b == 0x7e
}

/// The upper-case hexadecimal digit for a number below sixteen.
pub open spec fn hex_digit(n: int) -> char {
    if n < 10 {
        (n + 48) as char
    } else {
        (n + 55) as char
    }
}

/// How one byte stands in a query string.
pub open spec fn escaped(b: u8) -> Seq<char> {
    if is_unreserved(b) {
        seq![b as char]
    } else {
        seq!['%', hex_digit(b as int / 16), hex_digit(b as int % 16)]
    }
}

/// How a row of bytes stands in a query string.
pub open spec fn escaped_bytes(bytes: Seq<u8>) -> Seq<char>
    decreases bytes.len(),
{
    if bytes.len() == 0 {
        Seq::empty()
    } else {
        escaped_bytes(bytes.drop_last()) + escaped(bytes.last())
    }
}

/// How a text stands in a query string: its UTF-8 bytes, all but the
/// unreserved ones escaped.
pub open spec fn url_encoded(s: Seq<char>) -> Seq<char> {
    escaped_bytes(encode_utf8(s))
}

fn hex(n: u8) -> (c: char)
    requires
        n < 16,
    ensures
        c == hex_digit(n as int),
{
    if n < 10 {
        (n + 48) as char
    } else {
        (n + 55) as char
    }
}

/// Percent-encode a query-string value. Deliberately conservative: the Lucene
/// syntax MusicBrainz accepts uses `:`, `(`, `)` and `"` meaningfully, so
/// anything outside the unreserved set is escaped rather than passed through.
pub fn urlencode(s: &str) -> (out: String)
    ensures
        out@ == url_encoded(s@),
{
    let bytes = s.as_bytes();
    let mut out = String::new();
    let mut i: usize = 0;
    while i < bytes.len()
        invariant
            bytes@ == encode_utf8(s@),
            i <= bytes.len(),
            out@ == escaped_bytes(bytes@.take(i as int)),
        decreases bytes.len() - i,
    {
        let b = bytes[i];
        let ghost before = out@;
        if (0x41 <= b && b <= 0x5a) || (0x61 <= b && b <= 0x7a) || (0x30 <= b && b <= 0x39) || b
            == 0x2d || b == 0x5f || b == 0x2e || b == 0x7e {
            out.push(b as char);
        } else {
            out.push('%');
            out.push(hex(b / 16));
            out.push(hex(b % 16));
        }
        assert(out@ =~= before + escaped(b));
        assert(bytes@.take(i + 1).drop_last() =~= bytes@.take(i as int));
        i += 1;
    }
    assert(bytes@.take(i as int) =~= bytes@);
    out
}

/// `n`, but no less than `low` and no more than `high`.
pub open spec fn clamped(n: int, low: int, high: int) -> int {
    if n < low {
        low
    } else if n > high {
        high
    } else {
        n
    }
}

/// Holds a number between two bounds.
pub fn clamp(n: usize, low: usize, high: usize) -> (out: usize)
    requires
        low <= high,
    ensures
        out == clamped(n as int, low as int, high as int),
{
    if n < low {
        low
    } else if n > high {
        high
    } else {
        n
    }
}

/// An API base without the slashes it ends with.
pub fn api_base(base: &str) -> (out: String)
    ensures
        out@ == strip_right(base@, '/'),
{
    strip_end(base, '/').to_string()
}

/// The address of a request: the base, one slash, and the path without the
/// slashes it begins with.
pub open spec fn joined_url(base: Seq<char>, path: Seq<char>) -> Seq<char> {
    base + "/"@ + strip_left(path, '/')
}

/// The address of a request.
pub fn request_url(base: &str, path_and_query: &str) -> (out: String)
    ensures
        out@ == joined_url(base@, path_and_query@),
{
    let mut out = base.to_string();
    out.append("/");
    out.append(strip_start(path_and_query, '/'));
    out
}

/// A search over an entity: the query text, escaped, and how many hits.
pub open spec fn search_query(entity: Seq<char>, text: Seq<char>, fetch: int) -> Seq<char> {
    entity + "?query="@ + url_encoded(text) + "&fmt=json&limit="@ + decimal(fetch as nat)
}

fn search_path(entity: &str, text: &str, fetch: usize) -> (out: String)
    ensures
        out@ == search_query(entity@, text@, fetch as int),
{
    let mut out = entity.to_string();
    out.append("?query=");
    out.append(urlencode(text).as_str());
    out.append("&fmt=json&limit=");
    out.append(decimal_text(fetch as u64).as_str());
    out
}

/// The request for a free-text search over release-groups.
///
/// It asks for more than the caller wants: the ranking can only surface what
/// came back, and the work people mean may stand behind many namesakes.
pub fn release_group_search_path(text: &str, limit: usize) -> (out: String)
    requires
        limit * 4 <= usize::MAX,
    ensures
        out@ == search_query(
            "release-group"@,
            text@,
            clamped(limit * 4, MB_PAGE_SIZE as int, MB_PAGE_LIMIT as int),
        ),
        limit * 4 < 25 ==> out@ == search_query("release-group"@, text@, 25),
        25 <= limit * 4 <= 100 ==> out@ == search_query("release-group"@, text@, limit * 4),
        limit * 4 > 100 ==> out@ == search_query("release-group"@, text@, 100),
{
    search_path("release-group", text, clamp(limit * 4, MB_PAGE_SIZE, MB_PAGE_LIMIT))
}

/// The Lucene query for a genre row: full-length records under a tag.
pub open spec fn tag_query(tag: Seq<char>) -> Seq<char> {
    "tag:"@ + tag + " AND primarytype:Album"@
}

/// The request for the albums under a genre tag.
pub fn release_groups_by_tag_path(tag: &str, limit: usize) -> (out: String)
    requires
        limit * 3 <= usize::MAX,
    ensures
        out@ == search_query(
            "release-group"@,
            tag_query(tag@),
            clamped(limit * 3, MB_PAGE_SIZE as int, MB_PAGE_LIMIT as int),
        ),
        limit * 3 < 25 ==> out@ == search_query("release-group"@, tag_query(tag@), 25),
        25 <= limit * 3 <= 100 ==> out@ == search_query(
            "release-group"@,
            tag_query(tag@),
            limit * 3,
        ),
        limit * 3 > 100 ==> out@ == search_query("release-group"@, tag_query(tag@), 100),
{
    let mut lucene = "tag:".to_string();
    lucene.append(tag);
    lucene.append(" AND primarytype:Album");
    search_path(
        "release-group",
        lucene.as_str(),
        clamp(limit * 3, MB_PAGE_SIZE, MB_PAGE_LIMIT),
    )
}

/// The request for a free-text search over artists.
pub fn artist_search_path(text: &str, limit: usize) -> (out: String)
    ensures
        out@ == search_query("artist"@, text@, clamped(limit as int, 1, MB_PAGE_LIMIT as int)),
        limit == 0 ==> out@ == search_query("artist"@, text@, 1),
        1 <= limit <= 100 ==> out@ == search_query("artist"@, text@, limit as int),
        limit > 100 ==> out@ == search_query("artist"@, text@, 100),
{
    search_path("artist", text, clamp(limit, 1, MB_PAGE_LIMIT))
}

/// A request that names one entity: a prefix, the escaped id, a suffix.
pub open spec fn lookup_query(before: Seq<char>, id: Seq<char>, after: Seq<char>) -> Seq<char> {
    before + url_encoded(id) + after
}

fn lookup_path(before: &str, id: &str, after: &str) -> (out: String)
    ensures
        out@ == lookup_query(before@, id@, after@),
{
    let mut out = before.to_string();
    out.append(urlencode(id).as_str());
    out.append(after);
    out
}

/// The request for one release-group, with genres and artist credits.
pub fn release_group_path(mbid: &str) -> (out: String)
    ensures
        out@ == lookup_query("release-group/"@, mbid@, "?fmt=json&inc=artist-credits+genres"@),
{
    lookup_path("release-group/", mbid, "?fmt=json&inc=artist-credits+genres")
}

/// The request for one artist, with genres.
pub fn artist_path(mbid: &str) -> (out: String)
    ensures
        out@ == lookup_query("artist/"@, mbid@, "?fmt=json&inc=genres"@),
{
    lookup_path("artist/", mbid, "?fmt=json&inc=genres")
}

/// The request for the names an artist goes by.
pub fn artist_names_path(mbid: &str) -> (out: String)
    ensures
        out@ == lookup_query("artist/"@, mbid@, "?fmt=json&inc=aliases"@),
{
    lookup_path("artist/", mbid, "?fmt=json&inc=aliases")
}

/// The request for an artist's relations to web pages.
pub fn artist_url_relations_path(mbid: &str) -> (out: String)
    ensures
        out@ == lookup_query("artist/"@, mbid@, "?fmt=json&inc=url-rels"@),
{
    lookup_path("artist/", mbid, "?fmt=json&inc=url-rels")
}

/// The request for the releases of a release-group, with their track lists.
pub fn tracklist_path(release_group_mbid: &str) -> (out: String)
    ensures
        out@ == lookup_query(
            "release?release-group="@,
            release_group_mbid@,
            "&fmt=json&inc=recordings+artist-credits+isrcs+labels&limit=5"@,
        ),
{
    lookup_path(
        "release?release-group=",
        release_group_mbid,
        "&fmt=json&inc=recordings+artist-credits+isrcs+labels&limit=5",
    )
}

/// The request for an artist's discography.
pub fn release_groups_by_artist_path(artist_mbid: &str, limit: usize) -> (out: String)
    ensures
        out@ == lookup_query("release-group?artist="@, artist_mbid@, "&fmt=json&limit="@)
            + decimal(clamped(limit as int, 1, MB_PAGE_LIMIT as int) as nat),
        1 <= limit <= 100 ==> out@ == "release-group?artist="@ + url_encoded(artist_mbid@)
            + "&fmt=json&limit="@ + decimal(limit as nat),
        limit > 100 ==> out@ == "release-group?artist="@ + url_encoded(artist_mbid@)
            + "&fmt=json&limit="@ + decimal(100),
{
    let mut out = lookup_path("release-group?artist=", artist_mbid, "&fmt=json&limit=");
    out.append(decimal_text(clamp(limit, 1, MB_PAGE_LIMIT) as u64).as_str());
    out
}

// ---------------------------------------------------------------------------
// Responses
// ---------------------------------------------------------------------------

/// What to do with an HTTP response.
#[derive(Clone, Copy, PartialEq, Eq, Debug)]
pub enum Reply {
    /// Pause the request budget for this many seconds; there is no result.
    Pause(u64),
    /// There is no result.
    Fail,
    /// The body is the result.
    Read,
}

/// The pause a `Retry-After` header asks for; `fallback` where there is none
/// or it cannot be read.
pub open spec fn retry_secs(retry_after: Option<String>, fallback: int) -> int {
    match retry_after {
        Some(value) => match unsigned_value(value@, u64::MAX as int) {
            Some(secs) => secs,
            None => fallback,
        },
        None => fallback,
    }
}

/// Reads a `Retry-After` header.
pub fn retry_after_secs(retry_after: &Option<String>, fallback: u64) -> (secs: u64)
    ensures
        secs == retry_secs(*retry_after, fallback as int),
{
    match retry_after {
        Some(value) => match read_unsigned(value.as_str(), u64::MAX) {
            Some(secs) => secs,
            None => fallback,
        },
        None => fallback,
    }
}

/// What to do with a MusicBrainz response.
///
/// MusicBrainz answers its throttle with 503, not 429, and sends a literal
/// `Retry-After: 0` under load; the pause is therefore never shorter than
/// [`MB_RATE_LIMIT_DEFAULT_RETRY_SECS`], or a throttled client would retry at
/// once and stay throttled.
pub fn musicbrainz_reply(status: u16, retry_after: &Option<String>) -> (reply: Reply)
    ensures
        reply == (if status == 503 || status == 429 {
            let asked = retry_secs(*retry_after, MB_RATE_LIMIT_DEFAULT_RETRY_SECS as int);
            Reply::Pause(
                (if asked < MB_RATE_LIMIT_DEFAULT_RETRY_SECS {
                    MB_RATE_LIMIT_DEFAULT_RETRY_SECS as int
                } else {
                    asked
                }) as u64,
            )
        } else if 200 <= status < 300 {
            Reply::Read
        } else {
            Reply::Fail
        }),
        reply matches Reply::Pause(secs) ==> secs >= MB_RATE_LIMIT_DEFAULT_RETRY_SECS,
        reply is Pause <==> status == 503 || status == 429,
        reply is Read <==> 200 <= status < 300,
        reply matches Reply::Pause(secs) ==> {
            let asked = match retry_after {
                Some(header) => unsigned_value(header@, u64::MAX as int),
                None => None,
            };
            &&& asked is None ==> secs == 2
            &&& asked matches Some(n) ==> (n < 2 ==> secs == 2) && (n >= 2 ==> secs == n)
        },
{
    if status == 503 || status == 429 {
        let asked = retry_after_secs(retry_after, MB_RATE_LIMIT_DEFAULT_RETRY_SECS);
        if asked < MB_RATE_LIMIT_DEFAULT_RETRY_SECS {
            Reply::Pause(MB_RATE_LIMIT_DEFAULT_RETRY_SECS)
        } else {
            Reply::Pause(asked)
        }
    } else if 200 <= status && status < 300 {
        Reply::Read
    } else {
        Reply::Fail
    }
}

/// The first `n` of a list, or all of it.
pub open spec fn head<T>(list: Seq<T>, n: int) -> Seq<T> {
    if list.len() <= n {
        list
    } else {
        list.take(n)
    }
}

/// The first `limit` items.
pub fn first_page<T>(items: Vec<T>, limit: usize) -> (page: Vec<T>)
    ensures
        page@ == head(items@, limit as int),
{
    let mut page = items;
    if limit < page.len() {
        page.truncate(limit);
    }
    page
}

/// The next step towards an answer: it is at hand, or there is a request to
/// make.
pub enum Step<T> {
    Done(T),
    Ask(String),
}

/// The first step of a search. What was found before and kept is the answer,
/// cut to a page; there is nothing to revalidate.
pub open spec fn search_step<T>(
    step: Step<Vec<T>>,
    kept: Option<Vec<T>>,
    limit: int,
    request: Seq<char>,
) -> bool {
    match kept {
        Some(hits) => step matches Step::Done(page) && page@ == head(hits@, limit),
        None => step matches Step::Ask(path) && path@ == request,
    }
}

/// The first step of a lookup. What was found before and kept is the answer.
pub open spec fn lookup_step<T>(step: Step<T>, kept: Option<T>, request: Seq<char>) -> bool {
    match kept {
        Some(found) => step == Step::Done(found),
        None => step matches Step::Ask(path) && path@ == request,
    }
}

/// Begins a free-text search over release-groups.
pub fn search_release_groups(kept: Option<Vec<ReleaseGroup>>, text: &str, limit: usize) -> (step:
    Step<Vec<ReleaseGroup>>)
    requires
        kept is None ==> limit * 4 <= usize::MAX,
    ensures
        search_step(
            step,
            kept,
            limit as int,
            search_query(
                "release-group"@,
                text@,
                clamped(limit * 4, MB_PAGE_SIZE as int, MB_PAGE_LIMIT as int),
            ),
        ),
        step is Ask <==> kept is None,
        step matches Step::Ask(path) ==> 7 <= limit <= 25 ==> path@ == "release-group"@
            + "?query="@ + url_encoded(text@) + "&fmt=json&limit="@ + decimal((4 * limit) as nat),
{
    match kept {
        Some(hits) => Step::Done(first_page(hits, limit)),
        None => Step::Ask(release_group_search_path(text, limit)),
    }
}

/// Begins a search for the albums under a genre tag.
pub fn release_groups_by_tag(kept: Option<Vec<ReleaseGroup>>, tag: &str, limit: usize) -> (step:
    Step<Vec<ReleaseGroup>>)
    requires
        kept is None ==> limit * 3 <= usize::MAX,
    ensures
        search_step(
            step,
            kept,
            limit as int,
            search_query(
                "release-group"@,
                tag_query(tag@),
                clamped(limit * 3, MB_PAGE_SIZE as int, MB_PAGE_LIMIT as int),
            ),
        ),
        step is Ask <==> kept is None,
        step matches Step::Ask(path) ==> 9 <= limit <= 33 ==> path@ == "release-group"@
            + "?query="@ + url_encoded("tag:"@ + tag@ + " AND primarytype:Album"@)
            + "&fmt=json&limit="@ + decimal((3 * limit) as nat),
{
    match kept {
        Some(hits) => Step::Done(first_page(hits, limit)),
        None => Step::Ask(release_groups_by_tag_path(tag, limit)),
    }
}

/// Begins a free-text search over artists.
pub fn search_artists(kept: Option<Vec<Artist>>, text: &str, limit: usize) -> (step: Step<
    Vec<Artist>,
>)
    ensures
        search_step(
            step,
            kept,
            limit as int,
            search_query("artist"@, text@, clamped(limit as int, 1, MB_PAGE_LIMIT as int)),
        ),
        step is Ask <==> kept is None,
        step matches Step::Ask(path) ==> 1 <= limit <= 100 ==> path@ == "artist"@ + "?query="@
            + url_encoded(text@) + "&fmt=json&limit="@ + decimal(limit as nat),
{
    match kept {
        Some(hits) => Step::Done(first_page(hits, limit)),
        None => Step::Ask(artist_search_path(text, limit)),
    }
}

/// Begins a browse of an artist's release-groups: their discography.
pub fn release_groups_by_artist(
    kept: Option<Vec<ReleaseGroup>>,
    artist_mbid: &str,
    limit: usize,
) -> (step: Step<Vec<ReleaseGroup>>)
    ensures
        search_step(
            step,
            kept,
            limit as int,
            lookup_query("release-group?artist="@, artist_mbid@, "&fmt=json&limit="@) + decimal(
                clamped(limit as int, 1, MB_PAGE_LIMIT as int) as nat,
            ),
        ),
        step is Ask <==> kept is None,
        step matches Step::Ask(path) ==> 1 <= limit <= 100 ==> path@ == "release-group?artist="@
            + url_encoded(artist_mbid@) + "&fmt=json&limit="@ + decimal(limit as nat),
{
    match kept {
        Some(hits) => Step::Done(first_page(hits, limit)),
        None => Step::Ask(release_groups_by_artist_path(artist_mbid, limit)),
    }
}

/// Begins the lookup of one release-group.
pub fn release_group(kept: Option<ReleaseGroup>, mbid: &str) -> (step: Step<ReleaseGroup>)
    ensures
        lookup_step(
            step,
            kept,
            lookup_query("release-group/"@, mbid@, "?fmt=json&inc=artist-credits+genres"@),
        ),
        step matches Step::Ask(path) ==> path@ == "release-group/"@ + url_encoded(mbid@)
            + "?fmt=json&inc=artist-credits+genres"@,
{
    match kept {
        Some(rg) => Step::Done(rg),
        None => Step::Ask(release_group_path(mbid)),
    }
}

/// Begins the lookup of one artist.
pub fn artist(kept: Option<Artist>, mbid: &str) -> (step: Step<Artist>)
    ensures
        lookup_step(step, kept, lookup_query("artist/"@, mbid@, "?fmt=json&inc=genres"@)),
        step matches Step::Ask(path) ==> path@ == "artist/"@ + url_encoded(mbid@)
            + "?fmt=json&inc=genres"@,
{
    match kept {
        Some(a) => Step::Done(a),
        None => Step::Ask(artist_path(mbid)),
    }
}

/// Begins the lookup of a release-group's canonical track list.
pub fn tracklist(kept: Option<Release>, release_group_mbid: &str) -> (step: Step<Release>)
    ensures
        lookup_step(
            step,
            kept,
            lookup_query(
                "release?release-group="@,
                release_group_mbid@,
                "&fmt=json&inc=recordings+artist-credits+isrcs+labels&limit=5"@,
            ),
        ),
        step matches Step::Ask(path) ==> path@ == "release?release-group="@ + url_encoded(
            release_group_mbid@,
        ) + "&fmt=json&inc=recordings+artist-credits+isrcs+labels&limit=5"@,
{
    match kept {
        Some(release) => Step::Done(release),
        None => Step::Ask(tracklist_path(release_group_mbid)),
    }
}

/// Begins the lookup of the names an artist goes by.
pub fn artist_names(kept: Option<Vec<String>>, mbid: &str) -> (step: Step<Vec<String>>)
    ensures
        lookup_step(step, kept, lookup_query("artist/"@, mbid@, "?fmt=json&inc=aliases"@)),
        step matches Step::Ask(path) ==> path@ == "artist/"@ + url_encoded(mbid@)
            + "?fmt=json&inc=aliases"@,
{
    match kept {
        Some(names) => Step::Done(names),
        None => Step::Ask(artist_names_path(mbid)),
    }
}

/// Begins the lookup of an artist's relations to web pages. They live at the
/// artist and nowhere else, so one lookup to an artist is all there ever is.
pub fn artist_url_relations(kept: Option<Vec<(String, String)>>, mbid: &str) -> (step: Step<
    Vec<(String, String)>,
>)
    ensures
        lookup_step(step, kept, lookup_query("artist/"@, mbid@, "?fmt=json&inc=url-rels"@)),
        step matches Step::Ask(path) ==> path@ == "artist/"@ + url_encoded(mbid@)
            + "?fmt=json&inc=url-rels"@,
{
    match kept {
        Some(relations) => Step::Done(relations),
        None => Step::Ask(artist_url_relations_path(mbid)),
    }
}

/// What is made of the answer to a search: the hits in order, and how many of
/// them are shown. All of them are kept to answer the search again, unless
/// there are none: one bad moment would answer it for good.
pub struct Settled<T> {
    pub hits: Vec<T>,
    pub limit: usize,
}

impl<T> Settled<T> {
    /// The hits that are shown.
    pub open spec fn shown(self) -> Seq<T> {
        head(self.hits@, self.limit as int)
    }

    /// The hits that are kept, where any are.
    pub open spec fn kept(self) -> Option<Seq<T>> {
        if self.hits@.len() > 0 {
            Some(self.hits@)
        } else {
            None
        }
    }

    /// The hits to keep, where there are any.
    pub fn to_keep(&self) -> (hits: Option<&Vec<T>>)
        ensures
            hits is Some == self.kept() is Some,
            hits matches Some(v) ==> self.kept() == Some(v@),
    {
        if self.hits.len() > 0 {
            Some(&self.hits)
        } else {
            None
        }
    }

    /// The hits to show.
    pub fn page(self) -> (page: Vec<T>)
        ensures
            page@ == self.shown(),
    {
        first_page(self.hits, self.limit)
    }
}

/// An answer to a search, settled: its first hits are shown and all of them are
/// kept. No answer shows nothing and keeps nothing, and neither does an empty
/// one.
pub open spec fn settles<T>(settled: Settled<T>, answered: Option<Seq<T>>, limit: int) -> bool {
    match answered {
        Some(hits) => {
            &&& settled.shown() == head(hits, limit)
            &&& settled.kept() == (if hits.len() > 0 {
                Some(hits)
            } else {
                None
            })
        },
        None => settled.shown() == Seq::<T>::empty() && settled.kept() is None,
    }
}

/// The hits of an answer, in the order of their ranks.
pub open spec fn ranked_answer(answered: Option<Vec<ReleaseGroup>>) -> Option<Seq<ReleaseGroup>> {
    match answered {
        Some(hits) => Some(ranked(hits@)),
        None => None,
    }
}

/// Settles the answer to a release-group search. The hits are ranked before
/// they are kept and before they are cut to a page: cutting an unranked list
/// would throw away the very hit the ranking exists to surface.
pub fn settle_ranked(answered: Option<Vec<ReleaseGroup>>, limit: usize) -> (out: Settled<
    ReleaseGroup,
>)
    ensures
        settles(out, ranked_answer(answered), limit as int),
{
    let hits: Vec<ReleaseGroup> = match answered {
        Some(hits) => rank_release_groups(hits),
        None => Vec::new(),
    };
    Settled { hits, limit }
}

/// Settles the answer to a search that keeps MusicBrainz's own order.
pub fn settle<T>(answered: Option<Vec<T>>, limit: usize) -> (out: Settled<T>)
    ensures
        settles(
            out,
            match answered {
                Some(hits) => Some(hits@),
                None => None,
            },
            limit as int,
        ),
{
    let hits: Vec<T> = match answered {
        Some(hits) => hits,
        None => Vec::new(),
    };
    Settled { hits, limit }
}

/// What has been asked of upstream, and what came back.
pub enum Asked<T> {
    NotYet,
    Answered(Option<T>),
}

impl<T> Asked<T> {
    /// What is in hand.
    pub open spec fn known(self) -> Option<T> {
        match self {
            Asked::NotYet => None,
            Asked::Answered(found) => found,
        }
    }

    /// What would be in hand, had this come back to a question not yet asked.
    pub open spec fn or(self, found: Option<T>) -> Option<T> {
        match self {
            Asked::NotYet => found,
            Asked::Answered(known) => known,
        }
    }

    /// What is in hand.
    pub fn in_hand(self) -> (found: Option<T>)
        ensures
            found == self.known(),
    {
        match self {
            Asked::NotYet => None,
            Asked::Answered(found) => found,
        }
    }
}

/// What came of a lookup by id. What was found is the answer, and is kept to
/// answer the lookup again; a lookup that found nothing keeps nothing.
pub struct LookedUp<T> {
    pub found: Option<T>,
}

impl<T> LookedUp<T> {
    /// What the lookup gives.
    pub open spec fn given(self) -> Option<T> {
        self.found
    }

    /// What is kept, where anything is.
    pub open spec fn kept(self) -> Option<T> {
        self.found
    }

    /// What to keep, where there is anything.
    pub fn to_keep(&self) -> (kept: Option<&T>)
        ensures
            kept is Some == self.kept() is Some,
            kept matches Some(v) ==> self.kept() == Some(*v),
    {
        match &self.found {
            Some(v) => Some(v),
            None => None,
        }
    }

    /// The answer to the lookup.
    pub fn answer(self) -> (found: Option<T>)
        ensures
            found == self.given(),
    {
        self.found
    }
}

/// A lookup by id, settled: what was found is given and kept, and where nothing
/// was found, nothing is.
pub open spec fn settles_lookup<T>(out: LookedUp<T>, found: Option<T>) -> bool {
    out.given() == found && out.kept() == found
}

/// A looked-up release-group; none where the response named no entity.
pub fn accept_release_group(rg: ReleaseGroup) -> (out: Option<ReleaseGroup>)
    ensures
        out == (if rg.id@.len() > 0 {
            Some(rg)
        } else {
            None
        }),
{
    if rg.id.as_str().is_empty() {
        None
    } else {
        Some(rg)
    }
}

/// A looked-up artist; none where the response named no entity.
pub fn accept_artist(artist: Artist) -> (out: Option<Artist>)
    ensures
        out == (if artist.id@.len() > 0 {
            Some(artist)
        } else {
            None
        }),
{
    if artist.id.as_str().is_empty() {
        None
    } else {
        Some(artist)
    }
}

/// The release-group that a lookup found: what it was answered with, where that
/// names an entity.
pub open spec fn named_group(answered: Option<ReleaseGroup>) -> Option<ReleaseGroup> {
    match answered {
        Some(rg) => if rg.id@.len() > 0 {
            Some(rg)
        } else {
            None
        },
        None => None,
    }
}

/// The artist that a lookup found: what it was answered with, where that names
/// an entity.
pub open spec fn named_artist(answered: Option<Artist>) -> Option<Artist> {
    match answered {
        Some(artist) => if artist.id@.len() > 0 {
            Some(artist)
        } else {
            None
        },
        None => None,
    }
}

/// Settles the lookup of a release-group.
pub fn settle_release_group(answered: Option<ReleaseGroup>) -> (out: LookedUp<ReleaseGroup>)
    ensures
        settles_lookup(out, named_group(answered)),
{
    let found = match answered {
        Some(rg) => accept_release_group(rg),
        None => None,
    };
    LookedUp { found }
}

/// Settles the lookup of an artist.
pub fn settle_artist(answered: Option<Artist>) -> (out: LookedUp<Artist>)
    ensures
        settles_lookup(out, named_artist(answered)),
{
    let found = match answered {
        Some(artist) => accept_artist(artist),
        None => None,
    };
    LookedUp { found }
}

/// Does a release carry any track at all?
pub open spec fn carries_tracks(release: Release) -> bool {
    exists|i: int| 0 <= i < release.media@.len() && (#[trigger] release.media@[i]).tracks@.len() > 0
}

/// The first release that carries tracks.
pub open spec fn canonical_release(releases: Seq<Release>) -> Option<Release>
    decreases releases.len(),
{
    if releases.len() == 0 {
        None
    } else if carries_tracks(releases.first()) {
        Some(releases.first())
    } else {
        canonical_release(releases.drop_first())
    }
}

fn has_tracks(release: &Release) -> (b: bool)
    ensures
        b == carries_tracks(*release),
{
    let mut i: usize = 0;
    while i < release.media.len()
        invariant
            i <= release.media.len(),
            forall|j: int| 0 <= j < i ==> (#[trigger] release.media@[j]).tracks@.len() == 0,
        decreases release.media.len() - i,
    {
        if release.media[i].tracks.len() > 0 {
            assert(release.media@[i as int].tracks@.len() > 0);
            return true;
        }
        i += 1;
    }
    false
}

/// Which pressing counts as canonical: the first release returned that
/// actually carries tracks. MusicBrainz orders a release-group's releases by
/// date, so this is the earliest complete one, whose track list people mean by
/// "the album"; later remasters add bonus tracks.
pub fn choose_release(releases: Vec<Release>) -> (out: Option<Release>)
    ensures
        out == canonical_release(releases@),
{
    let ghost all = releases@;
    let mut rest = releases;
    let mut i: usize = 0;
    assert(all.skip(0) =~= all);
    while i < rest.len()
        invariant
            rest@ == all,
            all == releases@,
            i <= rest.len(),
            canonical_release(all) == canonical_release(all.skip(i as int)),
        decreases rest.len() - i,
    {
        assert(all.skip(i as int).first() == all[i as int]);
        assert(all.skip(i as int).drop_first() =~= all.skip(i + 1));
        if has_tracks(&rest[i]) {
            return Some(rest.remove(i));
        }
        i += 1;
    }
    None
}

/// The release that a lookup of a track list found: the canonical one of those
/// it was answered with.
pub open spec fn found_release(answered: Option<Vec<Release>>) -> Option<Release> {
    match answered {
        Some(releases) => canonical_release(releases@),
        None => None,
    }
}

/// Settles the lookup of a track list.
pub fn settle_tracklist(answered: Option<Vec<Release>>) -> (out: LookedUp<Release>)
    ensures
        settles_lookup(out, found_release(answered)),
{
    let found = match answered {
        Some(releases) => choose_release(releases),
        None => None,
    };
    LookedUp { found }
}

// ---------------------------------------------------------------------------
// Artist names and relations
// ---------------------------------------------------------------------------

/// Adds a name to a list: trimmed, unless it is blank or the list already has
/// it in whatever ASCII case.
pub open spec fn with_name(names: Seq<Seq<char>>, name: Option<Seq<char>>) -> Seq<Seq<char>> {
    match name {
        Some(name) => {
            let name = trimmed(name);
            if name.len() == 0 || exists|i: int|
                0 <= i < names.len() && lowered(#[trigger] names[i]) == lowered(name) {
                names
            } else {
                names.push(name)
            }
        },
        None => names,
    }
}

/// The list with the names of a row of aliases added.
pub open spec fn with_aliases(names: Seq<Seq<char>>, aliases: Seq<JsonTree>) -> Seq<Seq<char>>
    decreases aliases.len(),
{
    if aliases.len() == 0 {
        names
    } else {
        with_name(
            with_aliases(names, aliases.drop_last()),
            aliases.last().text_of("name"@),
        )
    }
}

/// Every name an artist document gives: the name, the sort name, the aliases.
pub open spec fn names_in(artist: JsonTree) -> Seq<Seq<char>> {
    let first = with_name(Seq::empty(), artist.text_of("name"@));
    let both = with_name(first, artist.text_of("sort-name"@));
    match artist.items_of("aliases"@) {
        Some(aliases) => with_aliases(both, aliases),
        None => both,
    }
}

fn add_name(names: &mut Vec<String>, name: Option<&str>)
    ensures
        texts(final(names)@) == with_name(
            texts(old(names)@),
            match name {
                Some(s) => Some(s@),
                None => None,
            },
        ),
{
    if let Some(raw) = name {
        let clean = trim(raw);
        if clean.is_empty() {
            return;
        }
        let mut i: usize = 0;
        while i < names.len()
            invariant
                i <= names.len(),
                *names == *old(names),
                name == Some(raw),
                clean@ == trimmed(raw@),
                clean@.len() > 0,
                forall|j: int| 0 <= j < i ==> lowered((#[trigger] names@[j])@) != lowered(clean@),
            decreases names.len() - i,
        {
            if same_ignoring_case(names[i].as_str(), clean) {
                assert(lowered(texts(names@)[i as int]) == lowered(clean@));
                return;
            }
            i += 1;
        }
        assert forall|j: int| 0 <= j < texts(names@).len() implies lowered(
            #[trigger] texts(names@)[j],
        ) != lowered(clean@) by {
            assert(lowered(names@[j]@) != lowered(clean@));
        }
        let copy = clean.to_string();
        proof {
            lemma_texts_push(names@, copy);
        }
        names.push(copy);
    }
}

/// Every name an artist might be searched under, from an artist document: the
/// credited name may be in a script nobody searches in.
pub fn names_of_artist(artist: &Json) -> (names: Vec<String>)
    ensures
        texts(names@) == names_in(artist@),
{
    let mut names: Vec<String> = Vec::new();
    assert(texts(names@) =~= Seq::empty());
    add_name(&mut names, artist.str_of("name"));
    add_name(&mut names, artist.str_of("sort-name"));
    if let Some(aliases) = artist.array_of("aliases") {
        let ghost both = texts(names@);
        let ghost all = trees(aliases@);
        let mut i: usize = 0;
        assert(all.take(0) =~= Seq::empty());
        while i < aliases.len()
            invariant
                i <= aliases.len(),
                all == trees(aliases@),
                texts(names@) == with_aliases(both, all.take(i as int)),
            decreases aliases.len() - i,
        {
            add_name(&mut names, aliases[i].str_of("name"));
            assert(all.take(i + 1).drop_last() =~= all.take(i as int));
            assert(all.take(i + 1).last() == aliases@[i as int]@);
            i += 1;
        }
        assert(all.take(i as int) =~= all);
    }
    names
}

/// The names in the body of an artist response. `None` means the response did
/// not answer: it is not JSON.
pub fn read_artist_names(body: &str) -> (out: Option<Vec<String>>)
    ensures
        match text_tree(body@) {
            Some(artist) => out matches Some(names) && texts(names@) == names_in(artist),
            None => out is None,
        },
{
    match Json::parse(body) {
        Some(artist) => Some(names_of_artist(&artist)),
        None => None,
    }
}

/// The characters of an optional row of texts.
pub open spec fn opt_texts(row: Option<Vec<String>>) -> Option<Seq<Seq<char>>> {
    match row {
        Some(row) => Some(texts(row@)),
        None => None,
    }
}

/// The names that a lookup found in the body of its response; none where there
/// was no response, or none that names anybody.
pub open spec fn found_names(body: Option<Seq<char>>) -> Option<Seq<Seq<char>>> {
    match body {
        Some(body) => match text_tree(body) {
            Some(artist) => if names_in(artist).len() > 0 {
                Some(names_in(artist))
            } else {
                None
            },
            None => None,
        },
        None => None,
    }
}

/// Settles the lookup of the names an artist goes by.
pub fn settle_artist_names(body: &Option<String>) -> (out: LookedUp<Vec<String>>)
    ensures
        opt_texts(out.given()) == found_names(opt_text(*body)),
        opt_texts(out.kept()) == found_names(opt_text(*body)),
{
    let read = match body {
        Some(body) => read_artist_names(body.as_str()),
        None => None,
    };
    let found = match read {
        Some(names) => if names.len() > 0 {
            Some(names)
        } else {
            None
        },
        None => None,
    };
    LookedUp { found }
}

/// The type of a relation and the address it points at.
pub open spec fn relation(entry: JsonTree) -> Option<(Seq<char>, Seq<char>)> {
    match (entry.text_of("type"@), entry.get("url"@)) {
        (Some(kind), Some(url)) => match url.text_of("resource"@) {
            Some(address) => Some((kind, address)),
            None => None,
        },
        _ => None,
    }
}

/// The relations of an artist document; none where it has no list of them.
/// Entries without a type or an address are left out.
pub open spec fn relations_in(artist: JsonTree) -> Option<Seq<(Seq<char>, Seq<char>)>> {
    match artist.items_of("relations"@) {
        Some(entries) => Some(entries.filter_map(|entry: JsonTree| relation(entry))),
        None => None,
    }
}

/// The characters of a row of pairs.
pub open spec fn pair_texts(pairs: Seq<(String, String)>) -> Seq<(Seq<char>, Seq<char>)> {
    pairs.map_values(|p: (String, String)| (p.0@, p.1@))
}

/// The relations of an artist document.
pub fn relations_of_artist(artist: &Json) -> (out: Option<Vec<(String, String)>>)
    ensures
        out is Some == relations_in(artist@) is Some,
        out matches Some(v) ==> relations_in(artist@) == Some(pair_texts(v@)),
{
    let Some(entries) = artist.array_of("relations") else {
        return None;
    };
    let ghost all = trees(entries@);
    let ghost pick = |entry: JsonTree| relation(entry);
    let mut out: Vec<(String, String)> = Vec::new();
    let mut i: usize = 0;
    assert(all.take(0) =~= Seq::empty());
    assert(pair_texts(out@) =~= Seq::empty());
    while i < entries.len()
        invariant
            i <= entries.len(),
            all == trees(entries@),
            pick == (|entry: JsonTree| relation(entry)),
            pair_texts(out@) == all.take(i as int).filter_map(pick),
        decreases entries.len() - i,
    {
        proof {
            all.lemma_filter_map_take_succ(pick, i as int);
        }
        assert(all[i as int] == entries@[i as int]@);
        let kind = entries[i].str_of("type");
        let address = match entries[i].get("url") {
            Some(url) => url.str_of("resource"),
            None => None,
        };
        let ghost before = out@;
        match (kind, address) {
            (Some(kind), Some(address)) => {
                out.push((kind.to_string(), address.to_string()));
                assert(pair_texts(out@) =~= pair_texts(before).push((kind@, address@)));
                assert(pair_texts(out@) =~= all.take(i + 1).filter_map(pick));
            },
            _ => {
                assert(pair_texts(out@) =~= all.take(i + 1).filter_map(pick));
            },
        }
        i += 1;
    }
    assert(all.take(i as int) =~= all);
    Some(out)
}

/// The relations in the body of an artist response. `None` means the response
/// did not answer, which is not the same as an artist without any.
pub fn read_artist_url_relations(body: &str) -> (out: Option<Vec<(String, String)>>)
    ensures
        match text_tree(body@) {
            Some(artist) => {
                &&& out is Some == relations_in(artist) is Some
                &&& out matches Some(v) ==> relations_in(artist) == Some(pair_texts(v@))
            },
            None => out is None,
        },
{
    match Json::parse(body) {
        Some(artist) => relations_of_artist(&artist),
        None => None,
    }
}

/// The characters of an optional row of pairs.
pub open spec fn opt_pairs(row: Option<Vec<(String, String)>>) -> Option<
    Seq<(Seq<char>, Seq<char>)>,
> {
    match row {
        Some(row) => Some(pair_texts(row@)),
        None => None,
    }
}

/// The relations that a lookup found in the body of its response; none where
/// there was no response, or none with a list of them.
pub open spec fn found_relations(body: Option<Seq<char>>) -> Option<Seq<(Seq<char>, Seq<char>)>> {
    match body {
        Some(body) => match text_tree(body) {
            Some(artist) => relations_in(artist),
            None => None,
        },
        None => None,
    }
}

/// Settles the lookup of an artist's relations to web pages. An artist without
/// any is an answer, and is kept like every other.
pub fn settle_artist_url_relations(body: &Option<String>) -> (out: LookedUp<Vec<(String, String)>>)
    ensures
        opt_pairs(out.given()) == found_relations(opt_text(*body)),
        opt_pairs(out.kept()) == found_relations(opt_text(*body)),
{
    let found = match body {
        Some(body) => read_artist_url_relations(body.as_str()),
        None => None,
    };
    LookedUp { found }
}

} // verus!
