//! Constants of the feeder.
use vstd::prelude::*;

verus! {

// ---------------------------------------------------------------------------
// MusicBrainz
// ---------------------------------------------------------------------------

/// MusicBrainz web-service v2 base.
pub const MB_API_BASE: &'static str = "https://musicbrainz.org/ws/2";

/// Request timeout for a MusicBrainz call (seconds).
pub const MB_TIMEOUT_SECS: u64 = 20;

/// Pause applied when MusicBrainz throttles without a usable `Retry-After`,
/// and the shortest pause ever applied. Their throttle answers 503, not 429.
pub const MB_RATE_LIMIT_DEFAULT_RETRY_SECS: u64 = 2;

/// Budget-permit deadline for a query somebody is waiting on.
pub const MB_WAIT_DEADLINE_SECS: u64 = 30;

/// Budget-permit deadline for a browse row. Far shorter: nobody asked for this
/// row in particular, and the consumer keeps the row it already has when a
/// pass comes back empty.
pub const MB_DISCOVERY_WAIT_DEADLINE_SECS: u64 = 5;

/// Results MusicBrainz returns per search page.
pub const MB_PAGE_SIZE: usize = 25;

/// The largest page MusicBrainz serves.
pub const MB_PAGE_LIMIT: usize = 100;

/// Ceiling on MusicBrainz pages walked for one row.
pub const MB_MAX_PAGES: u32 = 3;

// ---------------------------------------------------------------------------
// What is kept
// ---------------------------------------------------------------------------

/// Where the answers to release-group searches are kept, by their text.
pub const KEPT_RELEASE_GROUPS: &'static str = "release-group";

/// Where the release-groups of a genre are kept, by its tag.
pub const KEPT_BY_TAG: &'static str = "rg-by-tag";

/// Where the answers to artist searches are kept, by their text.
pub const KEPT_ARTISTS: &'static str = "artist";

/// Where the release-groups of an artist are kept, by its id.
pub const KEPT_BY_ARTIST: &'static str = "rg-by-artist";

/// Where the names of an artist are kept, by its id.
pub const KEPT_ARTIST_NAMES: &'static str = "artist-names";

/// Where an artist's relations to web pages are kept, by its id.
pub const KEPT_ARTIST_RELATIONS: &'static str = "artist-url-rels";

// ---------------------------------------------------------------------------
// Cover Art Archive
// ---------------------------------------------------------------------------

/// Cover Art Archive base. Keyed by MusicBrainz entity id.
pub const CAA_BASE: &'static str = "https://coverartarchive.org";

/// Cover size segment.
pub const CAA_FRONT_SIZE: &'static str = "front-500";

// ---------------------------------------------------------------------------
// ListenBrainz
// ---------------------------------------------------------------------------

/// ListenBrainz API base.
pub const LB_API_BASE: &'static str = "https://api.listenbrainz.org/1";

/// Request timeout for a ListenBrainz call (seconds).
pub const LB_TIMEOUT_SECS: u64 = 20;

/// Pause applied when ListenBrainz throttles without a usable `Retry-After`.
pub const LB_RATE_LIMIT_DEFAULT_RETRY_SECS: u64 = 2;

/// Statistics range of what is popular, as the sitewide stats endpoints take
/// it. The parameter is `range`; its former name, `stats_range`, is answered
/// with a 400.
pub const LB_STATS_RANGE: &'static str = "month";

/// Statistics range of what is trending: a shorter one.
pub const LB_TRENDING_RANGE: &'static str = "week";

/// The longest list a sitewide statistic is asked for.
pub const LB_MAX_COUNT: usize = 100;

/// The longest window, in days, the fresh-releases feed is asked for.
pub const LB_MAX_DAYS: u32 = 90;

// ---------------------------------------------------------------------------
// Result sizing
// ---------------------------------------------------------------------------

/// Default number of cards a free-text search returns.
pub const DEFAULT_CARD_TOP_N: usize = 10;

/// Default number of cards a keyword-less browse row returns.
pub const DEFAULT_CARD_DISCOVERY_N: usize = 20;

/// How many times the wanted number of works a browse row asks for. Whether a
/// work has cover art cannot be told from a response, and a card without any
/// is hidden downstream, so a row asks for more than it needs.
pub const DISCOVERY_OVERFETCH: usize = 2;

/// Ceiling on a release's reported track count.
pub const MAX_TRACK_COUNT: u32 = 500;

/// Days back the fresh row reaches.
pub const FRESH_WINDOW_DAYS: u32 = 30;

/// Fewest votes for a tag to be treated as a genre.
pub const MIN_TAG_VOTES: i64 = 1;

/// Ceiling on genres carried by one card.
pub const MAX_GENRES: usize = 6;

/// How many artists of a search get a cover looked up for them.
pub const MAX_ARTIST_COVER_LOOKUPS: usize = 3;

/// How many release-groups a cover is chosen from.
pub const COVER_CANDIDATES: usize = 5;

} // verus!
