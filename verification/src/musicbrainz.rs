//! The `musicbrainz` upstream: what it serves, how a query is answered, and how
//! a record id is turned back into an address.
//!
//! The plugin proper talks to the network and to the gateway. Its decisions are
//! here: [`MusicBrainzCardPlugin::plan`] says what to ask upstream for a query,
//! [`cards_for_text`] puts the cards of a text search in order, and [`emit`]
//! turns the cards that came of a query into records.
//! [`MusicBrainzCardPlugin::compute_outcomes`] answers for a record id, and
//! [`MusicBrainzCardPlugin::outcome_step`] says what it has to know for that.
use vstd::prelude::*;
use vstd::string::*;

use crate::card::{
    displayable, id_halves, lemma_record_id_splits_back, record_id_of, split_record_id, Card,
    CardKind, CardSource, Cover,
};
use crate::client::{first_page, head, Artist, Asked, ReleaseGroup};
use crate::consts::{
    DEFAULT_CARD_DISCOVERY_N, DEFAULT_CARD_TOP_N, MB_DISCOVERY_WAIT_DEADLINE_SECS,
    MB_WAIT_DEADLINE_SECS,
};
use crate::discovery::{browses, filter_head, first_value, is_browse_query, GatewayQuery, QueryView};
use crate::number::{read_unsigned, unsigned_value};
use crate::record::{opt_record, record_of, DiscoveryRecord, Filters, Locators, RecordView};
use crate::resolve::{
    album_cards_of, artist_hits, card_views, lemma_album_rows_are_displayable,
    lemma_artist_hits_are_displayable, Resolver,
};
use crate::strmap::StrMap;
use crate::text::{
    is_blank, lowered, opt_text, present, same_ignoring_case, same_text, texts, trim, trimmed,
};

verus! {

// ---------------------------------------------------------------------------
// Configuration
// ---------------------------------------------------------------------------

/// Operator config. No API key appears in it: MusicBrainz, the Cover Art
/// Archive and ListenBrainz all serve this traffic without a credential.
#[derive(Clone, Debug, Default)]
pub struct MusicBrainzConfig {
    pub card_top_n: Option<usize>,
    pub card_discovery_n: Option<usize>,
}

/// The count a setting gives; none where it is absent or cannot be read.
pub open spec fn setting(value: Option<Seq<char>>) -> Option<int> {
    match value {
        Some(s) => unsigned_value(s, usize::MAX as int),
        None => None,
    }
}

/// The number of an optional count.
pub open spec fn opt_int(n: Option<usize>) -> Option<int> {
    match n {
        Some(n) => Some(n as int),
        None => None,
    }
}

fn read_setting(value: &Option<String>) -> (n: Option<usize>)
    ensures
        opt_int(n) == setting(opt_text(*value)),
{
    match value {
        Some(s) => match read_unsigned(s.as_str(), usize::MAX as u64) {
            Some(n) => Some(n as usize),
            None => None,
        },
        None => None,
    }
}

/// A configured count that is not zero, or the default.
pub open spec fn effective(configured: Option<usize>, default: usize) -> usize {
    match configured {
        Some(n) => if n > 0 {
            n
        } else {
            default
        },
        None => default,
    }
}

fn effective_count(configured: Option<usize>, default: usize) -> (n: usize)
    ensures
        n == effective(configured, default),
{
    match configured {
        Some(n) => if n > 0 {
            n
        } else {
            default
        },
        None => default,
    }
}

impl MusicBrainzConfig {
    /// The seed of the environment, used on first boot before any config file
    /// exists: the values of `CARD_TOP_N` and `CARD_DISCOVERY_N`.
    pub fn from_env(card_top_n: &Option<String>, card_discovery_n: &Option<String>) -> (config:
        MusicBrainzConfig)
        ensures
            opt_int(config.card_top_n) == setting(opt_text(*card_top_n)),
            opt_int(config.card_discovery_n) == setting(opt_text(*card_discovery_n)),
    {
        MusicBrainzConfig {
            card_top_n: read_setting(card_top_n),
            card_discovery_n: read_setting(card_discovery_n),
        }
    }

    /// Takes over what a config file sets. What the file leaves out stays.
    pub fn load_file(&mut self, file: &MusicBrainzConfig)
        ensures
            final(self).card_top_n == (if file.card_top_n is Some {
                file.card_top_n
            } else {
                old(self).card_top_n
            }),
            final(self).card_discovery_n == (if file.card_discovery_n is Some {
                file.card_discovery_n
            } else {
                old(self).card_discovery_n
            }),
    {
        if file.card_top_n.is_some() {
            self.card_top_n = file.card_top_n;
        }
        if file.card_discovery_n.is_some() {
            self.card_discovery_n = file.card_discovery_n;
        }
    }
}

/// One knob of the config form.
pub struct ConfigField {
    pub key: &'static str,
    pub label: &'static str,
    pub help: &'static str,
}

/// The knobs of the config form, each a number.
pub fn config_fields() -> (fields: Vec<ConfigField>)
    ensures
        fields@.len() == 2,
        fields@[0].key@ == "card_top_n"@,
        fields@[0].label@ == "Cards per search"@,
        fields@[0].help@
            == "How many works a free-text search returns. Blank keeps the built-in default (10). Costs only MusicBrainz calls — no indexer budget is spent until a card is clicked."@,
        fields@[1].key@ == "card_discovery_n"@,
        fields@[1].label@ == "Cards per browse row"@,
        fields@[1].help@
            == "How many cards a keyword-less browse row (popular / trending / fresh) returns. Blank keeps the built-in default (20). A row costs one ListenBrainz call; the feeder over-fetches because it cannot tell in advance which works have cover art."@,
{
    let mut fields: Vec<ConfigField> = Vec::new();
    fields.push(
        ConfigField {
            key: "card_top_n",
            label: "Cards per search",
            help:
                "How many works a free-text search returns. Blank keeps the built-in default (10). Costs only MusicBrainz calls — no indexer budget is spent until a card is clicked.",
        },
    );
    fields.push(
        ConfigField {
            key: "card_discovery_n",
            label: "Cards per browse row",
            help:
                "How many cards a keyword-less browse row (popular / trending / fresh) returns. Blank keeps the built-in default (20). A row costs one ListenBrainz call; the feeder over-fetches because it cannot tell in advance which works have cover art.",
        },
    );
    fields
}

/// The seconds that a query somebody is waiting on may spend on the budget.
pub fn search_deadline() -> (secs: u64)
    ensures
        secs == MB_WAIT_DEADLINE_SECS,
        secs == 30,
{
    MB_WAIT_DEADLINE_SECS
}

/// The (much fewer) seconds that a browse row may spend.
pub fn browse_deadline() -> (secs: u64)
    ensures
        secs == MB_DISCOVERY_WAIT_DEADLINE_SECS,
        secs == 5,
{
    MB_DISCOVERY_WAIT_DEADLINE_SECS
}

// ---------------------------------------------------------------------------
// Reading a query
// ---------------------------------------------------------------------------

/// The first value of a structured filter, trimmed; none where that leaves
/// nothing.
pub fn first_filter(query: &GatewayQuery, key: &str) -> (out: Option<String>)
    ensures
        opt_text(out) == present(first_value(query.filters@, key@)),
{
    match filter_head(query, key) {
        Some(value) => {
            let t = trim(value.as_str());
            if t.is_empty() {
                None
            } else {
                Some(t.to_string())
            }
        },
        None => None,
    }
}

/// Does a query ask for this kind? One with no `contentKind` filter asks for
/// every kind that is served.
pub open spec fn wants(filters: Filters, kind: CardKind) -> bool {
    ||| !filters.contains_key("contentKind"@)
    ||| filters["contentKind"@].len() == 0
    ||| exists|i: int|
        0 <= i < filters["contentKind"@].len() && lowered(
            trimmed(#[trigger] filters["contentKind"@][i]),
        ) == kind.facet()
}

/// Does the query ask for this card kind?
pub fn wants_kind(query: &GatewayQuery, kind: CardKind) -> (b: bool)
    ensures
        b == wants(query.filters@, kind),
{
    proof {
        reveal_strlit("album");
        reveal_strlit("artist");
        assert(lowered(kind.facet()) =~= kind.facet());
    }
    match query.filters.get("contentKind") {
        Some(values) => {
            let ghost all = query.filters@["contentKind"@];
            assert(all =~= texts(values@));
            if values.len() == 0 {
                return true;
            }
            let mut i: usize = 0;
            while i < values.len()
                invariant
                    i <= values.len(),
                    values.len() > 0,
                    all == texts(values@),
                    query.filters@.contains_key("contentKind"@),
                    query.filters@["contentKind"@] == all,
                    lowered(kind.facet()) == kind.facet(),
                    forall|j: int|
                        0 <= j < i ==> lowered(trimmed(#[trigger] all[j])) != kind.facet(),
                decreases values.len() - i,
            {
                assert(all[i as int] == values@[i as int]@);
                if same_ignoring_case(trim(values[i].as_str()), kind.content_kind()) {
                    return true;
                }
                i += 1;
            }
            false
        },
        None => true,
    }
}

// ---------------------------------------------------------------------------
// The plugin
// ---------------------------------------------------------------------------

/// The health of a plugin.
pub enum PluginHealth {
    Healthy,
    Degraded { reason: String },
}

/// The plugin's own state: its configuration and the result sizes it has from
/// it, and whether it is ready to ask upstream.
pub struct MusicBrainzCardPlugin {
    pub config: MusicBrainzConfig,
    pub ready: bool,
    pub top_n: usize,
    pub discovery_n: usize,
}

/// What to ask upstream for a query.
pub enum QueryPlan {
    /// Nothing: there is no answer.
    Nothing,
    /// The work with this id.
    AlbumById { mbid: String },
    /// The artist with this id.
    ArtistById { mbid: String },
    /// This many of the albums of the artist with this id.
    Discography { artist_mbid: String, want: usize },
    /// A browse row of this many cards.
    Browse { n: usize },
    /// A search for this text, of this many albums or artists or both.
    Search { text: String, n: usize, albums: bool, artists: bool },
}

/// What a query plan is.
pub enum QueryPlanView {
    Nothing,
    AlbumById { mbid: Seq<char> },
    ArtistById { mbid: Seq<char> },
    Discography { artist_mbid: Seq<char>, want: int },
    Browse { n: int },
    Search { text: Seq<char>, n: int, albums: bool, artists: bool },
}

impl View for QueryPlan {
    type V = QueryPlanView;

    open spec fn view(&self) -> QueryPlanView {
        match self {
            QueryPlan::Nothing => QueryPlanView::Nothing,
            QueryPlan::AlbumById { mbid } => QueryPlanView::AlbumById { mbid: mbid@ },
            QueryPlan::ArtistById { mbid } => QueryPlanView::ArtistById { mbid: mbid@ },
            QueryPlan::Discography { artist_mbid, want } => QueryPlanView::Discography {
                artist_mbid: artist_mbid@,
                want: *want as int,
            },
            QueryPlan::Browse { n } => QueryPlanView::Browse { n: *n as int },
            QueryPlan::Search { text, n, albums, artists } => QueryPlanView::Search {
                text: text@,
                n: *n as int,
                albums: *albums,
                artists: *artists,
            },
        }
    }
}

/// The most results a query may have, and at least one.
pub open spec fn at_least_one(max_results: int) -> int {
    if max_results < 1 {
        1
    } else {
        max_results
    }
}

/// The lesser of two counts.
pub open spec fn lesser(a: int, b: int) -> int {
    if a <= b {
        a
    } else {
        b
    }
}

/// What a query asks upstream: the work or the artist it names by id; else a
/// browse row, where it is a browse query; else a search for its text.
pub open spec fn query_plan(
    query: QueryView,
    max_results: int,
    top_n: int,
    discovery_n: int,
) -> QueryPlanView {
    let most = at_least_one(max_results);
    let filters = query.filters;
    match (
        present(first_value(filters, "mbReleaseGroupId"@)),
        present(first_value(filters, "mbArtistId"@)),
    ) {
        (Some(mbid), _) => QueryPlanView::AlbumById { mbid },
        (None, Some(mbid)) => if wants(filters, CardKind::Artist) && !wants(
            filters,
            CardKind::Album,
        ) {
            QueryPlanView::ArtistById { mbid }
        } else {
            QueryPlanView::Discography { artist_mbid: mbid, want: most }
        },
        (None, None) => if browses(query) {
            QueryPlanView::Browse { n: lesser(discovery_n, most) }
        } else if is_blank(query.free_text) {
            QueryPlanView::Nothing
        } else {
            QueryPlanView::Search {
                text: trimmed(query.free_text),
                n: lesser(top_n, most),
                albums: wants(filters, CardKind::Album),
                artists: wants(filters, CardKind::Artist),
            }
        },
    }
}

fn least(a: usize, b: usize) -> (n: usize)
    ensures
        n == lesser(a as int, b as int),
{
    if a <= b {
        a
    } else {
        b
    }
}

impl MusicBrainzCardPlugin {
    /// A plugin that is not configured yet, with the settings of the
    /// environment.
    pub fn new(config: MusicBrainzConfig) -> (plugin: Self)
        ensures
            plugin.config == config,
            !plugin.ready,
            plugin.top_n == DEFAULT_CARD_TOP_N,
            plugin.discovery_n == DEFAULT_CARD_DISCOVERY_N,
    {
        MusicBrainzCardPlugin {
            config,
            ready: false,
            top_n: DEFAULT_CARD_TOP_N,
            discovery_n: DEFAULT_CARD_DISCOVERY_N,
        }
    }

    pub fn upstream_id(&self) -> (s: &'static str)
        ensures
            s@ == CardSource::MusicBrainz.name(),
    {
        "musicbrainz"
    }

    /// The routing declaration: `card` is what makes a `fileType:card` query
    /// reach this feeder.
    pub fn served_file_types(&self) -> (types: &'static [&'static str])
        ensures
            types@.len() == 1,
            types@[0]@ == "card"@,
    {
        &["card"]
    }

    /// The other half of the routing declaration: these kinds keep a video card
    /// query from reaching this feeder.
    pub fn served_content_kinds(&self) -> (kinds: &'static [&'static str])
        ensures
            kinds@.len() == 2,
            kinds@[0]@ == CardKind::Album.facet(),
            kinds@[1]@ == CardKind::Artist.facet(),
    {
        &["album", "artist"]
    }

    /// Takes over the settings of the config file, where there is one, and the
    /// result of opening the local cache. Settings in the file win over those
    /// of the environment, and a size of zero is no size. The plugin is ready
    /// once its cache is open.
    pub fn configure(
        &mut self,
        file: &Option<MusicBrainzConfig>,
        cache: &Result<(), String>,
    ) -> (out: Result<(), String>)
        ensures
            ({
                let (top, discovery) = match file {
                    Some(f) => (f.card_top_n, f.card_discovery_n),
                    None => (None, None),
                };
                &&& final(self).config.card_top_n == (if top is Some {
                    top
                } else {
                    old(self).config.card_top_n
                })
                &&& final(self).config.card_discovery_n == (if discovery is Some {
                    discovery
                } else {
                    old(self).config.card_discovery_n
                })
            }),
            final(self).top_n == effective(final(self).config.card_top_n, DEFAULT_CARD_TOP_N),
            final(self).discovery_n == effective(
                final(self).config.card_discovery_n,
                DEFAULT_CARD_DISCOVERY_N,
            ),
            match final(self).config.card_top_n {
                Some(n) => n > 0 ==> final(self).top_n == n,
                None => final(self).top_n == 10,
            },
            match final(self).config.card_discovery_n {
                Some(n) => n > 0 ==> final(self).discovery_n == n,
                None => final(self).discovery_n == 20,
            },
            final(self).ready == (old(self).ready || cache is Ok),
            match cache {
                Ok(_) => out is Ok,
                Err(reason) => out matches Err(e) && e@ == "open music cache: "@ + reason@,
            },
    {
        if let Some(f) = file {
            self.config.load_file(f);
        }
        self.top_n = effective_count(self.config.card_top_n, DEFAULT_CARD_TOP_N);
        self.discovery_n = effective_count(self.config.card_discovery_n, DEFAULT_CARD_DISCOVERY_N);
        match cache {
            Ok(_) => {
                self.ready = true;
                Ok(())
            },
            Err(reason) => {
                let mut e = "open music cache: ".to_string();
                e.append(reason.as_str());
                Err(e)
            },
        }
    }

    /// A plugin that is not ready is degraded: there is no credential that
    /// could be missing, so this is a real fault.
    pub fn health(&self) -> (health: PluginHealth)
        ensures
            health is Healthy == self.ready,
            health matches PluginHealth::Degraded { reason } ==> reason@
                == "configure() not yet called (or the local cache failed to open)"@,
    {
        if self.ready {
            PluginHealth::Healthy
        } else {
            PluginHealth::Degraded {
                reason: "configure() not yet called (or the local cache failed to open)".to_string(),
            }
        }
    }

    /// Decides what to ask upstream for a query. `accepted` is whether the
    /// gateway's own matching accepts the query for what this plugin serves.
    ///
    /// Three shapes, in order: an explicit id, the direct lookup that a deep
    /// link uses; a keyword-less browse query; and free text, the principal
    /// search. An artist id asks for the artist's albums, unless the query
    /// wants artists and not albums.
    pub fn plan(&self, query: &GatewayQuery, accepted: bool, max_results: usize) -> (plan:
        QueryPlan)
        ensures
            plan@ == (if accepted && self.ready {
                query_plan(
                    query@,
                    max_results as int,
                    self.top_n as int,
                    self.discovery_n as int,
                )
            } else {
                QueryPlanView::Nothing
            }),
            !accepted || !self.ready ==> plan is Nothing,
            plan matches QueryPlan::Discography { want, .. } ==> max_results >= 1 ==> want
                == max_results,
            plan matches QueryPlan::Browse { n } ==> max_results >= 1 ==> n <= max_results && n
                <= self.discovery_n && (n == max_results || n == self.discovery_n),
            plan matches QueryPlan::Search { n, .. } ==> max_results >= 1 ==> n <= max_results && n
                <= self.top_n && (n == max_results || n == self.top_n),
    {
        if !accepted || !self.ready {
            return QueryPlan::Nothing;
        }
        let most: usize = if max_results < 1 {
            1
        } else {
            max_results
        };
        if let Some(mbid) = first_filter(query, "mbReleaseGroupId") {
            return QueryPlan::AlbumById { mbid };
        }
        if let Some(mbid) = first_filter(query, "mbArtistId") {
            return if wants_kind(query, CardKind::Artist) && !wants_kind(query, CardKind::Album) {
                QueryPlan::ArtistById { mbid }
            } else {
                QueryPlan::Discography { artist_mbid: mbid, want: most }
            };
        }
        if is_browse_query(query) {
            return QueryPlan::Browse { n: least(self.discovery_n, most) };
        }
        let text = trim(query.free_text.as_str());
        if text.is_empty() {
            return QueryPlan::Nothing;
        }
        QueryPlan::Search {
            text: text.to_string(),
            n: least(self.top_n, most),
            albums: wants_kind(query, CardKind::Album),
            artists: wants_kind(query, CardKind::Artist),
        }
    }
}

impl QueryPlan {
    /// The seconds that the plan may spend on the request budget.
    pub fn deadline(&self) -> (secs: u64)
        ensures
            secs == (if self is Browse {
                MB_DISCOVERY_WAIT_DEADLINE_SECS
            } else {
                MB_WAIT_DEADLINE_SECS
            }),
            self is Browse ==> secs == 5,
            !(self is Browse) ==> secs == 30,
    {
        match self {
            QueryPlan::Browse { .. } => browse_deadline(),
            _ => search_deadline(),
        }
    }
}

// ---------------------------------------------------------------------------
// Answering
// ---------------------------------------------------------------------------

/// What each record of a list says.
pub open spec fn record_views(records: Seq<DiscoveryRecord>) -> Seq<RecordView> {
    records.map_values(|r: DiscoveryRecord| r@)
}

/// The records that a row of cards projects to.
pub open spec fn records_of(cards: Seq<(Card, Locators)>, filters: Filters) -> Seq<RecordView> {
    cards.filter_map(|c: (Card, Locators)| record_of(c.0@, filters, c.1@))
}

/// Projects cards, each with the addresses minted for it, to records: those
/// that would render, in order, at most `max_results`.
pub fn emit(
    cards: &Vec<(Card, Locators)>,
    query_filters: &StrMap<Vec<String>>,
    max_results: usize,
) -> (out: Vec<DiscoveryRecord>)
    ensures
        record_views(out@) == head(records_of(cards@, query_filters@), max_results as int),
        out@.len() <= max_results,
{
    let ghost filters = query_filters@;
    let ghost pick = |c: (Card, Locators)| record_of(c.0@, filters, c.1@);
    let mut all: Vec<DiscoveryRecord> = Vec::new();
    let mut i: usize = 0;
    assert(record_views(all@) =~= Seq::empty());
    while i < cards.len()
        invariant
            i <= cards.len(),
            filters == query_filters@,
            pick == (|c: (Card, Locators)| record_of(c.0@, filters, c.1@)),
            record_views(all@) == cards@.take(i as int).filter_map(pick),
        decreases cards.len() - i,
    {
        proof {
            cards@.lemma_filter_map_take_succ(pick, i as int);
        }
        let (card, locators) = &cards[i];
        if let Some(record) = card.to_record(query_filters, locators) {
            let ghost before = all@;
            all.push(record);
            assert(record_views(all@) =~= record_views(before).push(record@));
        }
        assert(record_views(all@) =~= cards@.take(i + 1).filter_map(pick));
        i += 1;
    }
    assert(cards@.take(i as int) =~= cards@);
    let ghost full = all@;
    let out = first_page(all, max_results);
    assert(record_views(out@) =~= head(record_views(full), max_results as int));
    out
}

/// The cards of a text search: the albums first, the artists behind them.
///
/// A search answers with no more records than were asked for, so the order
/// decides which of them there are. `covers` are those looked up for the first
/// artists; what was not searched for is empty.
pub fn cards_for_text(
    resolver: &Resolver,
    albums: &Vec<ReleaseGroup>,
    artists: &Vec<Artist>,
    covers: &Vec<Option<Cover>>,
) -> (cards: Vec<Card>)
    ensures
        card_views(cards@) == album_cards_of(albums@) + artist_hits(artists@, covers@),
{
    let mut cards = resolver.album_cards_for_text(albums);
    let mut behind = resolver.artist_cards_for_text(artists, covers);
    let ghost first = cards@;
    let ghost second = behind@;
    cards.append(&mut behind);
    assert(card_views(cards@) =~= card_views(first) + card_views(second));
    cards
}

/// Why a record id has no answer.
pub enum GatewayError {
    Permanent(String),
    NotFound,
}

/// What an error says.
pub enum ErrorView {
    Permanent(Seq<char>),
    NotFound,
}

impl View for GatewayError {
    type V = ErrorView;

    open spec fn view(&self) -> ErrorView {
        match self {
            GatewayError::Permanent(reason) => ErrorView::Permanent(reason@),
            GatewayError::NotFound => ErrorView::NotFound,
        }
    }
}

/// The source and id that a record id names; an error where it is malformed, or
/// names another source.
pub open spec fn address_of(record_id: Seq<char>) -> Result<(Seq<char>, Seq<char>), ErrorView> {
    match id_halves(record_id) {
        Some((source, id)) => if source == CardSource::MusicBrainz.name() {
            Ok((source, id))
        } else {
            Err(ErrorView::NotFound)
        },
        None => Err(ErrorView::Permanent("malformed card record_id '"@ + record_id + "'"@)),
    }
}

fn quoted(before: &str, text: &str) -> (out: String)
    ensures
        out@ == before@ + text@ + "'"@,
{
    let mut out = before.to_string();
    out.append(text);
    out.append("'");
    out
}

/// The source and id that a record id names: what its address is minted from,
/// and the id to look the work up by.
pub fn card_address(record_id: &str) -> (out: Result<(&str, &str), GatewayError>)
    ensures
        match address_of(record_id@) {
            Ok((source, id)) => out matches Ok(halves) && halves.0@ == source && halves.1@ == id,
            Err(e) => out matches Err(error) && error@ == e,
        },
{
    match split_record_id(record_id) {
        Some((source, id)) => if same_text(source, CardSource::MusicBrainz.as_str()) {
            Ok((source, id))
        } else {
            Err(GatewayError::NotFound)
        },
        None => Err(GatewayError::Permanent(quoted("malformed card record_id '", record_id))),
    }
}

/// What an address is the address of.
#[derive(Clone, Copy, Debug, PartialEq, Eq, Structural)]
pub enum HashKind {
    /// A card: a work to be found, and no file.
    CardLocator,
}

/// The answer for a record id: the card's address, and the record where the
/// work was found. A card has no bytes, ever, and so no file extension.
pub struct HashOutcome {
    pub hash: String,
    pub hash_kind: HashKind,
    pub bytes: Option<Vec<u8>>,
    pub record: Option<DiscoveryRecord>,
    pub file_extension: Option<String>,
}

/// What an answer says.
#[verifier::ext_equal]
pub struct OutcomeView {
    pub hash: Seq<char>,
    pub hash_kind: HashKind,
    pub bytes: Option<Seq<u8>>,
    pub record: Option<RecordView>,
    pub file_extension: Option<Seq<char>>,
}

impl View for HashOutcome {
    type V = OutcomeView;

    open spec fn view(&self) -> OutcomeView {
        OutcomeView {
            hash: self.hash@,
            hash_kind: self.hash_kind,
            bytes: match self.bytes {
                Some(bytes) => Some(bytes@),
                None => None,
            },
            record: opt_record(self.record),
            file_extension: opt_text(self.file_extension),
        }
    }
}

/// The record of an optional card, for no query in particular.
pub open spec fn lone_record(card: Option<(Card, Locators)>) -> Option<RecordView> {
    match card {
        Some((card, at)) => record_of(card@, Map::empty(), at@),
        None => None,
    }
}

/// The answer for a record id: an error where the id is malformed, foreign or
/// too long to encode, and the address in every other case. The record is the
/// album's where the id names one, else the artist's; a plugin that is not
/// ready has none.
pub open spec fn outcome_of(
    ready: bool,
    record_id: Seq<char>,
    hash: Option<Seq<char>>,
    album: Option<(Card, Locators)>,
    artist: Option<(Card, Locators)>,
) -> Result<OutcomeView, ErrorView> {
    match (address_of(record_id), hash) {
        (Err(e), _) => Err(e),
        (Ok(_), None) => Err(
            ErrorView::Permanent("card id too long to encode: '"@ + record_id + "'"@),
        ),
        (Ok(_), Some(hash)) => Ok(
            OutcomeView {
                hash,
                hash_kind: HashKind::CardLocator,
                bytes: None,
                record: if !ready {
                    None
                } else if album is Some {
                    lone_record(album)
                } else {
                    lone_record(artist)
                },
                file_extension: None,
            },
        ),
    }
}

/// What to ask next for the answer to a record id.
#[derive(Clone, Copy, Debug, PartialEq, Eq, Structural)]
pub enum OutcomeStep {
    /// The album that the id names.
    Album,
    /// The artist that it names.
    Artist,
    /// Nothing: what is in hand decides.
    Done,
}

/// The next request for the answer to a record id. The artist is looked up only
/// where the id names no album, and nothing is where there is no record to have:
/// without an address, or a plugin that is ready.
pub open spec fn outcome_step_of(
    ready: bool,
    record_id: Seq<char>,
    hash: Option<Seq<char>>,
    album: Asked<(Card, Locators)>,
    artist: Asked<(Card, Locators)>,
) -> OutcomeStep {
    if !ready || address_of(record_id) is Err || hash is None {
        OutcomeStep::Done
    } else {
        match (album, artist) {
            (Asked::NotYet, _) => OutcomeStep::Album,
            (Asked::Answered(None), Asked::NotYet) => OutcomeStep::Artist,
            _ => OutcomeStep::Done,
        }
    }
}

fn project(card: &Option<(Card, Locators)>) -> (out: Option<DiscoveryRecord>)
    ensures
        opt_record(out) == lone_record(*card),
{
    match card {
        Some((card, at)) => {
            let no_filters: StrMap<Vec<String>> = StrMap::new();
            card.to_record(&no_filters, at)
        },
        None => None,
    }
}

impl MusicBrainzCardPlugin {
    /// What to ask next for the answer to a record id, until
    /// [`MusicBrainzCardPlugin::compute_outcomes`] has all it needs.
    pub fn outcome_step(
        &self,
        record_id: &str,
        hash: &Option<String>,
        album: &Asked<(Card, Locators)>,
        artist: &Asked<(Card, Locators)>,
    ) -> (step: OutcomeStep)
        ensures
            step == outcome_step_of(self.ready, record_id@, opt_text(*hash), *album, *artist),
    {
        if !self.ready || card_address(record_id).is_err() || hash.is_none() {
            return OutcomeStep::Done;
        }
        match (album, artist) {
            (Asked::NotYet, _) => OutcomeStep::Album,
            (Asked::Answered(None), Asked::NotYet) => OutcomeStep::Artist,
            _ => OutcomeStep::Done,
        }
    }

    /// Resolves a card record id back into its address.
    ///
    /// `hash` is the address minted from what [`card_address`] gives, and
    /// `album` and `artist` are the works that its id was found to name. The
    /// record id carries no kind, so the kind has to be discovered: the album
    /// first, since albums outnumber artists. The address needs neither of
    /// them, nor a plugin that is ready.
    pub fn compute_outcomes(
        &self,
        record_id: &str,
        hash: &Option<String>,
        album: &Option<(Card, Locators)>,
        artist: &Option<(Card, Locators)>,
    ) -> (out: Result<Vec<HashOutcome>, GatewayError>)
        ensures
            match outcome_of(self.ready, record_id@, opt_text(*hash), *album, *artist) {
                Ok(outcome) => out matches Ok(all) && all@.len() == 1 && all@[0]@ == outcome,
                Err(e) => out matches Err(error) && error@ == e,
            },
            out matches Ok(all) ==> {
                &&& hash matches Some(minted) && all@[0].hash@ == minted@
                &&& all@[0].bytes is None && all@[0].file_extension is None
                &&& !self.ready ==> all@[0].record is None
            },
    {
        if let Err(e) = card_address(record_id) {
            return Err(e);
        }
        let Some(hash) = hash else {
            return Err(GatewayError::Permanent(quoted("card id too long to encode: '", record_id)));
        };
        let record = if !self.ready {
            None
        } else if album.is_some() {
            project(album)
        } else {
            project(artist)
        };
        let mut all: Vec<HashOutcome> = Vec::new();
        all.push(
            HashOutcome {
                hash: hash.clone(),
                hash_kind: HashKind::CardLocator,
                bytes: None,
                record,
                file_extension: None,
            },
        );
        Ok(all)
    }
}

// ---------------------------------------------------------------------------
// Laws
// ---------------------------------------------------------------------------

/// The record id of every card with an id resolves back to the source and the
/// id that its address is minted from.
pub proof fn lemma_every_card_resolves_back(source: CardSource, mbid: Seq<char>)
    requires
        mbid.len() > 0,
    ensures
        address_of(record_id_of(source, mbid)) == Ok::<(Seq<char>, Seq<char>), ErrorView>(
            (source.name(), mbid),
        ),
{
    lemma_record_id_splits_back(source, mbid);
}

/// Every card with an id has its answer, whether or not the plugin is ready and
/// whatever was found: the address that was minted, as that of a card, with no
/// bytes and no file extension.
pub proof fn lemma_every_card_has_its_address(
    ready: bool,
    source: CardSource,
    mbid: Seq<char>,
    hash: Seq<char>,
    album: Option<(Card, Locators)>,
    artist: Option<(Card, Locators)>,
)
    requires
        mbid.len() > 0,
    ensures
        outcome_of(ready, record_id_of(source, mbid), Some(hash), album, artist) matches Ok(o)
            && o.hash == hash && o.hash_kind == HashKind::CardLocator && o.bytes is None
            && o.file_extension is None,
{
    lemma_every_card_resolves_back(source, mbid);
}

/// A failure to find the work costs the record and not the address, and so does
/// a plugin that is not ready.
pub proof fn lemma_the_address_needs_no_lookup(
    ready: bool,
    record_id: Seq<char>,
    hash: Seq<char>,
    album: Option<(Card, Locators)>,
    artist: Option<(Card, Locators)>,
)
    requires
        address_of(record_id) is Ok,
    ensures
        outcome_of(ready, record_id, Some(hash), album, artist) matches Ok(o) && o.hash == hash,
        outcome_of(ready, record_id, Some(hash), None, None) matches Ok(o) && o.hash == hash
            && o.record is None,
        outcome_of(false, record_id, Some(hash), album, artist) matches Ok(o) && o.hash == hash
            && o.record is None,
{
}

/// An answer to a record id costs a lookup of the album and, where there is
/// none, one of the artist. Each is made once, none is made without an address
/// or by a plugin that is not ready, and what was not looked up by the end could
/// not have changed the answer.
pub proof fn lemma_an_outcome_asks_what_it_needs(
    ready: bool,
    record_id: Seq<char>,
    hash: Option<Seq<char>>,
    album: Asked<(Card, Locators)>,
    artist: Asked<(Card, Locators)>,
    other_album: Option<(Card, Locators)>,
    other_artist: Option<(Card, Locators)>,
)
    ensures
        ({
            let step = outcome_step_of(ready, record_id, hash, album, artist);
            &&& step != OutcomeStep::Done ==> ready && address_of(record_id) is Ok && hash is Some
            &&& step == OutcomeStep::Album ==> album is NotYet
            &&& step == OutcomeStep::Artist ==> artist is NotYet && album
                == Asked::<(Card, Locators)>::Answered(None)
            &&& step == OutcomeStep::Done ==> outcome_of(
                ready,
                record_id,
                hash,
                album.known(),
                artist.known(),
            ) == outcome_of(ready, record_id, hash, album.or(other_album), artist.or(other_artist))
        }),
{
}

/// In a text search every album goes before every artist, and every card would
/// render.
pub proof fn lemma_albums_go_before_artists(
    albums: Seq<ReleaseGroup>,
    artists: Seq<Artist>,
    covers: Seq<Option<Cover>>,
    i: int,
)
    requires
        0 <= i < (album_cards_of(albums) + artist_hits(artists, covers)).len(),
    ensures
        ({
            let cards = album_cards_of(albums) + artist_hits(artists, covers);
            &&& displayable(cards[i])
            &&& i < album_cards_of(albums).len() <==> cards[i].kind == CardKind::Album
        }),
{
    let first = album_cards_of(albums);
    if i < first.len() {
        lemma_album_rows_are_displayable(albums, Seq::empty(), i);
    } else {
        lemma_artist_hits_are_displayable(artists, covers, i - first.len());
    }
}

/// A query is never answered with more records than it may have.
pub proof fn lemma_records_are_bounded(
    cards: Seq<(Card, Locators)>,
    filters: Filters,
    max_results: nat,
)
    ensures
        head(records_of(cards, filters), max_results as int).len() <= max_results,
{
}

/// Every record is that of a card in hand that would render.
pub proof fn lemma_every_record_has_its_card(
    cards: Seq<(Card, Locators)>,
    filters: Filters,
    i: int,
)
    requires
        0 <= i < records_of(cards, filters).len(),
    ensures
        exists|c: (Card, Locators)| #[trigger]
            cards.contains(c) && displayable(c.0@) && record_of(c.0@, filters, c.1@) == Some(
                records_of(cards, filters)[i],
            ),
{
    let pick = |c: (Card, Locators)| record_of(c.0@, filters, c.1@);
    let record = records_of(cards, filters)[i];
    cards.lemma_filter_map_contains(pick, record);
    let c = choose|c: (Card, Locators)| #[trigger] cards.contains(c) && pick(c) == Some(record);
    assert(cards.contains(c) && displayable(c.0@));
}

/// The shapes of a query go in order: a work's id before everything, then an
/// artist's id, then browsing, then text.
pub proof fn lemma_plan_precedence(
    query: QueryView,
    max_results: int,
    top_n: int,
    discovery_n: int,
)
    ensures
        ({
            let plan = query_plan(query, max_results, top_n, discovery_n);
            let work = present(first_value(query.filters, "mbReleaseGroupId"@));
            let artist = present(first_value(query.filters, "mbArtistId"@));
            &&& plan is AlbumById <==> work is Some
            &&& (plan is ArtistById || plan is Discography) <==> work is None && artist is Some
            &&& plan is Browse <==> work is None && artist is None && browses(query)
            &&& plan is Search <==> work is None && artist is None && !is_blank(query.free_text)
        }),
{
}

/// A plugin that is not ready asks nothing, and neither does one whose query
/// the gateway's matching does not accept: see [`MusicBrainzCardPlugin::plan`].
/// One that is ready asks for no more cards than its settings and the query
/// allow.
pub proof fn lemma_plan_is_bounded(
    query: QueryView,
    max_results: int,
    top_n: int,
    discovery_n: int,
)
    requires
        max_results >= 0,
    ensures
        query_plan(query, max_results, top_n, discovery_n) matches QueryPlanView::Browse { n }
            ==> n <= discovery_n && n <= at_least_one(max_results),
        query_plan(query, max_results, top_n, discovery_n) matches QueryPlanView::Search { n, .. }
            ==> n <= top_n && n <= at_least_one(max_results),
{
}

} // verus!
