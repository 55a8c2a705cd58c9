//! The plugin's decisions.
use musicbrainz_feeder::card::{Card, CardKind, CardSource, Cover};
use musicbrainz_feeder::client::{Artist, Asked, ReleaseGroup};
use musicbrainz_feeder::discovery::GatewayQuery;
use musicbrainz_feeder::musicbrainz::{
    browse_deadline, card_address, cards_for_text, config_fields, emit, first_filter,
    search_deadline, wants_kind, GatewayError, HashKind, MusicBrainzCardPlugin, MusicBrainzConfig,
    OutcomeStep, PluginHealth, QueryPlan,
};
use musicbrainz_feeder::record::Locators;
use musicbrainz_feeder::resolve::Resolver;
use musicbrainz_feeder::strmap::StrMap;

const RG: &str = "f5093c06-23e3-404f-aeaa-40f72885ee3a";

fn query(raw: &str, filters: &[(&str, &[&str])]) -> GatewayQuery {
    let mut map: StrMap<Vec<String>> = StrMap::new();
    for (key, values) in filters {
        map.insert(key.to_string(), values.iter().map(|v| v.to_string()).collect());
    }
    GatewayQuery { free_text: raw.to_string(), filters: map }
}

fn ready() -> MusicBrainzCardPlugin {
    let mut p = MusicBrainzCardPlugin::new(MusicBrainzConfig::default());
    p.configure(&None, &Ok(())).expect("configured");
    p
}

#[test]
fn declares_the_card_file_type_and_the_music_work_kinds() {
    let p = MusicBrainzCardPlugin::new(MusicBrainzConfig::default());
    assert_eq!(p.upstream_id(), "musicbrainz");
    assert_eq!(p.served_file_types(), &["card"]);
    assert_eq!(p.served_content_kinds(), &["album", "artist"]);
}

#[test]
fn compute_outcomes_yields_a_byteless_locator_without_configuration() {
    let p = MusicBrainzCardPlugin::new(MusicBrainzConfig::default());
    let id = format!("musicbrainz:{RG}");
    assert_eq!(card_address(&id).ok(), Some(("musicbrainz", RG)));
    let album = Some(card(RG, CardKind::Album, true));
    let outcomes = p
        .compute_outcomes(&id, &Some("zCard".to_string()), &album, &None)
        .ok()
        .expect("outcomes");
    assert_eq!(outcomes.len(), 1);
    let o = &outcomes[0];
    assert_eq!(o.hash_kind, HashKind::CardLocator);
    assert!(o.bytes.is_none(), "a card has no bytes, ever");
    assert!(o.file_extension.is_none());
    assert_eq!(o.hash, "zCard");
    assert!(o.record.is_none(), "nothing is looked up without configuration");
}

#[test]
fn compute_outcomes_rejects_a_foreign_or_malformed_id() {
    let p = MusicBrainzCardPlugin::new(MusicBrainzConfig::default());
    let hash = Some("zCard".to_string());
    assert!(matches!(
        p.compute_outcomes("tmdb:tv:95479", &hash, &None, &None),
        Err(GatewayError::NotFound)
    ));
    match p.compute_outcomes("nosource", &hash, &None, &None) {
        Err(GatewayError::Permanent(reason)) => {
            assert_eq!(reason, "malformed card record_id 'nosource'");
        }
        _ => panic!("malformed"),
    }
    assert!(matches!(card_address("tmdb:tv:95479"), Err(GatewayError::NotFound)));
}

#[test]
fn rejects_a_query_for_a_type_it_does_not_serve() {
    let q = query("miles davis", &[("fileType", &["video"])]);
    assert!(matches!(ready().plan(&q, false, 10), QueryPlan::Nothing));
}

#[test]
fn an_unconfigured_plugin_is_degraded_and_answers_nothing() {
    let p = MusicBrainzCardPlugin::new(MusicBrainzConfig::default());
    let q = query("miles davis", &[]);
    assert!(matches!(p.plan(&q, true, 10), QueryPlan::Nothing));
    assert!(matches!(p.health(), PluginHealth::Degraded { .. }));
}

#[test]
fn a_query_with_no_content_kind_wants_every_served_kind() {
    let q = query("x", &[]);
    assert!(wants_kind(&q, CardKind::Album));
    assert!(wants_kind(&q, CardKind::Artist));
}

#[test]
fn a_content_kind_filter_selects_one_kind() {
    let q = query("x", &[("contentKind", &["artist"])]);
    assert!(!wants_kind(&q, CardKind::Album));
    assert!(wants_kind(&q, CardKind::Artist));
}

#[test]
fn first_filter_trims_and_rejects_empties() {
    let q = query("x", &[("mbReleaseGroupId", &["  rg-1 "]), ("mbArtistId", &["   "])]);
    assert_eq!(first_filter(&q, "mbReleaseGroupId").as_deref(), Some("rg-1"));
    assert_eq!(first_filter(&q, "mbArtistId"), None);
    assert_eq!(first_filter(&q, "absent"), None);
}

// ---------------------------------------------------------------------------
// Configuration
// ---------------------------------------------------------------------------

#[test]
fn settings_come_from_the_environment_and_the_file_wins() {
    let env = MusicBrainzConfig::from_env(&Some("7".into()), &Some("x".into()));
    assert_eq!(env.card_top_n, Some(7));
    assert_eq!(env.card_discovery_n, None);
    assert_eq!(MusicBrainzConfig::from_env(&Some("+5".into()), &None).card_top_n, Some(5));
    assert_eq!(MusicBrainzConfig::from_env(&Some("-5".into()), &None).card_top_n, None);
    assert_eq!(
        MusicBrainzConfig::from_env(&Some("18446744073709551616".into()), &None).card_top_n,
        None
    );
    let mut p = MusicBrainzCardPlugin::new(env);
    let file = MusicBrainzConfig { card_top_n: None, card_discovery_n: Some(3) };
    assert!(p.configure(&Some(file), &Ok(())).is_ok());
    assert_eq!((p.top_n, p.discovery_n), (7, 3));
    assert!(matches!(p.health(), PluginHealth::Healthy));
    let zeros = MusicBrainzConfig { card_top_n: Some(0), card_discovery_n: Some(0) };
    assert!(p.configure(&Some(zeros), &Ok(())).is_ok());
    assert_eq!((p.top_n, p.discovery_n), (10, 20));
}

#[test]
fn a_cache_that_does_not_open_leaves_the_plugin_degraded() {
    let mut p = MusicBrainzCardPlugin::new(MusicBrainzConfig::default());
    let file = MusicBrainzConfig { card_top_n: Some(4), card_discovery_n: None };
    let out = p.configure(&Some(file), &Err("locked".to_string()));
    assert_eq!(out, Err("open music cache: locked".to_string()));
    assert_eq!(p.top_n, 4);
    match p.health() {
        PluginHealth::Degraded { reason } => assert_eq!(
            reason,
            "configure() not yet called (or the local cache failed to open)"
        ),
        PluginHealth::Healthy => panic!("degraded"),
    }
}

#[test]
fn the_form_has_a_field_for_each_setting() {
    let fields = config_fields();
    assert_eq!(fields.len(), 2);
    assert_eq!(fields[0].key, "card_top_n");
    assert_eq!(fields[1].key, "card_discovery_n");
    assert!(fields[0].help.contains("default (10)"));
    assert!(fields[1].help.contains("default (20)"));
}

// ---------------------------------------------------------------------------
// Plans
// ---------------------------------------------------------------------------

#[test]
fn an_id_goes_before_browsing_and_text() {
    let p = ready();
    let q = query(
        "miles",
        &[("mbReleaseGroupId", &[" rg "]), ("mbArtistId", &["a"]), ("popular", &["true"])],
    );
    match p.plan(&q, true, 5) {
        QueryPlan::AlbumById { mbid } => assert_eq!(mbid, "rg"),
        _ => panic!("the work's id decides"),
    }
    let q = query("miles", &[("mbArtistId", &["a"]), ("contentKind", &["ARTIST"])]);
    match p.plan(&q, true, 5) {
        QueryPlan::ArtistById { mbid } => assert_eq!(mbid, "a"),
        _ => panic!("the artist is wanted"),
    }
    for kinds in [&["album"][..], &["artist", "album"][..], &[][..]] {
        let q = query("", &[("mbArtistId", &["a"]), ("contentKind", kinds)]);
        match p.plan(&q, true, 0) {
            QueryPlan::Discography { artist_mbid, want } => {
                assert_eq!(artist_mbid, "a");
                assert_eq!(want, 1, "at least one is asked for");
            }
            _ => panic!("the discography is wanted"),
        }
    }
}

#[test]
fn a_browse_query_is_bounded_by_the_settings_and_the_limit() {
    let p = ready();
    let q = query("  ", &[("popular", &["true"]), ("contentKind", &["album"])]);
    assert!(matches!(p.plan(&q, true, 100), QueryPlan::Browse { n: 20 }));
    assert!(matches!(p.plan(&q, true, 5), QueryPlan::Browse { n: 5 }));
    assert!(matches!(p.plan(&q, true, 0), QueryPlan::Browse { n: 1 }));
    assert_eq!(p.plan(&q, true, 5).deadline(), 5);
    assert_eq!(browse_deadline(), 5);
}

#[test]
fn text_is_searched_for_the_kinds_that_are_wanted() {
    let p = ready();
    match p.plan(&query(" miles davis ", &[]), true, 100) {
        QueryPlan::Search { text, n, albums, artists } => {
            assert_eq!(text, "miles davis");
            assert_eq!(n, 10);
            assert!(albums && artists);
        }
        _ => panic!("text is searched"),
    }
    match p.plan(&query("x", &[("contentKind", &["album"])]), true, 3) {
        QueryPlan::Search { n, albums, artists, .. } => {
            assert_eq!(n, 3);
            assert!(albums && !artists);
        }
        _ => panic!("text is searched"),
    }
    assert!(matches!(p.plan(&query("  ", &[]), true, 3), QueryPlan::Nothing));
    // A blank id filter is no id, but it is still a filter: no browsing.
    let q = query("", &[("mbArtistId", &[" "]), ("popular", &["true"])]);
    assert!(matches!(p.plan(&q, true, 3), QueryPlan::Nothing));
    assert_eq!(p.plan(&query("x", &[]), true, 3).deadline(), 30);
    assert_eq!(search_deadline(), 30);
}

// ---------------------------------------------------------------------------
// Answers
// ---------------------------------------------------------------------------

fn card(id: &str, kind: CardKind, covered: bool) -> (Card, Locators) {
    let card = Card {
        source: CardSource::MusicBrainz,
        kind,
        mbid: id.into(),
        title: "T".into(),
        album_artist: None,
        artists: vec![],
        artist_mbid: None,
        cover: if covered {
            Some(Cover::ReleaseGroupFront { release_group_mbid: id.into() })
        } else {
            None
        },
        disambiguation: None,
        genres: vec![],
        release_date: None,
        track_count: None,
        disc_count: None,
        label: None,
        catalog_number: None,
        primary_type: None,
        secondary_types: vec![],
        tracks: Vec::new(),
        streaming_links: Vec::new(),
    };
    (card, Locators { card: Some(format!("z{id}")), artwork: None, external_play: vec![] })
}

#[test]
fn records_are_emitted_in_order_up_to_the_limit() {
    let cards = vec![
        card("a", CardKind::Album, true),
        card("b", CardKind::Album, false),
        card("c", CardKind::Artist, true),
        card("d", CardKind::Album, true),
    ];
    let mut filters: StrMap<Vec<String>> = StrMap::new();
    filters.insert("popular".to_string(), vec!["true".to_string()]);
    let out = emit(&cards, &filters, 2);
    let ids: Vec<&str> = out.iter().map(|r| r.record_id.as_str()).collect();
    assert_eq!(ids, vec!["musicbrainz:a", "musicbrainz:c"]);
    assert!(out[0].fields.contains_key("cids/za"));
    assert_eq!(out[1].fields.get("popular").map(String::as_str), Some("true"));
    assert_eq!(emit(&cards, &filters, 9).len(), 3);
    assert!(emit(&cards, &filters, 0).is_empty());
}

#[test]
fn an_outcome_has_the_record_of_the_album_or_else_of_the_artist() {
    let p = ready();
    let id = format!("musicbrainz:{RG}");
    let hash = Some("zCard".to_string());
    let album = Some(card(RG, CardKind::Album, true));
    let artist = Some(card(RG, CardKind::Artist, true));
    let kind = |album: &Option<(Card, Locators)>, artist: &Option<(Card, Locators)>| {
        let mut all = p.compute_outcomes(&id, &hash, album, artist).ok().expect("outcomes");
        assert_eq!(all.len(), 1);
        let o = all.remove(0);
        assert_eq!(o.hash, "zCard");
        assert_eq!(o.hash_kind, HashKind::CardLocator);
        assert!(o.bytes.is_none() && o.file_extension.is_none());
        o.record.map(|r| r.fields.get("contentKind").cloned().expect("kind"))
    };
    assert_eq!(kind(&album, &artist).as_deref(), Some("album"));
    assert_eq!(kind(&None, &artist).as_deref(), Some("artist"));
    assert_eq!(kind(&None, &None), None);
    let hidden = Some(card(RG, CardKind::Album, false));
    assert_eq!(kind(&hidden, &artist), None, "an album that is found decides");
    match p.compute_outcomes(&id, &None, &album, &artist) {
        Err(GatewayError::Permanent(reason)) => {
            assert_eq!(reason, format!("card id too long to encode: '{id}'"));
        }
        _ => panic!("too long"),
    }
}

#[test]
fn a_text_search_has_its_albums_before_its_artists() {
    let group = |id: &str| ReleaseGroup { id: id.into(), title: "T".into(), ..Default::default() };
    let artist = |id: &str| Artist { id: id.into(), name: "N".into(), ..Default::default() };
    let cover = || Some(Cover::ReleaseGroupFront { release_group_mbid: "rg".into() });
    let r = Resolver::new();
    let ids = |albums: &Vec<ReleaseGroup>, artists: &Vec<Artist>| -> Vec<String> {
        let covers = vec![cover(), None, cover()];
        cards_for_text(&r, albums, artists, &covers).into_iter().map(|c| c.mbid).collect()
    };
    let albums = vec![group("a"), group(""), group("b")];
    let artists = vec![artist("x"), artist("y"), artist("z")];
    assert_eq!(ids(&albums, &artists), vec!["a", "b", "x", "z"]);
    assert_eq!(ids(&Vec::new(), &artists), vec!["x", "z"]);
    assert_eq!(ids(&albums, &Vec::new()), vec!["a", "b"]);
}

#[test]
fn a_record_id_is_looked_up_as_an_album_and_only_then_as_an_artist() {
    let p = ready();
    let id = format!("musicbrainz:{RG}");
    let hash = Some("zCard".to_string());
    let unasked = || Asked::<(Card, Locators)>::NotYet;
    let missing = || Asked::<(Card, Locators)>::Answered(None);
    let found = || Asked::Answered(Some(card(RG, CardKind::Album, true)));
    assert_eq!(p.outcome_step(&id, &hash, &unasked(), &unasked()), OutcomeStep::Album);
    assert_eq!(p.outcome_step(&id, &hash, &found(), &unasked()), OutcomeStep::Done);
    assert_eq!(p.outcome_step(&id, &hash, &missing(), &unasked()), OutcomeStep::Artist);
    assert_eq!(p.outcome_step(&id, &hash, &missing(), &missing()), OutcomeStep::Done);
    assert_eq!(p.outcome_step(&id, &None, &unasked(), &unasked()), OutcomeStep::Done);
    assert_eq!(p.outcome_step("nosource", &hash, &unasked(), &unasked()), OutcomeStep::Done);
    let idle = MusicBrainzCardPlugin::new(MusicBrainzConfig::default());
    assert_eq!(idle.outcome_step(&id, &hash, &unasked(), &unasked()), OutcomeStep::Done);
}
