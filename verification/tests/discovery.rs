//! Browse queries and browse rows.
use musicbrainz_feeder::card::{CardKind, Cover};
use musicbrainz_feeder::client::{ReleaseGroup, Tag};
use musicbrainz_feeder::discovery::{
    browse_kind, browse_mode, browse_plan, cards_for_browse, genre_slug, is_browse_query,
    slug_to_tag, BrowseAnswer, BrowseMode, BrowsePlan, GatewayQuery,
};
use musicbrainz_feeder::listenbrainz::{PopularArtist, PopularWork};
use musicbrainz_feeder::resolve::Resolver;
use musicbrainz_feeder::strmap::StrMap;

fn q(raw: &str, filters: &[(&str, &str)]) -> GatewayQuery {
    let mut map: StrMap<Vec<String>> = StrMap::new();
    for (k, v) in filters {
        let mut values: Vec<String> = match map.get(k) {
            Some(values) => values.clone(),
            None => Vec::new(),
        };
        values.push(v.to_string());
        map.insert(k.to_string(), values);
    }
    GatewayQuery { free_text: raw.to_string(), filters: map }
}

#[test]
fn a_keywordless_mode_query_is_a_browse_query() {
    assert!(is_browse_query(&q(
        "",
        &[("popular", "true"), ("contentKind", "album")]
    )));
    assert!(is_browse_query(&q(
        "",
        &[("fresh", "true"), ("contentKind", "album")]
    )));
}

#[test]
fn free_text_excludes_the_browse_branch() {
    assert!(!is_browse_query(&q(
        "miles davis",
        &[("popular", "true"), ("contentKind", "album")]
    )));
}

#[test]
fn an_id_filter_excludes_the_browse_branch() {
    assert!(!is_browse_query(&q(
        "",
        &[
            ("popular", "true"),
            ("contentKind", "album"),
            ("mbReleaseGroupId", "rg-1")
        ]
    )));
    assert!(!is_browse_query(&q(
        "",
        &[("popular", "true"), ("mbArtistId", "a-1")]
    )));
}

#[test]
fn a_content_kind_alone_is_not_a_browse_query() {
    assert!(!is_browse_query(&q("", &[("contentKind", "album")])));
}

#[test]
fn video_content_kinds_do_not_resolve_to_a_music_kind() {
    assert_eq!(browse_kind(&q("", &[("contentKind", "series")])), None);
    assert_eq!(browse_kind(&q("", &[("contentKind", "movie")])), None);
    assert_eq!(
        browse_kind(&q("", &[("contentKind", "album")])),
        Some(CardKind::Album)
    );
    assert_eq!(
        browse_kind(&q("", &[("contentKind", "artist")])),
        Some(CardKind::Artist)
    );
}

#[test]
fn top_rated_is_not_a_mode() {
    assert!(!is_browse_query(&q(
        "",
        &[("top_rated", "true"), ("contentKind", "album")]
    )));
}

#[test]
fn mode_precedence_is_fresh_then_trending_then_popular() {
    let all = q(
        "",
        &[("popular", "true"), ("trending", "true"), ("fresh", "true")],
    );
    assert_eq!(browse_mode(&all), Some(BrowseMode::Fresh));
    let two = q("", &[("popular", "true"), ("trending", "true")]);
    assert_eq!(browse_mode(&two), Some(BrowseMode::Trending));
}

#[test]
fn a_genre_slug_maps_back_to_the_musicbrainz_tag() {
    assert_eq!(slug_to_tag("hip-hop"), "hip hop");
    assert_eq!(slug_to_tag("jazz"), "jazz");
    assert_eq!(slug_to_tag("drum-and-bass"), "drum and bass");
}

#[test]
fn genre_slug_is_read_from_the_filter() {
    assert_eq!(
        genre_slug(&q("", &[("genres", "Hip-Hop")])).as_deref(),
        Some("hip-hop")
    );
    assert_eq!(genre_slug(&q("", &[])), None);
}

// ---------------------------------------------------------------------------
// Edges
// ---------------------------------------------------------------------------

#[test]
fn a_mode_is_truthy_in_any_case_and_at_any_place() {
    assert_eq!(browse_mode(&q("", &[("popular", "TRUE")])), Some(BrowseMode::Popular));
    assert_eq!(
        browse_mode(&q("", &[("popular", "no"), ("popular", "True")])),
        Some(BrowseMode::Popular)
    );
    assert_eq!(browse_mode(&q("", &[("popular", " true")])), None);
    assert_eq!(browse_mode(&q("", &[("popular", "1")])), None);
    assert_eq!(BrowseMode::Popular.marker(), "popular");
    assert_eq!(BrowseMode::Trending.marker(), "trending");
    assert_eq!(BrowseMode::Fresh.marker(), "fresh");
}

#[test]
fn the_first_known_kind_and_the_first_genre_decide() {
    let two = q("", &[("contentKind", "movie"), ("contentKind", " Artist "), ("contentKind", "album")]);
    assert_eq!(browse_kind(&two), Some(CardKind::Artist));
    assert_eq!(genre_slug(&q("", &[("genres", "  "), ("genres", "jazz")])), None);
}

#[test]
fn a_browse_plan_follows_kind_mode_and_genre() {
    let plan = |filters: &[(&str, &str)], n: usize| browse_plan(&q("", filters), n);
    match plan(&[("popular", "true"), ("contentKind", "album"), ("genres", "Hip-Hop")], 20) {
        BrowsePlan::AlbumsByTag { tag, want } => {
            assert_eq!(tag, "hip hop");
            assert_eq!(want, 40);
        }
        _ => panic!("a genre row is a tag search"),
    }
    assert!(matches!(
        plan(&[("fresh", "true"), ("contentKind", "album")], 20),
        BrowsePlan::FreshAlbums { days: 30 }
    ));
    assert!(matches!(
        plan(&[("trending", "true"), ("contentKind", "album")], 0),
        BrowsePlan::PopularAlbums { range: "week", want: 1 }
    ));
    assert!(matches!(
        plan(&[("popular", "true"), ("contentKind", "album")], usize::MAX),
        BrowsePlan::PopularAlbums { range: "month", want: 100 }
    ));
    assert!(matches!(
        plan(&[("popular", "true"), ("contentKind", "artist"), ("genres", "jazz")], 50),
        BrowsePlan::PopularArtists { range: "month", want: 100 }
    ));
    assert!(matches!(
        plan(&[("trending", "true"), ("contentKind", "artist")], 20),
        BrowsePlan::PopularArtists { range: "week", want: 40 }
    ));
    assert!(matches!(
        plan(&[("fresh", "true"), ("contentKind", "artist")], 20),
        BrowsePlan::Nothing
    ));
    assert!(matches!(plan(&[("popular", "true")], 20), BrowsePlan::Nothing));
    assert!(matches!(plan(&[("contentKind", "album")], 20), BrowsePlan::Nothing));
}

fn work(id: &str) -> PopularWork {
    PopularWork {
        release_group_mbid: id.into(),
        title: "T".into(),
        artist_name: "A".into(),
        artist_mbid: None,
        caa: None,
        release_date: None,
    }
}

#[test]
fn a_row_holds_no_more_cards_than_asked_for() {
    let r = Resolver::new();
    let works = BrowseAnswer::Works(vec![work("a"), work(""), work("b"), work("c")]);
    let ids = |answer: &BrowseAnswer, n: usize| -> Vec<String> {
        cards_for_browse(&r, answer, n).into_iter().map(|c| c.mbid).collect()
    };
    assert_eq!(ids(&works, 2), vec!["a", "b"]);
    assert_eq!(ids(&works, 0), Vec::<String>::new());
    let groups = BrowseAnswer::Groups(vec![ReleaseGroup {
        id: "g".into(),
        title: "G".into(),
        tags: vec![Tag { name: "jazz".into(), count: 1 }],
        ..Default::default()
    }]);
    assert_eq!(ids(&groups, 9), vec!["g"]);
    assert!(cards_for_browse(&r, &BrowseAnswer::Nothing, 9).is_empty());
}

#[test]
fn a_row_of_artists_holds_those_with_a_cover() {
    let r = Resolver::new();
    let artist = |id: &str| PopularArtist { artist_mbid: id.into(), name: "N".into() };
    let cover = || Some(Cover::ReleaseGroupFront { release_group_mbid: "rg".into() });
    let answer = BrowseAnswer::Artists(
        vec![artist("a"), artist("b"), artist("c"), artist("d")],
        vec![cover(), None, cover(), cover()],
    );
    let ids: Vec<String> =
        cards_for_browse(&r, &answer, 3).into_iter().map(|c| c.mbid).collect();
    assert_eq!(ids, vec!["a", "c"], "only the first three are looked at");
}
