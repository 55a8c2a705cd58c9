//! The ListenBrainz feeds.
use musicbrainz_feeder::client::Reply;
use musicbrainz_feeder::json::Json;
use musicbrainz_feeder::listenbrainz::{
    fresh_releases, fresh_releases_path, listenbrainz_reply, parse_artists, parse_works,
    payload_array, pick_str, popular_artists, popular_artists_path, popular_release_groups,
    popular_release_groups_path,
};

fn json(text: &str) -> Json {
    Json::parse(text).expect("json")
}

#[test]
fn parses_the_sitewide_release_groups_shape() {
    let v = json(
        r#"{"payload": {"release_groups": [{
        "release_group_mbid": "rg-1",
        "release_group_name": "Kind of Blue",
        "artist_name": "Miles Davis",
        "artist_mbids": ["artist-1"],
        "caa_id": 12345,
        "caa_release_mbid": "rel-1",
        "listen_count": 900
    }]}}"#,
    );
    let got = parse_works(&v, "release_groups");
    assert_eq!(got.len(), 1);
    assert_eq!(got[0].release_group_mbid, "rg-1");
    assert_eq!(got[0].title, "Kind of Blue");
    assert_eq!(got[0].artist_mbid.as_deref(), Some("artist-1"));
    assert_eq!(got[0].caa, Some(("rel-1".to_string(), 12345)));
}

#[test]
fn parses_the_fresh_releases_shape() {
    let v = json(
        r#"{"payload": {"releases": [{
        "release_group_mbid": "rg-2",
        "release_name": "New Thing",
        "artist_credit_name": "Somebody",
        "release_date": "2026-08-01"
    }]}}"#,
    );
    let got = parse_works(&v, "releases");
    assert_eq!(got.len(), 1);
    assert_eq!(got[0].artist_name, "Somebody");
    assert_eq!(got[0].release_date.as_deref(), Some("2026-08-01"));
    assert!(got[0].caa.is_none(), "no caa fields ⇒ no resolved cover");
}

#[test]
fn a_bad_entry_is_skipped_not_fatal() {
    let v = json(
        r#"{"payload": {"release_groups": [
        {"nothing": "useful"},
        {"release_group_mbid": "rg-ok", "release_group_name": "Fine", "artist_name": "A"}
    ]}}"#,
    );
    let got = parse_works(&v, "release_groups");
    assert_eq!(got.len(), 1);
    assert_eq!(got[0].release_group_mbid, "rg-ok");
}

#[test]
fn works_are_deduplicated_by_release_group() {
    let v = json(
        r#"{"payload": {"releases": [
        {"release_group_mbid": "rg-3", "release_name": "Album", "artist_credit_name": "A"},
        {"release_group_mbid": "rg-3", "release_name": "Album (Deluxe)", "artist_credit_name": "A"}
    ]}}"#,
    );
    assert_eq!(parse_works(&v, "releases").len(), 1);
}

#[test]
fn tolerates_an_unwrapped_payload() {
    let unwrapped = json(
        r#"{"release_groups": [
        {"release_group_mbid": "rg-4", "release_group_name": "T", "artist_name": "A"}
    ]}"#,
    );
    assert_eq!(parse_works(&unwrapped, "release_groups").len(), 1);

    let bare = json(
        r#"[{"release_group_mbid": "rg-5", "release_group_name": "T", "artist_name": "A"}]"#,
    );
    assert_eq!(parse_works(&bare, "release_groups").len(), 1);
}

#[test]
fn parses_artists_and_skips_mbid_less_entries() {
    let v = json(
        r#"{"payload": {"artists": [
        {"artist_name": "No MBID"},
        {"artist_name": "Real", "artist_mbid": "a-1"}
    ]}}"#,
    );
    let got = parse_artists(&v);
    assert_eq!(got.len(), 1);
    assert_eq!(got[0].name, "Real");
}

#[test]
fn an_unrecognised_payload_is_empty_not_fatal() {
    let v = json(r#"{"payload": {"something_else": 1}}"#);
    assert!(parse_works(&v, "release_groups").is_empty());
    assert!(parse_artists(&v).is_empty());
}

// ---------------------------------------------------------------------------
// Edges
// ---------------------------------------------------------------------------

#[test]
fn the_first_string_field_decides_even_where_it_is_blank() {
    let v = json(r#"{"a": 1, "b": "  ", "c": " x "}"#);
    assert_eq!(pick_str(&v, &["a", "c"]), Some("x"));
    assert_eq!(pick_str(&v, &["b", "c"]), None);
    assert_eq!(pick_str(&v, &["missing"]), None);
    assert_eq!(pick_str(&v, &[]), None);
}

#[test]
fn the_wrapped_payload_goes_first() {
    let v = json(r#"{"payload": {"k": [1]}, "k": [1, 2]}"#);
    assert_eq!(payload_array(&v, "k").map(|a| a.len()), Some(1));
    let v = json(r#"{"payload": {"k": "no"}, "k": [1, 2]}"#);
    assert_eq!(payload_array(&v, "k").map(|a| a.len()), Some(2));
    assert!(payload_array(&json("{}"), "k").is_none());
    assert!(payload_array(&json("null"), "k").is_none());
}

#[test]
fn an_artist_id_is_read_from_the_field_or_the_list() {
    let v = json(
        r#"[
        {"release_group_mbid": "a", "title": "T", "artist_mbid": " x ", "artist_mbids": ["y"]},
        {"release_group_mbid": "b", "title": "T", "artist_mbid": "", "artist_mbids": ["y"]},
        {"release_group_mbid": "c", "title": "T", "artist_mbids": [""]},
        {"release_group_mbid": "d", "title": "T", "artist_mbids": []},
        {"release_group_mbid": "e", "title": "T", "artist_mbids": [7]}
    ]"#,
    );
    let got: Vec<Option<String>> =
        parse_works(&v, "k").into_iter().map(|w| w.artist_mbid).collect();
    assert_eq!(got, vec![Some("x".to_string()), Some("y".to_string()), None, None, None]);
}

#[test]
fn a_cover_needs_both_its_release_and_its_integer_id() {
    let v = json(
        r#"[
        {"release_group_id": "a", "name": "T", "caa_id": -3, "caa_release_mbid": "rel"},
        {"release_group_id": "b", "name": "T", "caa_id": 1.5, "caa_release_mbid": "rel"},
        {"release_group_id": "c", "name": "T", "caa_id": 9223372036854775808, "caa_release_mbid": "rel"},
        {"release_group_id": "d", "name": "T", "caa_id": 1},
        {"release_group_id": "e", "name": "T", "caa_id": "1", "caa_release_mbid": "rel"}
    ]"#,
    );
    let got: Vec<Option<(String, i64)>> =
        parse_works(&v, "k").into_iter().map(|w| w.caa).collect();
    assert_eq!(got, vec![Some(("rel".to_string(), -3)), None, None, None, None]);
}

#[test]
fn the_first_entry_of_a_work_is_the_one_kept() {
    let v = json(
        r#"[
        {"release_group_mbid": "b", "title": "B"},
        {"release_group_mbid": "a", "title": "first"},
        {"release_group_mbid": "a", "title": "second"},
        {"release_group_mbid": "b", "title": "again"}
    ]"#,
    );
    let got: Vec<String> = parse_works(&v, "k").into_iter().map(|w| w.title).collect();
    assert_eq!(got, vec!["B", "first"]);
    let v = json(
        r#"{"artists": [
        {"artist_mbids": ["x"], "name": "one"},
        {"artist_mbid": "x", "artist_name": "two"},
        {"artist_mbid": "y"}
    ]}"#,
    );
    let got: Vec<String> = parse_artists(&v).into_iter().map(|a| a.name).collect();
    assert_eq!(got, vec!["one"]);
}

#[test]
fn an_artist_with_an_empty_listed_id_is_skipped() {
    let v = json(
        r#"{"artists": [
        {"artist_mbids": [""], "name": "empty"},
        {"artist_mbids": [], "name": "none"},
        {"artist_mbids": ["", "x"], "name": "behind"},
        {"artist_mbid": "", "artist_mbids": ["y"], "name": "listed"},
        {"artist_mbids": ["z"], "name": "kept"}
    ]}"#,
    );
    let got: Vec<(String, String)> =
        parse_artists(&v).into_iter().map(|a| (a.artist_mbid, a.name)).collect();
    assert_eq!(
        got,
        vec![("y".to_string(), "listed".to_string()), ("z".to_string(), "kept".to_string())]
    );
}

#[test]
fn bodies_are_read_under_the_key_of_their_endpoint() {
    let groups = r#"{"payload": {"release_groups": [{"release_group_mbid": "a", "title": "T"}]}}"#;
    assert_eq!(popular_release_groups(groups).len(), 1);
    assert!(fresh_releases(groups).is_empty());
    let fresh = r#"{"payload": {"releases": [{"release_group_mbid": "a", "title": "T"}]}}"#;
    assert_eq!(fresh_releases(fresh).len(), 1);
    let artists = r#"{"payload": {"artists": [{"artist_mbid": "a", "name": "N"}]}}"#;
    assert_eq!(popular_artists(artists).len(), 1);
    for body in ["", "{", "nonsense"] {
        assert!(popular_release_groups(body).is_empty());
        assert!(fresh_releases(body).is_empty());
        assert!(popular_artists(body).is_empty());
    }
}

#[test]
fn feeds_are_asked_for_within_bounds() {
    assert_eq!(
        popular_release_groups_path("month", 40),
        "stats/sitewide/release-groups?range=month&count=40"
    );
    assert!(popular_release_groups_path("week", 0).ends_with("count=1"));
    assert!(popular_release_groups_path("month", 1000).ends_with("count=100"));
    assert_eq!(popular_artists_path("month", 7), "stats/sitewide/artists?range=month&count=7");
    assert_eq!(popular_artists_path("week", 7), "stats/sitewide/artists?range=week&count=7");
    assert_eq!(
        fresh_releases_path(30),
        "explore/fresh-releases?days=30&sort=release_date&past=true&future=false"
    );
    assert!(fresh_releases_path(0).contains("days=1&"));
    assert!(fresh_releases_path(365).contains("days=90&"));
}

#[test]
fn only_a_429_pauses_the_feed_and_for_as_long_as_it_says() {
    assert_eq!(listenbrainz_reply(429, &None), Reply::Pause(2));
    assert_eq!(listenbrainz_reply(429, &Some("0".to_string())), Reply::Pause(0));
    assert_eq!(listenbrainz_reply(429, &Some("9".to_string())), Reply::Pause(9));
    assert_eq!(listenbrainz_reply(503, &Some("9".to_string())), Reply::Fail);
    assert_eq!(listenbrainz_reply(204, &None), Reply::Read);
    assert_eq!(listenbrainz_reply(404, &None), Reply::Fail);
}

#[test]
fn documents_are_read_as_serde_json_reads_them() {
    let v = json(r#"{"n": null, "t": true, "i": -5, "u": 18446744073709551615, "s": "éA",
                     "d": 1, "d": 2, "l": [[], {}]}"#);
    assert!(matches!(v.get("n"), Some(Json::Null)));
    assert!(matches!(v.get("t"), Some(Json::Bool(true))));
    assert_eq!(v.get("i").and_then(Json::as_i64), Some(-5));
    assert_eq!(v.get("u").and_then(Json::as_i64), None);
    assert_eq!(v.str_of("s"), Some("éA"));
    assert_eq!(v.get("d").and_then(Json::as_i64), Some(2), "the last of two members stands");
    assert_eq!(v.array_of("l").map(|l| l.len()), Some(2));
    assert!(v.get("missing").is_none());
    assert!(v.as_array().is_none());
    assert!(v.as_str().is_none());
    assert!(Json::parse("{} {}").is_none());
    assert!(Json::parse("").is_none());
}
