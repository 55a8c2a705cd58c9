//! Credits, dates, ranking, requests and responses.
use musicbrainz_feeder::client::{
    accept_artist, accept_release_group, api_base, artist, artist_names, artist_names_path,
    artist_path, artist_search_path, artist_url_relations, artist_url_relations_path,
    choose_release, clamp, musicbrainz_reply, normalise_date, primary_artist, rank_release_groups,
    read_artist_names, read_artist_url_relations, release_group, release_group_path,
    release_group_search_path, release_groups_by_artist, release_groups_by_artist_path,
    release_groups_by_tag, release_groups_by_tag_path, render_credit, request_url, search_artists,
    search_release_groups, settle, settle_artist, settle_artist_names, settle_artist_url_relations,
    settle_ranked, settle_release_group, settle_tracklist, tracklist, tracklist_path, urlencode,
    year_of, Artist, ArtistCredit, Asked, CreditedArtist, Medium, Release, ReleaseGroup, Reply,
    Step, Track,
};
use musicbrainz_feeder::consts::{
    KEPT_ARTISTS, KEPT_ARTIST_NAMES, KEPT_ARTIST_RELATIONS, KEPT_BY_ARTIST, KEPT_BY_TAG,
    KEPT_RELEASE_GROUPS,
};

#[test]
fn credit_rendering_honours_join_phrases() {
    let credits = vec![
        ArtistCredit {
            name: "Miles Davis".into(),
            joinphrase: " feat. ".into(),
            artist: Some(CreditedArtist {
                id: "561d854a-6a28-4aa7-8c99-323e6ce46c2a".into(),
                name: "Miles Davis".into(),
            }),
        },
        ArtistCredit {
            name: "John Coltrane".into(),
            joinphrase: String::new(),
            artist: Some(CreditedArtist {
                id: "b625448e-bf4a-41c3-a421-72ad46cdb831".into(),
                name: "John Coltrane".into(),
            }),
        },
    ];
    assert_eq!(render_credit(&credits), "Miles Davis feat. John Coltrane");
    assert_eq!(
        primary_artist(&credits).map(|a| a.name.as_str()),
        Some("Miles Davis")
    );
}

#[test]
fn primary_artist_skips_credits_with_no_mbid() {
    let credits = vec![
        ArtistCredit {
            name: "Various Artists".into(),
            joinphrase: String::new(),
            artist: None,
        },
        ArtistCredit {
            name: "Real Artist".into(),
            joinphrase: String::new(),
            artist: Some(CreditedArtist {
                id: "abc".into(),
                name: "Real Artist".into(),
            }),
        },
    ];
    assert_eq!(primary_artist(&credits).map(|a| a.id.as_str()), Some("abc"));
}

#[test]
fn dates_are_completed_not_dropped() {
    assert_eq!(normalise_date("1959").as_deref(), Some("1959-01-01"));
    assert_eq!(normalise_date("1959-08").as_deref(), Some("1959-08-01"));
    assert_eq!(normalise_date("1959-08-17").as_deref(), Some("1959-08-17"));
    assert_eq!(normalise_date(""), None);
    // "garbage" is seven characters, exactly the width of `YYYY-MM`.
    assert_eq!(normalise_date("garbage"), None);
    assert_eq!(normalise_date("19xx"), None);
    assert_eq!(normalise_date("1959-ab"), None);
    assert_eq!(normalise_date("1959-08-1x"), None);
    assert_eq!(normalise_date("1959-8-17"), None, "segments are fixed-width");
    assert_eq!(year_of("1959-08-17"), Some(1959));
    assert_eq!(year_of("19"), None);
}

fn rg(id: &str, score: i32, count: u32) -> ReleaseGroup {
    ReleaseGroup {
        id: id.to_string(),
        title: "Kind of Blue".to_string(),
        score,
        count,
        ..Default::default()
    }
}

fn ids(groups: &[ReleaseGroup]) -> Vec<&str> {
    groups.iter().map(|r| r.id.as_str()).collect()
}

#[test]
fn release_count_breaks_a_saturated_score_tie() {
    let hits = vec![
        rg("swiss", 100, 1),
        rg("tq", 100, 1),
        rg("oyama", 100, 1),
        rg("hellberg", 100, 1),
        rg("various", 100, 1),
        rg("miles", 100, 135),
    ];
    let ranked = rank_release_groups(hits);
    assert_eq!(ranked[0].id, "miles", "the 135-release work must lead");
}

#[test]
fn score_outranks_release_count_across_bands() {
    let ranked = rank_release_groups(vec![rg("loose", 89, 500), rg("exact", 100, 2)]);
    assert_eq!(ranked[0].id, "exact");
}

#[test]
fn ranking_is_deterministic_for_identical_hits() {
    let a = rank_release_groups(vec![rg("bbb", 100, 1), rg("aaa", 100, 1)]);
    let b = rank_release_groups(vec![rg("aaa", 100, 1), rg("bbb", 100, 1)]);
    assert_eq!(
        a.iter().map(|r| r.id.as_str()).collect::<Vec<_>>(),
        b.iter().map(|r| r.id.as_str()).collect::<Vec<_>>()
    );
}

#[test]
fn urlencode_escapes_lucene_metacharacters() {
    assert_eq!(urlencode("Re:ZERO"), "Re%3AZERO");
    assert_eq!(urlencode("kind of blue"), "kind%20of%20blue");
    assert_eq!(urlencode("!!!"), "%21%21%21");
    assert_eq!(urlencode("safe-Chars_1.0~"), "safe-Chars_1.0~");
}

// ---------------------------------------------------------------------------
// Credits and dates
// ---------------------------------------------------------------------------

#[test]
fn a_rendered_credit_is_trimmed() {
    let credits = vec![ArtistCredit {
        name: "  Sun Ra".into(),
        joinphrase: " & ".into(),
        artist: None,
    }];
    assert_eq!(render_credit(&credits), "Sun Ra &");
    assert_eq!(render_credit(&[]), "");
    assert!(primary_artist(&credits).is_none());
    let unidentified = vec![ArtistCredit {
        artist: Some(CreditedArtist { id: String::new(), name: "X".into() }),
        ..Default::default()
    }];
    assert!(primary_artist(&unidentified).is_none());
}

#[test]
fn completing_a_date_twice_changes_nothing() {
    for raw in ["1959", " 1959-08 ", "1959-08-17\n"] {
        let once = normalise_date(raw).expect("date");
        assert_eq!(once.len(), 10);
        assert!(once.starts_with(raw.trim()));
        assert_eq!(normalise_date(&once).as_deref(), Some(once.as_str()));
    }
    assert_eq!(normalise_date("１９５９"), None, "only ASCII digits are digits");
    assert_eq!(normalise_date("1959-08-17T"), None);
    assert_eq!(normalise_date("1959/08"), None);
}

#[test]
fn a_year_is_the_first_four_characters_as_a_number() {
    assert_eq!(year_of(" 1959 "), Some(1959));
    assert_eq!(year_of("1959-08"), Some(1959));
    assert_eq!(year_of("19xx"), None);
    assert_eq!(year_of("+195"), Some(195));
    assert_eq!(year_of("é959"), None);
    assert_eq!(year_of(""), None);
}

// ---------------------------------------------------------------------------
// Ranking
// ---------------------------------------------------------------------------

#[test]
fn hits_are_ordered_by_score_then_releases_then_id() {
    let ranked = rank_release_groups(vec![
        rg("d", 90, 9),
        rg("c", 100, 2),
        rg("b", 100, 3),
        rg("a", 100, 2),
        rg("e", -5, 100),
    ]);
    assert_eq!(ids(&ranked), vec!["b", "a", "c", "d", "e"]);
}

#[test]
fn ranking_twice_changes_nothing() {
    let once = rank_release_groups(vec![rg("d", 90, 9), rg("c", 100, 2), rg("a", 100, 2)]);
    let first: Vec<String> = once.iter().map(|g| g.id.clone()).collect();
    assert_eq!(ids(&rank_release_groups(once)), first);
    assert_eq!(first, vec!["a", "c", "d"]);
}

#[test]
fn equal_hits_stay_in_the_order_they_came() {
    let mut first = rg("x", 1, 1);
    first.title = "first".into();
    let mut second = rg("x", 1, 1);
    second.title = "second".into();
    let ranked = rank_release_groups(vec![first, second]);
    assert_eq!(ranked[0].title, "first");
    assert_eq!(ranked[1].title, "second");
}

#[test]
fn a_settled_search_is_ranked_and_kept_unless_empty() {
    let settled = settle_ranked(Some(vec![rg("a", 1, 1), rg("b", 2, 1)]), 1);
    assert_eq!(settled.to_keep().map(|hits| ids(hits)), Some(vec!["b", "a"]));
    assert_eq!(ids(&settled.page()), vec!["b"]);
    let none = settle_ranked(Some(Vec::new()), 5);
    assert!(none.to_keep().is_none());
    assert!(none.page().is_empty());
    let plain = settle(Some(vec![1, 3, 2]), 10);
    assert_eq!(plain.to_keep(), Some(&vec![1, 3, 2]));
    assert_eq!(plain.page(), vec![1, 3, 2]);
    assert!(settle::<u8>(Some(Vec::new()), 1).to_keep().is_none());
}

#[test]
fn a_search_without_an_answer_shows_and_keeps_nothing() {
    let ranked = settle_ranked(None, 5);
    assert!(ranked.to_keep().is_none());
    assert!(ranked.page().is_empty());
    let plain = settle::<u8>(None, 5);
    assert!(plain.to_keep().is_none());
    assert!(plain.page().is_empty());
}

#[test]
fn a_later_search_shows_what_the_first_one_kept() {
    let first = settle_ranked(Some(vec![rg("a", 1, 1), rg("b", 2, 1), rg("c", 3, 1)]), 1);
    let kept = first.to_keep().cloned();
    assert_eq!(ids(&first.page()), vec!["c"]);
    match search_release_groups(kept, "x", 2) {
        Step::Done(page) => assert_eq!(ids(&page), vec!["c", "b"]),
        Step::Ask(_) => panic!("asked before"),
    }
}

// ---------------------------------------------------------------------------
// Requests
// ---------------------------------------------------------------------------

#[test]
fn escaped_text_is_safe_and_lossless() {
    let text = "Ænima (live) \"a&b=c\" #1/2?+%";
    let out = urlencode(text);
    assert_eq!(out, "%C3%86nima%20%28live%29%20%22a%26b%3Dc%22%20%231%2F2%3F%2B%25");
    assert!(out.chars().all(|c| c.is_ascii_alphanumeric() || "-_.~%".contains(c)));
    assert_ne!(urlencode("%20"), urlencode(" "));
}

#[test]
fn request_addresses_have_one_slash_between_base_and_path() {
    let base = api_base("https://musicbrainz.org/ws/2//");
    assert_eq!(base, "https://musicbrainz.org/ws/2");
    assert_eq!(request_url(&base, "//artist/x"), "https://musicbrainz.org/ws/2/artist/x");
    assert_eq!(request_url(&base, "artist/x"), "https://musicbrainz.org/ws/2/artist/x");
}

#[test]
fn searches_ask_for_more_than_is_wanted() {
    assert_eq!(
        release_group_search_path("kind of blue", 10),
        "release-group?query=kind%20of%20blue&fmt=json&limit=40"
    );
    assert!(release_group_search_path("x", 1).ends_with("&limit=25"));
    assert!(release_group_search_path("x", 1000).ends_with("&limit=100"));
    assert_eq!(
        release_groups_by_tag_path("hip hop", 20),
        "release-group?query=tag%3Ahip%20hop%20AND%20primarytype%3AAlbum&fmt=json&limit=60"
    );
    assert_eq!(artist_search_path("miles", 0), "artist?query=miles&fmt=json&limit=1");
    assert!(artist_search_path("miles", 101).ends_with("&limit=100"));
    assert_eq!(clamp(7, 1, 5), 5);
}

#[test]
fn what_was_kept_is_the_answer() {
    match search_release_groups(Some(vec![rg("a", 1, 1), rg("b", 9, 9)]), "x", 1) {
        Step::Done(page) => assert_eq!(ids(&page), vec!["a"], "kept hits are ranked already"),
        Step::Ask(_) => panic!("kept"),
    }
    let asked = |step: Step<Vec<ReleaseGroup>>| match step {
        Step::Ask(path) => path,
        Step::Done(_) => panic!("nothing kept"),
    };
    assert_eq!(
        asked(search_release_groups(None, "x", 10)),
        "release-group?query=x&fmt=json&limit=40"
    );
    assert_eq!(
        asked(release_groups_by_tag(None, "jazz", 40)),
        "release-group?query=tag%3Ajazz%20AND%20primarytype%3AAlbum&fmt=json&limit=100"
    );
    assert_eq!(
        asked(release_groups_by_artist(None, "a", 5)),
        "release-group?artist=a&fmt=json&limit=5"
    );
    assert!(matches!(
        search_artists(Some(Vec::new()), "x", 3),
        Step::Done(page) if page.is_empty()
    ));
    assert!(matches!(search_artists(None, "x", 3), Step::Ask(_)));
    assert!(matches!(release_group(Some(rg("a", 0, 0)), "z"), Step::Done(g) if g.id == "a"));
    assert!(matches!(
        release_group(None, "z"),
        Step::Ask(p) if p == "release-group/z?fmt=json&inc=artist-credits+genres"
    ));
    assert!(matches!(artist(None, "z"), Step::Ask(p) if p == "artist/z?fmt=json&inc=genres"));
    assert!(matches!(artist(Some(Artist::default()), "z"), Step::Done(_)));
    assert!(matches!(tracklist(Some(Release::default()), "z"), Step::Done(_)));
    assert!(matches!(tracklist(None, "z"), Step::Ask(_)));
    let names = vec!["A".to_string(), "B".to_string()];
    assert!(matches!(artist_names(Some(names.clone()), "z"), Step::Done(n) if n == names));
    assert!(matches!(
        artist_names(None, "a/z"),
        Step::Ask(p) if p == "artist/a%2Fz?fmt=json&inc=aliases"
    ));
    let relations = vec![("youtube".to_string(), "https://y".to_string())];
    assert!(matches!(
        artist_url_relations(Some(relations.clone()), "z"),
        Step::Done(r) if r == relations
    ));
    assert!(matches!(artist_url_relations(Some(Vec::new()), "z"), Step::Done(r) if r.is_empty()));
    assert!(matches!(
        artist_url_relations(None, "a/z"),
        Step::Ask(p) if p == "artist/a%2Fz?fmt=json&inc=url-rels"
    ));
}

#[test]
fn lookups_escape_the_id() {
    assert_eq!(
        release_group_path("a/b"),
        "release-group/a%2Fb?fmt=json&inc=artist-credits+genres"
    );
    assert_eq!(artist_path("x"), "artist/x?fmt=json&inc=genres");
    assert_eq!(artist_names_path("x"), "artist/x?fmt=json&inc=aliases");
    assert_eq!(artist_url_relations_path("x"), "artist/x?fmt=json&inc=url-rels");
    assert_eq!(
        tracklist_path("x"),
        "release?release-group=x&fmt=json&inc=recordings+artist-credits+isrcs+labels&limit=5"
    );
    assert_eq!(
        release_groups_by_artist_path("x y", 300),
        "release-group?artist=x%20y&fmt=json&limit=100"
    );
}

// ---------------------------------------------------------------------------
// Responses
// ---------------------------------------------------------------------------

#[test]
fn a_throttled_client_always_pauses() {
    let header = |s: &str| Some(s.to_string());
    assert_eq!(musicbrainz_reply(503, &None), Reply::Pause(2));
    assert_eq!(musicbrainz_reply(503, &header("0")), Reply::Pause(2));
    assert_eq!(musicbrainz_reply(429, &header("7")), Reply::Pause(7));
    assert_eq!(musicbrainz_reply(429, &header("soon")), Reply::Pause(2));
    assert_eq!(
        musicbrainz_reply(503, &header("18446744073709551615")),
        Reply::Pause(u64::MAX)
    );
    assert_eq!(musicbrainz_reply(503, &header("18446744073709551616")), Reply::Pause(2));
    assert_eq!(musicbrainz_reply(200, &None), Reply::Read);
    assert_eq!(musicbrainz_reply(299, &header("7")), Reply::Read);
    assert_eq!(musicbrainz_reply(199, &None), Reply::Fail);
    assert_eq!(musicbrainz_reply(300, &None), Reply::Fail);
    assert_eq!(musicbrainz_reply(500, &None), Reply::Fail);
}

#[test]
fn an_entity_without_an_id_is_no_entity() {
    assert!(accept_release_group(ReleaseGroup::default()).is_none());
    assert_eq!(accept_release_group(rg("a", 0, 0)).expect("group").id, "a");
    assert!(accept_artist(Artist::default()).is_none());
    let artist = Artist { id: "a".into(), ..Default::default() };
    assert_eq!(accept_artist(artist).expect("artist").id, "a");
}

#[test]
fn the_canonical_release_is_the_first_with_tracks() {
    let bare = |id: &str| Release { id: id.into(), ..Default::default() };
    let full = |id: &str| Release {
        id: id.into(),
        media: vec![
            Medium::default(),
            Medium { tracks: vec![Track::default()], ..Default::default() },
        ],
        ..Default::default()
    };
    let chosen = choose_release(vec![bare("a"), full("b"), full("c")]);
    assert_eq!(chosen.expect("release").id, "b");
    assert!(choose_release(vec![bare("a")]).is_none());
    assert!(choose_release(Vec::new()).is_none());
}

#[test]
fn artist_names_are_distinct_but_for_case() {
    let names = |body: &str| -> Option<Vec<String>> { read_artist_names(body) };
    let body = r#"{
        "name": "植松伸夫", "sort-name": " Uematsu, Nobuo ",
        "aliases": [{"name": "Nobuo Uematsu"}, {"name": "NOBUO UEMATSU"}, {"name": "  "},
                    {"other": 1}, {"name": 5}, 3]
    }"#;
    assert_eq!(
        names(body),
        Some(vec!["植松伸夫".into(), "Uematsu, Nobuo".into(), "Nobuo Uematsu".into()])
    );
    assert_eq!(names("not json"), None);
    assert_eq!(names("[]"), Some(Vec::new()));
    assert_eq!(names(r#"{"name": "A", "aliases": {}}"#), Some(vec!["A".into()]));
}

#[test]
fn no_answer_is_not_the_same_as_no_relations() {
    assert_eq!(read_artist_url_relations("not json"), None);
    assert_eq!(read_artist_url_relations(r#"{"relations": 1}"#), None);
    assert_eq!(read_artist_url_relations("{}"), None);
    assert_eq!(read_artist_url_relations(r#"{"relations": []}"#), Some(Vec::new()));
    let body = r#"{"relations": [
        {"type": "streaming", "url": {"resource": "https://a"}},
        {"type": "streaming"},
        {"url": {"resource": "https://b"}},
        {"type": 1, "url": {"resource": "https://c"}},
        {"type": "youtube", "url": {"resource": "https://d"}}
    ]}"#;
    assert_eq!(
        read_artist_url_relations(body),
        Some(vec![
            ("streaming".to_string(), "https://a".to_string()),
            ("youtube".to_string(), "https://d".to_string()),
        ])
    );
}

#[test]
fn what_a_lookup_found_is_given_and_kept() {
    let found = settle_release_group(Some(rg("a", 0, 0)));
    assert_eq!(found.to_keep().map(|g| g.id.as_str()), Some("a"));
    assert_eq!(found.answer().map(|g| g.id).as_deref(), Some("a"));
    for nothing in [None, Some(ReleaseGroup::default())] {
        let found = settle_release_group(nothing);
        assert!(found.to_keep().is_none());
        assert!(found.answer().is_none());
    }
    let named = Artist { id: "x".into(), ..Default::default() };
    let found = settle_artist(Some(named));
    assert_eq!(found.to_keep().map(|a| a.id.as_str()), Some("x"));
    assert!(settle_artist(Some(Artist::default())).to_keep().is_none());
    assert!(settle_artist(None).answer().is_none());
    let full = Release {
        id: "r".into(),
        media: vec![Medium { tracks: vec![Track::default()], ..Default::default() }],
        ..Default::default()
    };
    let found = settle_tracklist(Some(vec![Release::default(), full]));
    assert_eq!(found.to_keep().map(|r| r.id.as_str()), Some("r"));
    assert_eq!(found.answer().map(|r| r.id).as_deref(), Some("r"));
    assert!(settle_tracklist(Some(vec![Release::default()])).to_keep().is_none());
    assert!(settle_tracklist(None).to_keep().is_none());
}

#[test]
fn relations_and_names_are_looked_up_once() {
    let body = r#"{"name": "N", "relations": [{"type": "t", "url": {"resource": "https://a"}}]}"#;
    let relations = vec![("t".to_string(), "https://a".to_string())];
    let first = settle_artist_url_relations(&Some(body.to_string()));
    let kept = first.to_keep().cloned();
    assert_eq!(first.answer(), Some(relations.clone()));
    assert!(matches!(artist_url_relations(kept, "x"), Step::Done(r) if r == relations));
    let none = settle_artist_url_relations(&Some(r#"{"relations": []}"#.to_string()));
    let kept = none.to_keep().cloned();
    assert_eq!(kept, Some(Vec::new()), "an artist without any is an answer");
    assert!(matches!(artist_url_relations(kept, "x"), Step::Done(r) if r.is_empty()));
    for body in [None, Some("not json".to_string()), Some("{}".to_string())] {
        let unanswered = settle_artist_url_relations(&body);
        let kept = unanswered.to_keep().cloned();
        assert_eq!(unanswered.answer(), None);
        assert!(matches!(artist_url_relations(kept, "x"), Step::Ask(_)));
    }
    let names = settle_artist_names(&Some(body.to_string()));
    let kept = names.to_keep().cloned();
    assert_eq!(names.answer(), Some(vec!["N".to_string()]));
    assert!(matches!(artist_names(kept, "x"), Step::Done(n) if n == vec!["N".to_string()]));
    for body in [None, Some("not json".to_string()), Some("{}".to_string())] {
        let unanswered = settle_artist_names(&body);
        assert!(unanswered.to_keep().is_none());
        assert_eq!(unanswered.answer(), None);
    }
}

#[test]
fn only_an_answer_is_in_hand() {
    assert_eq!(Asked::<u8>::NotYet.in_hand(), None);
    assert_eq!(Asked::<u8>::Answered(None).in_hand(), None);
    assert_eq!(Asked::Answered(Some(3)).in_hand(), Some(3));
}

#[test]
fn every_kind_of_answer_is_kept_in_its_own_place() {
    let places = [
        KEPT_RELEASE_GROUPS,
        KEPT_BY_TAG,
        KEPT_ARTISTS,
        KEPT_BY_ARTIST,
        KEPT_ARTIST_NAMES,
        KEPT_ARTIST_RELATIONS,
    ];
    for (i, place) in places.iter().enumerate() {
        assert!(!places[..i].contains(place));
    }
    assert_eq!(KEPT_RELEASE_GROUPS, "release-group");
    assert_eq!(KEPT_BY_ARTIST, "rg-by-artist");
}
