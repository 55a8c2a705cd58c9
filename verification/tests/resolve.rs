//! Genre names and the cards made of upstream answers.
use musicbrainz_feeder::card::{Card, CardKind, Cover};
use musicbrainz_feeder::client::{
    Artist, ArtistCredit, Asked, CreditedArtist, Medium, Release, ReleaseGroup, Tag, Track,
};
use musicbrainz_feeder::consts::MAX_GENRES;
use musicbrainz_feeder::genres::{genre_names, title_case};
use musicbrainz_feeder::listenbrainz::{PopularArtist, PopularWork};
use musicbrainz_feeder::resolve::{
    cover_lookups, discography_cap, popular_cover_lookups, AlbumStep, ArtistStep, Resolver,
};

fn tag(name: &str, count: i64) -> Tag {
    Tag {
        name: name.to_string(),
        count,
    }
}

#[test]
fn curated_genres_beat_open_tags() {
    let got = genre_names(&[tag("jazz", 3)], &[tag("cool", 9), tag("stuff i like", 9)]);
    assert_eq!(got, vec!["Jazz"]);
}

#[test]
fn tags_are_the_fallback_ranked_by_votes() {
    let got = genre_names(
        &[],
        &[tag("rock", 2), tag("hip hop", 7), tag("noise", 0)],
    );
    // Sorted by votes desc; the zero-vote tag is filtered out entirely.
    assert_eq!(got, vec!["Hip Hop", "Rock"]);
}

#[test]
fn genre_names_are_title_cased() {
    assert_eq!(genre_names(&[tag("modal jazz", 4)], &[]), vec!["Modal Jazz"]);
}

#[test]
fn capitalisation_happens_after_punctuation_too() {
    assert_eq!(title_case("r&b"), "R&B");
    assert_eq!(title_case("hip-hop"), "Hip-Hop");
    assert_eq!(title_case("drum'n'bass"), "Drum'N'Bass");
    assert_eq!(title_case("trip hop"), "Trip Hop");
    assert_eq!(title_case(""), "");
}

#[test]
fn genres_are_capped() {
    let many: Vec<Tag> = (0..20).map(|i| tag(&format!("g{i}"), 20 - i)).collect();
    assert_eq!(genre_names(&many, &[]).len(), MAX_GENRES);
}

#[test]
fn a_popular_entry_prefers_its_resolved_cover() {
    let r = Resolver::new();
    let with_caa = PopularWork {
        release_group_mbid: "rg".into(),
        title: "T".into(),
        artist_name: "A".into(),
        artist_mbid: Some("am".into()),
        caa: Some(("rel".into(), 7)),
        release_date: None,
    };
    let card = r.album_card_from_popular(&with_caa).expect("card");
    assert!(matches!(card.cover, Some(Cover::Resolved { .. })));

    let without = PopularWork {
        caa: None,
        ..with_caa
    };
    let card = r.album_card_from_popular(&without).expect("card");
    assert!(matches!(card.cover, Some(Cover::ReleaseGroupFront { .. })));
}

// ---------------------------------------------------------------------------
// Genres
// ---------------------------------------------------------------------------

#[test]
fn title_case_follows_unicode() {
    assert_eq!(title_case("éire 2tone"), "Éire 2tone");
    assert_eq!(title_case("straße"), "Straße");
    assert_eq!(title_case("ßeta"), "SSeta", "an upper-case form may be several characters");
    assert_eq!(title_case("ж/п"), "Ж/П", "a letter outside ASCII is alphanumeric");
    assert_eq!(title_case("x·y"), "X·Y");
    assert_eq!(title_case("JAZZ"), "JAZZ");
}

#[test]
fn title_case_of_every_ascii_character() {
    for c in (0u8..=0x7f).map(char::from) {
        assert_eq!(title_case(&c.to_string()), c.to_ascii_uppercase().to_string());
        let next = if c.is_ascii_alphanumeric() { 'a' } else { 'A' };
        let expected = format!("{}{next}", c.to_ascii_uppercase());
        assert_eq!(title_case(&format!("{c}a")), expected);
    }
}

#[test]
fn a_curated_list_wins_even_where_it_has_no_votes() {
    assert!(genre_names(&[tag("jazz", 0)], &[tag("cool", 9)]).is_empty());
    assert_eq!(genre_names(&[tag("  ", 5)], &[tag(" cool ", 9)]), vec!["Cool"]);
}

#[test]
fn genres_of_equal_votes_are_in_the_order_of_their_names() {
    let got = genre_names(&[], &[tag("b", 1), tag("a", 1), tag("c", 2), tag("z", -1)]);
    let other = genre_names(&[], &[tag("z", -1), tag("c", 2), tag("a", 1), tag("b", 1)]);
    assert_eq!(got, other, "whatever order they came in");
    assert_eq!(got, vec!["C", "A", "B"]);
    let many: Vec<Tag> = (0..9).map(|i| tag(&format!("g{i}"), 1)).collect();
    assert_eq!(genre_names(&[], &many), vec!["G0", "G1", "G2", "G3", "G4", "G5"]);
}

// ---------------------------------------------------------------------------
// Cards
// ---------------------------------------------------------------------------

fn group(id: &str, kind: Option<&str>) -> ReleaseGroup {
    ReleaseGroup {
        id: id.into(),
        title: " Kind of Blue ".into(),
        primary_type: kind.map(str::to_string),
        secondary_types: vec!["Live".into()],
        first_release_date: Some("1959".into()),
        artist_credit: vec![
            ArtistCredit {
                name: "Miles Davis".into(),
                joinphrase: " & ".into(),
                artist: Some(CreditedArtist { id: "".into(), name: "Miles Davis".into() }),
            },
            ArtistCredit {
                name: "Gil Evans".into(),
                joinphrase: "".into(),
                artist: Some(CreditedArtist { id: "gil".into(), name: "  ".into() }),
            },
        ],
        genres: vec![tag("jazz", 1)],
        disambiguation: Some("  ".into()),
        ..Default::default()
    }
}

#[test]
fn an_album_card_carries_what_the_release_group_says() {
    let c = Resolver::new().album_card(&group("rg", Some("Album"))).expect("card");
    assert_eq!(c.kind, CardKind::Album);
    assert_eq!(c.mbid, "rg");
    assert_eq!(c.title, "Kind of Blue");
    assert_eq!(c.album_artist.as_deref(), Some("Miles Davis & Gil Evans"));
    assert_eq!(c.artists, vec!["Miles Davis"], "a blank name is no name");
    assert_eq!(c.artist_mbid.as_deref(), Some("gil"));
    assert_eq!(c.cover, Some(Cover::ReleaseGroupFront { release_group_mbid: "rg".into() }));
    assert_eq!(c.disambiguation, None);
    assert_eq!(c.genres, vec!["Jazz"]);
    assert_eq!(c.release_date.as_deref(), Some("1959"));
    assert_eq!(c.primary_type.as_deref(), Some("Album"));
    assert_eq!(c.secondary_types, vec!["Live"]);
    assert!(c.is_displayable());
    assert!(c.tracks.is_empty() && c.track_count.is_none() && c.label.is_none());
}

#[test]
fn a_work_without_id_or_title_makes_no_card() {
    let r = Resolver::new();
    assert!(r.album_card(&group("", None)).is_none());
    let untitled = ReleaseGroup { title: "  ".into(), ..group("rg", None) };
    assert!(r.album_card(&untitled).is_none());
    let work = PopularWork {
        release_group_mbid: "rg".into(),
        title: "  ".into(),
        artist_name: "".into(),
        artist_mbid: None,
        caa: None,
        release_date: None,
    };
    assert!(r.album_card_from_popular(&work).is_none());
    assert!(r.artist_card(&Artist::default(), front("rg")).is_none());
    let nameless = Artist { id: "a".into(), name: " ".into(), ..Default::default() };
    assert!(r.artist_card(&nameless, front("rg")).is_none());
}

#[test]
fn a_popular_work_makes_a_thin_card() {
    let work = PopularWork {
        release_group_mbid: "rg".into(),
        title: " T ".into(),
        artist_name: " A ".into(),
        artist_mbid: Some("am".into()),
        caa: Some(("rel".into(), 7)),
        release_date: Some("2026".into()),
    };
    let c = Resolver::new().album_card_from_popular(&work).expect("card");
    assert_eq!(c.title, "T");
    assert_eq!(c.album_artist.as_deref(), Some(" A "));
    assert_eq!(c.artists, vec![" A "]);
    assert_eq!(c.artist_mbid.as_deref(), Some("am"));
    assert_eq!(c.cover, Some(Cover::Resolved { release_mbid: "rel".into(), caa_id: 7 }));
    assert_eq!(c.release_date.as_deref(), Some("2026"));
    assert!(c.genres.is_empty());
    let anonymous = PopularWork { artist_name: " ".into(), ..work };
    let c = Resolver::new().album_card_from_popular(&anonymous).expect("card");
    assert_eq!(c.album_artist, None);
    assert!(c.artists.is_empty());
}

fn artist(id: &str) -> Artist {
    Artist {
        id: id.into(),
        name: " Miles ".into(),
        artist_type: Some("Person".into()),
        disambiguation: Some("trumpeter".into()),
        tags: vec![tag("cool", 2)],
        ..Default::default()
    }
}

fn front(id: &str) -> Option<Cover> {
    Some(Cover::ReleaseGroupFront { release_group_mbid: id.into() })
}

#[test]
fn an_artist_card_renders_just_where_it_has_a_cover() {
    let r = Resolver::new();
    let c = r.artist_card(&artist("a"), front("rg")).expect("card");
    assert_eq!(c.kind, CardKind::Artist);
    assert_eq!(c.title, "Miles");
    assert_eq!(c.artists, vec![" Miles "]);
    assert_eq!(c.primary_type.as_deref(), Some("Person"));
    assert_eq!(c.disambiguation.as_deref(), Some("trumpeter"));
    assert_eq!(c.genres, vec!["Cool"]);
    assert!(c.is_displayable());
    assert!(r.artist_card(&artist("a"), None).is_none());
    assert!(r.artist_card_by_mbid(&Some(artist("a")), None, &None).is_none());
}

#[test]
fn only_the_first_hits_have_a_cover_looked_up() {
    assert_eq!(cover_lookups(0), 0);
    assert_eq!(cover_lookups(2), 2);
    assert_eq!(cover_lookups(9), 3);
    let hits: Vec<Artist> = ["a", "b", "", "d", "e"].iter().map(|id| artist(id)).collect();
    let covers = vec![front("1"), None, front("3"), front("4")];
    let cards = Resolver::new().artist_cards_for_text(&hits, &covers);
    let got: Vec<(String, bool)> =
        cards.into_iter().map(|c| (c.mbid, c.cover.is_some())).collect();
    assert_eq!(got, vec![("a".to_string(), true)]);
}

#[test]
fn popular_artists_without_a_cover_get_no_card() {
    let artists: Vec<PopularArtist> = ["a", "b", "c"]
        .iter()
        .map(|id| PopularArtist { artist_mbid: id.to_string(), name: "N".into() })
        .collect();
    let r = Resolver::new();
    let ids = |cards: Vec<Card>| cards.into_iter().map(|c| c.mbid).collect::<Vec<String>>();
    let covers = vec![None, front("2"), front("3")];
    assert_eq!(ids(r.artist_cards_from_popular(&artists, 2, &covers)), vec!["b"]);
    assert_eq!(ids(r.artist_cards_from_popular(&artists, 9, &covers)), vec!["b", "c"]);
    assert!(r.artist_cards_from_popular(&artists, 9, &Vec::new()).is_empty());
}

#[test]
fn an_artist_borrows_the_cover_of_a_full_album() {
    let r = Resolver::new();
    let groups = vec![group("s", Some("Single")), group("a", Some("Album")), group("b", Some("Album"))];
    assert_eq!(r.cover_for_artist(&groups), front("a"));
    assert_eq!(r.cover_for_artist(&vec![group("s", Some("album")), group("t", None)]), front("s"));
    assert_eq!(r.cover_for_artist(&Vec::new()), None);
}

#[test]
fn rows_keep_their_order_and_drop_what_makes_no_card() {
    let r = Resolver::new();
    let hits = vec![group("a", None), group("", None), group("b", None)];
    let ids = |cards: Vec<Card>| cards.into_iter().map(|c| c.mbid).collect::<Vec<String>>();
    assert_eq!(ids(r.album_cards_for_text(&hits)), vec!["a", "b"]);
    assert_eq!(ids(r.album_cards_for_tag(&hits)), vec!["a", "b"]);
    assert_eq!(ids(r.album_cards_for_artist(&hits)), vec!["a", "b"]);
    assert_eq!(discography_cap(10), 10);
    assert_eq!(discography_cap(1000), 300);
}

fn relation(kind: &str, url: &str) -> (String, String) {
    (kind.to_string(), url.to_string())
}

#[test]
fn streaming_links_are_web_addresses_each_once() {
    let r = Resolver::new();
    let relations = Some(vec![
        relation("Streaming", "https://tidal.com/x"),
        relation("free streaming", "http://deezer.com/x"),
        relation("streaming", "https://tidal.com/x"),
        relation("streaming", "spotify:artist:x"),
        relation("youtube", "https://youtube.com/x"),
        relation("purchase for download", "https://shop/x"),
    ]);
    assert_eq!(
        r.streaming_links(&relations),
        vec!["https://tidal.com/x", "http://deezer.com/x"]
    );
    assert!(r.streaming_links(&None).is_empty());
    let card = r
        .artist_card_by_mbid(&Some(artist("a")), front("rg"), &relations)
        .expect("card");
    assert_eq!(card.streaming_links.len(), 2);
    assert!(r.artist_card_by_mbid(&None, front("rg"), &relations).is_none());
}

#[test]
fn a_looked_up_album_has_its_release_folded_in() {
    let r = Resolver::new();
    let release = Release {
        media: vec![Medium { tracks: vec![Track::default(); 4], ..Default::default() }],
        ..Default::default()
    };
    let found = Some(group("rg", None));
    let c = r.album_card_by_mbid(&found, &Some(release.clone())).expect("card");
    assert_eq!(c.track_count, Some(4));
    let c = r.album_card_by_mbid(&found, &None).expect("card");
    assert_eq!(c.track_count, None);
    assert!(r.album_card_by_mbid(&None, &Some(release.clone())).is_none());
    assert!(r.album_card_by_mbid(&Some(group("", None)), &Some(release)).is_none());
}

#[test]
fn a_track_list_is_asked_for_once_there_is_a_card() {
    let r = Resolver::new();
    let no_release = || Asked::<Release>::NotYet;
    let found = || Asked::Answered(Some(group("rg", None)));
    assert_eq!(r.album_step(&Asked::NotYet, &no_release()), AlbumStep::ReleaseGroup);
    assert_eq!(r.album_step(&found(), &no_release()), AlbumStep::Tracklist);
    assert_eq!(r.album_step(&found(), &Asked::Answered(None)), AlbumStep::Done);
    assert_eq!(r.album_step(&Asked::Answered(None), &no_release()), AlbumStep::Done);
    let nameless = Asked::Answered(Some(group("", None)));
    assert_eq!(r.album_step(&nameless, &no_release()), AlbumStep::Done);
}

#[test]
fn relations_are_asked_for_once_there_is_an_artist_card() {
    let r = Resolver::new();
    let found = || Asked::Answered(Some(artist("a")));
    let unasked = || Asked::<Vec<(String, String)>>::NotYet;
    assert_eq!(r.artist_step(&Asked::NotYet, &Asked::NotYet, &unasked()), ArtistStep::Artist);
    assert_eq!(r.artist_step(&Asked::Answered(None), &Asked::NotYet, &unasked()), ArtistStep::Done);
    assert_eq!(r.artist_step(&found(), &Asked::NotYet, &unasked()), ArtistStep::Cover);
    assert_eq!(r.artist_step(&found(), &Asked::Answered(None), &unasked()), ArtistStep::Done);
    let cover = || Asked::Answered(front("rg"));
    assert_eq!(r.artist_step(&found(), &cover(), &unasked()), ArtistStep::Relations);
    assert_eq!(r.artist_step(&found(), &cover(), &Asked::Answered(None)), ArtistStep::Done);
}

#[test]
fn a_popular_row_looks_up_a_cover_for_each_of_its_artists() {
    assert_eq!(popular_cover_lookups(40, 20), 20);
    assert_eq!(popular_cover_lookups(7, 20), 7);
    assert_eq!(popular_cover_lookups(0, 20), 0);
    assert_eq!(popular_cover_lookups(7, 0), 0);
}
