//! The card model and its projection to a record.
use musicbrainz_feeder::card::{split_record_id, Card, CardKind, CardSource, Cover};
use musicbrainz_feeder::client::{Label, LabelInfo, Medium, Recording, Release, Track};
use musicbrainz_feeder::record::{DiscoveryRecord, Locators};
use musicbrainz_feeder::strmap::StrMap;

const RG: &str = "f5093c06-23e3-404f-aeaa-40f72885ee3a";
const AR: &str = "561d854a-6a28-4aa7-8c99-323e6ce46c2a";

fn album() -> Card {
    Card {
        source: CardSource::MusicBrainz,
        kind: CardKind::Album,
        mbid: RG.to_string(),
        title: "Kind of Blue".to_string(),
        album_artist: Some("Miles Davis".to_string()),
        artists: vec!["Miles Davis".to_string()],
        artist_mbid: Some(AR.to_string()),
        cover: Some(Cover::ReleaseGroupFront {
            release_group_mbid: RG.to_string(),
        }),
        disambiguation: None,
        genres: vec!["Jazz".to_string(), "Modal Jazz".to_string()],
        release_date: Some("1959-08-17".to_string()),
        track_count: None,
        disc_count: None,
        label: None,
        catalog_number: None,
        primary_type: Some("Album".to_string()),
        secondary_types: vec![],
        tracks: Vec::new(),
        streaming_links: Vec::new(),
    }
}

fn no_locators() -> Locators {
    Locators { card: None, artwork: None, external_play: Vec::new() }
}

fn no_filters() -> StrMap<Vec<String>> {
    StrMap::new()
}

fn filters(pairs: &[(&str, &[&str])]) -> StrMap<Vec<String>> {
    let mut map: StrMap<Vec<String>> = StrMap::new();
    for (key, values) in pairs {
        map.insert(key.to_string(), values.iter().map(|v| v.to_string()).collect());
    }
    map
}

fn field<'a>(r: &'a DiscoveryRecord, key: &str) -> Option<&'a str> {
    r.fields.get(key).map(String::as_str)
}

fn record(c: &Card) -> DiscoveryRecord {
    c.to_record(&no_filters(), &no_locators()).expect("record")
}

#[test]
fn album_projects_the_expected_field_set() {
    let r = record(&album());
    assert_eq!(r.upstream_id, "musicbrainz");
    assert_eq!(r.record_id, format!("musicbrainz:{RG}"));
    assert_eq!(field(&r, "fileType"), Some("card"));
    assert_eq!(field(&r, "contentKind"), Some("album"));
    assert_eq!(field(&r, "title"), Some("Kind of Blue"));
    assert_eq!(field(&r, "mbReleaseGroupId"), Some(RG));
    assert_eq!(field(&r, "mbArtistId"), Some(AR));
    assert_eq!(field(&r, "albumArtist"), Some("Miles Davis"));
    assert_eq!(field(&r, "releasedate"), Some("1959-08-17"));
    // Genres are a key-set, never a comma-joined value.
    assert_eq!(field(&r, "genres/Jazz"), Some("true"));
    assert!(r.fields.get("genres").is_none());
    // Provenance is always stamped.
    assert_eq!(field(&r, "source/gateway:musicbrainz"), Some("true"));
}

#[test]
fn album_stamps_its_own_locator_as_a_cid_member() {
    let cid = "zCardLocator";
    let at = Locators { card: Some(cid.to_string()), ..no_locators() };
    let r = album().to_record(&no_filters(), &at).expect("record");
    assert_eq!(field(&r, &format!("cids/{cid}")), Some("true"));
}

#[test]
fn the_locator_preimage_is_the_bare_mbid() {
    let c = album();
    assert_eq!(c.record_id(), format!("musicbrainz:{RG}"));
    let asked = c.locator_requests();
    assert_eq!(asked.source, "musicbrainz");
    assert_eq!(asked.id, RG, "the address is minted from the BARE mbid");
    let artist = Card { kind: CardKind::Artist, mbid: AR.to_string(), ..album() };
    assert_ne!(artist.locator_requests().id, asked.id);
}

#[test]
fn structured_filters_are_echoed_back_except_the_key_sets() {
    let f = filters(&[
        ("popular", &["true"]),
        ("genres", &["jazz"]),
        ("languages", &["eng"]),
    ]);
    let r = album().to_record(&f, &no_locators()).expect("record");
    assert_eq!(field(&r, "popular"), Some("true"));
    // The slug must NOT be persisted as if it were a genre name.
    assert_eq!(field(&r, "genres"), None);
    assert_eq!(field(&r, "languages"), None);
    assert_eq!(field(&r, "genres/Jazz"), Some("true"));
}

#[test]
fn the_echo_does_not_clobber_a_resolved_field() {
    let f = filters(&[("contentKind", &["album"]), ("title", &["something else"])]);
    let r = album().to_record(&f, &no_locators()).expect("record");
    assert_eq!(field(&r, "title"), Some("Kind of Blue"));
    assert_eq!(field(&r, "contentKind"), Some("album"));
}

#[test]
fn a_coverless_or_titleless_card_is_not_emitted() {
    let mut c = album();
    c.cover = None;
    assert!(c.to_record(&no_filters(), &no_locators()).is_none());

    let mut c = album();
    c.title = "   ".to_string();
    assert!(c.to_record(&no_filters(), &no_locators()).is_none());
}

#[test]
fn artist_cards_are_addressed_by_their_artist_mbid() {
    let c = Card {
        kind: CardKind::Artist,
        mbid: AR.to_string(),
        title: "Miles Davis".to_string(),
        album_artist: None,
        artist_mbid: None,
        ..album()
    };
    let r = record(&c);
    assert_eq!(field(&r, "contentKind"), Some("artist"));
    assert_eq!(field(&r, "mbArtistId"), Some(AR));
    assert!(r.fields.get("mbReleaseGroupId").is_none());
    assert!(r.fields.get("albumArtist").is_none());
}

#[test]
fn a_resolved_cover_beats_the_front_endpoint() {
    let front = Cover::ReleaseGroupFront {
        release_group_mbid: RG.to_string(),
    };
    assert!(front.url().ends_with(&format!("/release-group/{RG}/front-500")));

    let resolved = Cover::Resolved {
        release_mbid: "rel-1".to_string(),
        caa_id: 42,
    };
    assert!(resolved.url().ends_with("/release/rel-1/42-500.jpg"));
}

#[test]
fn release_detail_folds_in_counts_label_and_catalogue() {
    let release = Release {
        id: "rel".into(),
        title: "Kind of Blue".into(),
        media: vec![
            Medium {
                position: 1,
                track_count: 5,
                tracks: vec![Track::default(); 5],
                ..Default::default()
            },
            Medium {
                position: 2,
                track_count: 3,
                tracks: vec![Track::default(); 3],
                ..Default::default()
            },
        ],
        label_info: vec![LabelInfo {
            catalog_number: Some("CL 1355".into()),
            label: Some(Label {
                name: "Columbia".into(),
            }),
        }],
        ..Default::default()
    };
    let c = album().with_release_detail(&release);
    assert_eq!(c.track_count, Some(8));
    assert_eq!(c.disc_count, Some(2));
    assert_eq!(c.label.as_deref(), Some("Columbia"));
    assert_eq!(c.catalog_number.as_deref(), Some("CL 1355"));
}

#[test]
fn a_declared_track_count_beats_the_inlined_track_list() {
    let release = Release {
        media: vec![Medium {
            position: 1,
            track_count: 12,
            tracks: vec![Track::default(); 2],
            ..Default::default()
        }],
        ..Default::default()
    };
    assert_eq!(album().with_release_detail(&release).track_count, Some(12));
}

fn two_disc_release() -> Release {
    Release {
        media: vec![
            Medium {
                position: 1,
                track_count: 2,
                tracks: vec![
                    Track {
                        position: 1,
                        title: "So What".into(),
                        length: Some(545_000),
                        recording: Some(Recording {
                            id: "rec-1".into(),
                            isrcs: vec!["USSM15900001".into()],
                            ..Default::default()
                        }),
                        ..Default::default()
                    },
                    Track {
                        position: 2,
                        title: "Freddie Freeloader".into(),
                        ..Default::default()
                    },
                ],
                ..Default::default()
            },
            Medium {
                position: 2,
                track_count: 1,
                tracks: vec![Track {
                    position: 1,
                    title: "Blue in Green".into(),
                    ..Default::default()
                }],
                ..Default::default()
            },
        ],
        ..Default::default()
    }
}

#[test]
fn the_canonical_track_list_rides_out_as_an_indexed_list() {
    let c = album().with_release_detail(&two_disc_release());
    assert_eq!(c.tracks.len(), 3);
    let r = record(&c);
    assert_eq!(field(&r, "tracks/0/title"), Some("So What"));
    assert_eq!(field(&r, "tracks/0/position"), Some("1"));
    assert_eq!(field(&r, "tracks/0/disc"), Some("1"));
    assert_eq!(field(&r, "tracks/0/length"), Some("545000"));
    assert_eq!(field(&r, "tracks/0/isrc"), Some("USSM15900001"));
    assert_eq!(field(&r, "tracks/0/mbRecordingId"), Some("rec-1"));
    // A track with no timing simply omits the field rather than claiming 0.
    assert!(!r.fields.contains_key("tracks/1/length"));
    // Disc 2's track keeps its own disc index, and its position restarts —
    // which is why (disc, position) is the sort key, not position alone.
    assert_eq!(field(&r, "tracks/2/disc"), Some("2"));
    assert_eq!(field(&r, "tracks/2/position"), Some("1"));
}

#[test]
fn a_medium_with_no_position_is_disc_one() {
    let release = Release {
        media: vec![Medium {
            position: 0,
            track_count: 1,
            tracks: vec![Track {
                position: 1,
                title: "Only Track".into(),
                ..Default::default()
            }],
            ..Default::default()
        }],
        ..Default::default()
    };
    let c = album().with_release_detail(&release);
    assert_eq!(c.tracks[0].disc, 1);
}

#[test]
fn a_secondary_release_type_outranks_the_primary() {
    let live = Card {
        primary_type: Some("Album".into()),
        secondary_types: vec!["Live".into()],
        ..album()
    };
    assert_eq!(live.release_type(), Some("Live"));

    let comp = Card {
        primary_type: Some("Album".into()),
        secondary_types: vec!["Compilation".into()],
        ..album()
    };
    assert_eq!(comp.release_type(), Some("Compilation"));

    // A plain studio album keeps its primary type.
    assert_eq!(album().release_type(), Some("Album"));

    let single = Card {
        primary_type: Some("Single".into()),
        secondary_types: vec![],
        ..album()
    };
    assert_eq!(single.release_type(), Some("Single"));
}

#[test]
fn release_type_is_an_album_only_field_beside_content_kind() {
    let r = record(&Card {
        primary_type: Some("Single".into()),
        ..album()
    });
    assert_eq!(field(&r, "releaseType"), Some("Single"));
    assert_eq!(field(&r, "contentKind"), Some("album"), "the routing axis is unchanged");

    let artist = record(&Card {
        kind: CardKind::Artist,
        mbid: AR.to_string(),
        primary_type: Some("Group".into()),
        ..album()
    });
    assert!(!artist.fields.contains_key("releaseType"));
}

#[test]
fn a_browse_card_emits_no_track_fields() {
    let r = record(&album());
    assert!(
        !r.fields.keys().iter().any(|k| k.starts_with("tracks/")),
        "a browse card must stay cheap"
    );
}

#[test]
fn an_undeclared_track_count_falls_back_to_the_inlined_list() {
    let release = Release {
        media: vec![Medium {
            position: 1,
            track_count: 0,
            tracks: vec![Track::default(); 3],
            ..Default::default()
        }],
        ..Default::default()
    };
    assert_eq!(album().with_release_detail(&release).track_count, Some(3));
}

#[test]
fn record_ids_split_on_the_first_colon() {
    assert_eq!(
        split_record_id(&format!("musicbrainz:{RG}")),
        Some(("musicbrainz", RG))
    );
    assert!(split_record_id("nocolon").is_none());
    assert!(split_record_id(":empty-source").is_none());
    assert!(split_record_id("empty-id:").is_none());
}

fn artist_card_with_links(links: &[&str]) -> Card {
    Card {
        source: CardSource::MusicBrainz,
        kind: CardKind::Artist,
        mbid: "056e4f3e-d505-4dad-8ec1-d04f521cbb56".into(),
        title: "Daft Punk".into(),
        album_artist: None,
        artists: vec!["Daft Punk".into()],
        artist_mbid: None,
        cover: Some(Cover::ReleaseGroupFront { release_group_mbid: "rg".into() }),
        disambiguation: None,
        genres: vec![],
        release_date: None,
        track_count: None,
        disc_count: None,
        label: None,
        catalog_number: None,
        primary_type: None,
        secondary_types: vec![],
        tracks: Vec::new(),
        streaming_links: links.iter().map(|s| s.to_string()).collect(),
    }
}

#[test]
fn streaming_links_never_enter_the_cid_keyset() {
    let c = artist_card_with_links(&["https://open.spotify.com/artist/4tZwfgrHOc3mvqYlEYSvVi"]);
    let ext = "zExtPlay";
    let at = Locators {
        card: Some("zCardLocator".to_string()),
        artwork: None,
        external_play: vec![Some(ext.to_string())],
    };
    let rec = c.to_record(&no_filters(), &at).expect("record");
    assert!(
        rec.fields.contains_key(&format!("externalPlay/{ext}")),
        "the link is emitted"
    );
    assert!(
        !rec.fields.contains_key(&format!("cids/{ext}")),
        "an ext-play locator must never be a cid the work can be addressed by"
    );
    assert_eq!(
        rec.fields.keys().iter().filter(|k| k.starts_with("cids/")).count(),
        1,
        "exactly one cid: the card locator"
    );
}

#[test]
fn a_card_with_no_links_emits_no_key_set() {
    let rec = record(&artist_card_with_links(&[]));
    assert!(!rec.fields.keys().iter().any(|k| k.starts_with("externalPlay/")));
}

#[test]
fn a_non_http_link_is_dropped() {
    let at = Locators {
        external_play: vec![Some("zExtPlay".to_string())],
        ..no_locators()
    };
    let rec = artist_card_with_links(&["javascript:alert(1)"])
        .to_record(&no_filters(), &at)
        .expect("record");
    assert!(!rec.fields.keys().iter().any(|k| k.starts_with("externalPlay/")));
}

// ---------------------------------------------------------------------------
// Edges of the model
// ---------------------------------------------------------------------------

#[test]
fn sources_and_kinds_have_their_names() {
    assert_eq!(CardSource::MusicBrainz.as_str(), "musicbrainz");
    assert_eq!(CardKind::Album.content_kind(), "album");
    assert_eq!(CardKind::Artist.content_kind(), "artist");
    assert_eq!(CardKind::Album.artwork_field(), "cover");
    assert_eq!(CardKind::Artist.artwork_field(), "photo");
}

#[test]
fn cover_addresses_are_exact() {
    let front = Cover::ReleaseGroupFront { release_group_mbid: "rg".into() };
    assert_eq!(front.url(), "https://coverartarchive.org/release-group/rg/front-500");
    let negative = Cover::Resolved { release_mbid: "rel".into(), caa_id: -7 };
    assert_eq!(negative.url(), "https://coverartarchive.org/release/rel/-7-500.jpg");
    let least = Cover::Resolved { release_mbid: "rel".into(), caa_id: i64::MIN };
    assert_eq!(
        least.url(),
        "https://coverartarchive.org/release/rel/-9223372036854775808-500.jpg"
    );
}

#[test]
fn every_release_type_is_recognised_whatever_its_case() {
    let of = |primary: &str, secondary: &[&str]| {
        Card {
            primary_type: Some(primary.to_string()),
            secondary_types: secondary.iter().map(|s| s.to_string()).collect(),
            ..album()
        }
        .release_type()
    };
    assert_eq!(of("Album", &["DJ-mix"]), Some("DJMix"));
    assert_eq!(of("Album", &["dj mix"]), Some("DJMix"));
    assert_eq!(of("Album", &[" SOUNDTRACK "]), Some("Soundtrack"));
    assert_eq!(of("Album", &["Remix"]), Some("Remix"));
    assert_eq!(of("Album", &["Audiobook", "Live"]), Some("Live"));
    assert_eq!(of("ep", &[]), Some("EP"));
    assert_eq!(of(" Broadcast ", &["Audiobook"]), Some("Broadcast"));
    assert_eq!(of("other", &[]), Some("Other"));
    assert_eq!(of("Zine", &[]), None);
    let none = Card { primary_type: None, ..album() };
    assert_eq!(none.release_type(), None);
}

#[test]
fn an_absurd_track_count_is_held_at_the_ceiling() {
    let release = Release {
        media: vec![
            Medium { track_count: u32::MAX, ..Default::default() },
            Medium { track_count: u32::MAX, ..Default::default() },
        ],
        ..Default::default()
    };
    let c = album().with_release_detail(&release);
    assert_eq!(c.track_count, Some(500));
    assert_eq!(field(&record(&c), "trackCount"), Some("500"));
    // A count above the ceiling that got in some other way is not stated.
    let absurd = Card { track_count: Some(501), ..album() };
    assert_eq!(field(&record(&absurd), "trackCount"), None);
    let zero = Card { track_count: Some(0), disc_count: Some(0), ..album() };
    assert_eq!(field(&record(&zero), "trackCount"), None);
    assert_eq!(field(&record(&zero), "discCount"), None);
}

#[test]
fn a_blank_track_takes_its_recording_title_or_is_left_out() {
    let release = Release {
        media: vec![Medium {
            tracks: vec![
                Track {
                    position: 1,
                    title: "  ".into(),
                    recording: Some(Recording {
                        title: "From the recording".into(),
                        length: Some(1),
                        ..Default::default()
                    }),
                    ..Default::default()
                },
                Track::default(),
            ],
            ..Default::default()
        }],
        ..Default::default()
    };
    let c = album().with_release_detail(&release);
    assert_eq!(c.track_count, Some(2));
    assert_eq!(c.tracks.len(), 1);
    assert_eq!(c.tracks[0].title, "From the recording");
    assert_eq!(c.tracks[0].length_ms, Some(1));
    assert_eq!(c.tracks[0].mb_recording_id, None, "an empty id is no id");
    assert_eq!(c.tracks[0].isrc, None);
}

#[test]
fn an_empty_release_changes_only_the_track_list() {
    let before = Card {
        track_count: Some(4),
        disc_count: Some(1),
        label: Some("Blue Note".into()),
        catalog_number: Some("BLP 1".into()),
        ..album()
    };
    let c = before.with_release_detail(&Release::default());
    assert_eq!(c.track_count, Some(4));
    assert_eq!(c.disc_count, Some(1));
    assert_eq!(c.label.as_deref(), Some("Blue Note"));
    assert_eq!(c.catalog_number.as_deref(), Some("BLP 1"));
    let empty_names = Release {
        label_info: vec![LabelInfo {
            catalog_number: Some(String::new()),
            label: Some(Label { name: String::new() }),
        }],
        ..Default::default()
    };
    let c = c.with_release_detail(&empty_names);
    assert_eq!(c.label, None);
    assert_eq!(c.catalog_number, None);
}

#[test]
fn only_a_card_with_title_and_cover_would_render() {
    assert!(album().is_displayable());
    assert!(!Card { cover: None, ..album() }.is_displayable());
    assert!(!Card { title: "\u{3000}\t".into(), ..album() }.is_displayable());
}

// ---------------------------------------------------------------------------
// The laws of the projection, on concrete values
// ---------------------------------------------------------------------------

#[test]
fn a_record_id_splits_back_whatever_the_id_holds() {
    let c = Card { mbid: "tv:95479".into(), ..album() };
    let id = c.record_id();
    assert_eq!(id, "musicbrainz:tv:95479");
    assert_eq!(split_record_id(&id), Some(("musicbrainz", "tv:95479")));
    for id in ["a:b", "é::x", "a:b:c"] {
        let (source, rest) = split_record_id(id).expect("halves");
        assert_eq!(format!("{source}:{rest}"), id);
        assert!(!source.contains(':'));
    }
}

#[test]
fn the_echo_joins_several_values_and_skips_an_empty_list() {
    let f = filters(&[("year", &["1959", "1960"]), ("empty", &[])]);
    let r = album().to_record(&f, &no_locators()).expect("record");
    assert_eq!(field(&r, "year"), Some("1959,1960"));
    assert!(!r.fields.contains_key("empty"));
}

#[test]
fn folding_a_release_in_only_adds_fields() {
    let before = record(&album());
    let after = record(&album().with_release_detail(&two_disc_release()));
    for key in before.fields.keys() {
        assert_eq!(field(&before, &key), field(&after, &key), "{key}");
    }
    assert_eq!(field(&after, "trackCount"), Some("3"));
    assert_eq!(field(&after, "discCount"), Some("2"));
    assert!(before.fields.keys().len() < after.fields.keys().len());
}

#[test]
fn artwork_is_the_locator_under_the_name_of_the_kind() {
    let at = Locators { artwork: Some("zArt".into()), ..no_locators() };
    let r = album().to_record(&no_filters(), &at).expect("record");
    assert_eq!(field(&r, "cover"), Some("zArt"));
    assert!(!r.fields.contains_key("photo"));
    let artist = Card { kind: CardKind::Artist, ..album() };
    let r = artist.to_record(&no_filters(), &at).expect("record");
    assert_eq!(field(&r, "photo"), Some("zArt"));
    assert!(!r.fields.contains_key("cover"));
    assert_eq!(
        album().locator_requests().artwork.as_deref(),
        Some("https://coverartarchive.org/release-group/f5093c06-23e3-404f-aeaa-40f72885ee3a/front-500")
    );
}

#[test]
fn blank_names_are_left_out_of_the_key_sets() {
    let c = Card {
        artists: vec![" Bill Evans ".into(), "  ".into()],
        genres: vec!["".into(), " Cool ".into()],
        album_artist: Some("  ".into()),
        label: Some(" Columbia ".into()),
        disambiguation: Some(" mono ".into()),
        catalog_number: Some("\n".into()),
        ..album()
    };
    let r = record(&c);
    assert_eq!(field(&r, "artists/Bill Evans"), Some("true"));
    assert_eq!(r.fields.keys().iter().filter(|k| k.starts_with("artists/")).count(), 1);
    assert_eq!(field(&r, "genres/Cool"), Some("true"));
    assert_eq!(r.fields.keys().iter().filter(|k| k.starts_with("genres/")).count(), 1);
    assert_eq!(field(&r, "albumArtist"), None);
    assert_eq!(field(&r, "label"), Some("Columbia"));
    assert_eq!(field(&r, "description/eng"), Some("mono"));
    assert_eq!(field(&r, "catalogNumber"), None);
}

#[test]
fn links_and_locators_go_together_by_position() {
    let c = artist_card_with_links(&["ftp://a", "HTTPS://b", "http://c", "https://d"]);
    assert_eq!(c.locator_requests().external_play.len(), 4);
    let at = Locators {
        external_play: vec![Some("za".into()), Some("zb".into()), None],
        ..no_locators()
    };
    let r = c.to_record(&no_filters(), &at).expect("record");
    let played: Vec<String> =
        r.fields.keys().into_iter().filter(|k| k.starts_with("externalPlay/")).collect();
    assert_eq!(played, vec!["externalPlay/zb".to_string()]);
    assert_eq!(field(&r, "externalPlay/zb"), Some("true"));
    assert!(!r.fields.keys().iter().any(|k| k.starts_with("cids/")), "no address was minted");
}
