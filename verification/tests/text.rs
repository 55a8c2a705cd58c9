//! Text, numbers, maps and ranking, held against the standard library.
use musicbrainz_feeder::number::{decimal_text, read_unsigned, signed_decimal_text};
use musicbrainz_feeder::rank::{rank_all, Ranked};
use musicbrainz_feeder::client::ReleaseGroup;
use musicbrainz_feeder::strmap::StrMap;
use musicbrainz_feeder::text::{
    blank, chars_of, contains_text, find_char, join, lower, replace_char, same_ignoring_case,
    same_text, starts_with, strip_end, strip_start, text_order, to_lower, trim, white_space,
    TextOrder,
};

const SAMPLES: [&str; 12] = [
    "",
    " ",
    "a",
    "  a b  ",
    "\u{3000}Kind of Blue\u{2003}\n",
    "\u{200b}x",
    "ÆON flux",
    "z\u{301}",
    "日本",
    "a/b//",
    "///",
    "ABC abc Ü",
];

#[test]
fn white_space_is_what_unicode_says() {
    for c in (0..=0x10ffff).filter_map(char::from_u32) {
        assert_eq!(white_space(c), c.is_whitespace(), "{:x}", c as u32);
        assert_eq!(lower(c), c.to_ascii_lowercase());
    }
}

#[test]
fn text_functions_agree_with_the_standard_ones() {
    for s in SAMPLES {
        assert_eq!(trim(s), s.trim());
        assert_eq!(blank(s), s.trim().is_empty());
        assert_eq!(to_lower(s), s.to_ascii_lowercase());
        assert_eq!(strip_start(s, '/'), s.trim_start_matches('/'));
        assert_eq!(strip_end(s, '/'), s.trim_end_matches('/'));
        assert_eq!(replace_char(s, 'a', 'é'), s.replace('a', "é"));
        assert_eq!(chars_of(s), s.chars().collect::<Vec<char>>());
        for t in SAMPLES {
            assert_eq!(same_text(s, t), s == t);
            assert_eq!(same_ignoring_case(s, t), s.eq_ignore_ascii_case(t));
            assert_eq!(starts_with(s, t), s.starts_with(t));
            let order = text_order(s, t);
            assert_eq!(matches!(order, TextOrder::Before), s < t);
            assert_eq!(matches!(order, TextOrder::Same), s == t);
            assert_eq!(matches!(order, TextOrder::After), s > t);
        }
    }
}

#[test]
fn lists_are_joined_and_searched() {
    let list: Vec<String> = ["a", "", "é"].iter().map(|s| s.to_string()).collect();
    assert_eq!(join(&list, ","), "a,,é");
    assert_eq!(join(&Vec::new(), ","), "");
    assert!(contains_text(&list, ""));
    assert!(!contains_text(&list, "b"));
    assert_eq!(find_char(&chars_of("ab:c:d"), ':'), 2);
    assert_eq!(find_char(&chars_of("ab"), ':'), 2);
}

#[test]
fn numbers_are_written_and_read_as_the_standard_library_does() {
    for n in [0, 7, 10, 1959, u64::MAX] {
        assert_eq!(decimal_text(n), n.to_string());
        assert_eq!(read_unsigned(&decimal_text(n), u64::MAX), Some(n));
    }
    for n in [i64::MIN, -10, -1, 0, 42, i64::MAX] {
        assert_eq!(signed_decimal_text(n), n.to_string());
    }
    for s in ["", "+", "-0", "+0", "007", " 1", "1 ", "1x", "١", "18446744073709551615",
        "18446744073709551616", "99999999999999999999999"]
    {
        assert_eq!(read_unsigned(s, u64::MAX), s.parse::<u64>().ok(), "{s}");
        assert_eq!(read_unsigned(s, u16::MAX as u64), s.parse::<u16>().ok().map(u64::from), "{s}");
    }
}

#[test]
fn a_map_holds_each_key_once_and_in_order() {
    let mut map: StrMap<String> = StrMap::new();
    for (key, value) in [("b", "1"), ("é", "2"), ("a", "3"), ("b", "4"), ("", "5"), ("aa", "6")] {
        map.insert(key.to_string(), value.to_string());
    }
    assert_eq!(map.keys(), vec!["", "a", "aa", "b", "é"]);
    assert_eq!(map.len(), 5);
    assert_eq!(map.get("b").map(String::as_str), Some("4"));
    assert_eq!(map.get("c"), None);
    assert!(map.contains_key("") && !map.contains_key("ab"));
    let (key, value) = map.entry(2);
    assert_eq!((key.as_str(), value.as_str()), ("aa", "6"));
}

#[test]
fn ranking_agrees_with_a_stable_sort() {
    let groups: Vec<ReleaseGroup> = (0..60)
        .map(|i: u32| ReleaseGroup {
            id: format!("{}", (i * 7) % 5),
            title: format!("{i}"),
            score: ((i * 13) % 4) as i32,
            count: (i * 11) % 3,
            ..Default::default()
        })
        .collect();
    let mut sorted = groups.clone();
    sorted.sort_by(|a, b| {
        b.score.cmp(&a.score).then(b.count.cmp(&a.count)).then(a.id.cmp(&b.id))
    });
    let ranked = rank_all(groups);
    assert_eq!(ranked[0].first_figure(), 3);
    let titles = |list: &[ReleaseGroup]| {
        list.iter().map(|g| g.title.clone()).collect::<Vec<String>>()
    };
    assert_eq!(titles(&ranked), titles(&sorted));
}
