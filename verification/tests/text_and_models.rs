use animeku::models::{Episode, Meta, Movie, Stream};
use animeku::text::{
    chars_of, concatenate, contains, decimal_u64, decimal_usize, find, parse_u64, parse_usize,
    replace, split_nth, starts_with, strip_prefix, trim, trim_char,
};

#[test]
fn trim_removes_unicode_white_space_at_both_ends() {
    assert_eq!(trim("  \t judul \n"), "judul");
    assert_eq!(trim("\u{3000}a b\u{a0}"), "a b");
    assert_eq!(trim("   "), "");
    assert_eq!(trim(""), "");
}

#[test]
fn trim_char_removes_every_surrounding_copy() {
    assert_eq!(trim_char("\"\"abc\"", '"'), "abc");
    assert_eq!(trim_char("\"A \\\"B\\\"\"", '"'), "A \\\"B\\");
    assert_eq!(trim_char("abc", '"'), "abc");
    assert_eq!(trim_char("\"\"", '"'), "");
}

#[test]
fn trim_is_idempotent_on_samples() {
    for s in ["  x ", "\u{2003}y\u{2003}", "z", "", " \" q \" "] {
        let once = trim(s);
        assert_eq!(trim(&once), once);
    }
}

#[test]
fn find_and_contains_report_the_first_occurrence() {
    assert_eq!(find("abcabc", "ca"), Some(2));
    assert_eq!(find("abc", "d"), None);
    assert_eq!(find("ééx", "x"), Some(2));
    assert!(contains("https://nontonanime.example/a", "nontonanime"));
    assert!(!contains("https://example.org", "whatbox"));
}

#[test]
fn starts_with_and_strip_prefix() {
    assert!(starts_with("http://host/x", "http"));
    assert!(!starts_with("ftp://host", "http"));
    assert!(!starts_with("ht", "http"));
    assert_eq!(strip_prefix("http://host/x", "http://"), Some("host/x".to_string()));
    assert_eq!(strip_prefix("https://host/x", "http://"), None);
}

#[test]
fn split_nth_matches_std_split() {
    let samples = [
        ("a?url=b&index=3", "url=", 1),
        ("a?url=b&index=3", "url=", 0),
        ("a?url=b&index=3", "url=", 2),
        ("b&index=3", "&index=", 1),
        ("no-marker", "&index=", 1),
        ("x,,y", ",", 1),
        ("x,,y", ",", 2),
    ];
    for (s, p, n) in samples {
        assert_eq!(split_nth(s, p, n), s.split(p).nth(n).map(|x| x.to_string()));
    }
}

#[test]
fn replace_matches_std_replace() {
    let samples = [
        ("360p SD (1 MiB)", "360p SD", "720p HD"),
        ("https://kotakajaib.me/file/abc", "file", "embed"),
        ("aaaa", "aa", "b"),
        ("nothing here", "xyz", "q"),
    ];
    for (s, from, to) in samples {
        assert_eq!(replace(s, from, to), s.replace(from, to));
    }
}

#[test]
fn decimal_renders_numbers() {
    assert_eq!(decimal_u64(0), "0");
    assert_eq!(decimal_u64(7), "7");
    assert_eq!(decimal_u64(25107), "25107");
    assert_eq!(decimal_u64(u64::MAX), u64::MAX.to_string());
    assert_eq!(decimal_usize(12), "12");
}

#[test]
fn parse_accepts_what_std_accepts() {
    let samples = ["0", "42", "+42", "+", "", "-1", "4a", "18446744073709551615", "18446744073709551616", "007"];
    for s in samples {
        assert_eq!(parse_u64(s), s.parse::<u64>().ok(), "input {:?}", s);
        assert_eq!(parse_usize(s), s.parse::<usize>().ok(), "input {:?}", s);
    }
}

#[test]
fn parse_gives_back_a_rendered_number() {
    for n in [0u64, 9, 10, 99, 100, 123456789, u64::MAX] {
        assert_eq!(parse_u64(&decimal_u64(n)), Some(n));
    }
}

#[test]
fn chars_and_concat() {
    assert_eq!(chars_of("aé"), vec!['a', 'é']);
    assert_eq!(concatenate("ab", "cd"), "abcd");
}

#[test]
fn movie_label_shows_trimmed_title_and_episode_count() {
    let m = Movie { id: "1".into(), title: "  One Piece ".into(), total_episodes: Some("1000".into()) };
    assert_eq!(m.display_text(), "One Piece (1000 eps)");
    let m = Movie { id: "1".into(), title: "Film\n".into(), total_episodes: None };
    assert_eq!(m.display_text(), "Film");
}

#[test]
fn episode_and_stream_labels_are_trimmed_titles() {
    let e = Episode { id: "9".into(), title: " Episode 1 ".into(), is_series: true };
    assert_eq!(e.display_text(), "Episode 1");
    let s = Stream { url: "http://x".into(), title: "720p HD ".into() };
    assert_eq!(s.display_text(), "720p HD");
}

#[test]
fn clones_keep_values() {
    let m = Movie { id: "a".into(), title: "b".into(), total_episodes: Some("3".into()) };
    let c = m.clone();
    assert_eq!((c.id, c.title, c.total_episodes), (m.id, m.title, m.total_episodes));
    let meta = Meta { thumb_url: Some("t".into()), data: vec![("k".into(), "v".into())] };
    let c = meta.clone();
    assert_eq!(c.thumb_url, meta.thumb_url);
    assert_eq!(c.data, meta.data);
    let e = Meta::empty();
    assert!(e.thumb_url.is_none() && e.data.is_empty());
}
