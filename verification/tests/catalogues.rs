use animeku::ext::nontonanime::anime::{category_has_flag_exec, posts_have_category_exec, AnimeExt};
use animeku::ext::nontonanime::movie::MovieExt;
use animeku::ext::nontonanime::{
    finalize_streams, is_http_link, resolved_link, stream_entry, stream_list, stream_request,
    stream_sources, StreamSource, USER_PASS,
};
use animeku::json::{Json, JsonValue};
use animeku::models::{Episode, Movie, Stream};
use animeku::request::Method;

fn to_json(v: &serde_json::Value) -> Json {
    let value = match v {
        serde_json::Value::Null => JsonValue::Null,
        serde_json::Value::Bool(b) => JsonValue::Bool(*b),
        serde_json::Value::Number(n) => JsonValue::Number(n.as_u64()),
        serde_json::Value::String(s) => JsonValue::Str(s.clone()),
        serde_json::Value::Array(items) => JsonValue::Array(items.iter().map(to_json).collect()),
        serde_json::Value::Object(map) => {
            JsonValue::Object(map.iter().map(|(k, v)| (k.clone(), to_json(v))).collect())
        }
    };
    Json { value, text: v.to_string() }
}

fn parse(text: &str) -> Json {
    to_json(&serde_json::from_str::<serde_json::Value>(text).unwrap())
}

fn header<'a>(headers: &'a [(String, String)], name: &str) -> Option<&'a str> {
    headers.iter().find(|(k, _)| k == name).map(|(_, v)| v.as_str())
}

#[test]
fn json_lookup_reads_members() {
    let j = parse(r#"{"a": 5, "b": "x", "c": [1, 2], "d": -3}"#);
    assert_eq!(j.get("a").and_then(|v| v.as_u64()), Some(5));
    assert_eq!(j.get("b").and_then(|v| v.as_str()).map(|s| s.as_str()), Some("x"));
    assert_eq!(j.get("c").and_then(|v| v.as_array()).map(|a| a.len()), Some(2));
    assert_eq!(j.get("d").and_then(|v| v.as_u64()), None);
    assert!(j.get("missing").is_none());
    assert_eq!(j.get("b").map(|v| v.text.as_str()), Some("\"x\""));
}

#[test]
fn anime_search_request_is_a_form_post() {
    let ext = AnimeExt::new();
    let r = ext.search_request("naruto", 2);
    assert!(matches!(r.method, Method::Post));
    assert_eq!(
        r.url,
        "https://animeku.my.id/nontonanime-v77/phalcon/api/search_category_collection/v7_1/"
    );
    let body = "search=naruto&page=2&count=20&lang=All&isAPKvalid=true";
    assert_eq!(r.body.as_deref(), Some(body));
    assert_eq!(header(&r.headers, "Content-Length"), Some(body.len().to_string().as_str()));
    assert_eq!(header(&r.headers, "Host"), Some("animeku.my.id"));
    assert_eq!(r.headers.len(), 8);
    assert_eq!(r.headers[2].0, "Accept-Encoding");
}

#[test]
fn anime_search_skips_reserved_channels_and_reads_counts() {
    let ext = AnimeExt::new();
    let j = parse(
        r#"{"count_total": 3, "categories": [
            {"cid": 1, "category_name": "Home", "count_anime": "9"},
            {"cid": 77, "category_name": "One Piece", "count_anime": "1000"},
            {"cid": 2, "category_name": "Movies"},
            {"category_name": "no id"},
            {"cid": 78, "category_name": "Bleach", "count_anime": 12}
        ]}"#,
    );
    let (movies, total) = ext.search_response(&j);
    assert_eq!(total, 3);
    assert_eq!(movies.len(), 2);
    assert_eq!(movies[0].id, "77");
    assert_eq!(movies[0].title, "One Piece");
    assert_eq!(movies[0].total_episodes.as_deref(), Some("1000"));
    assert_eq!(movies[1].id, "78");
    assert_eq!(movies[1].total_episodes.as_deref(), Some("1"));
    for m in &movies {
        assert!(m.id != "1" && m.id != "2");
    }
}

#[test]
fn anime_search_without_categories_is_empty() {
    let ext = AnimeExt::new();
    let (movies, total) = ext.search_response(&parse(r#"{"status": "ok"}"#));
    assert!(movies.is_empty());
    assert_eq!(total, 0);
}

#[test]
fn anime_episodes_read_posts_and_description() {
    let ext = AnimeExt::new();
    let movie = Movie { id: "77".into(), title: "One Piece".into(), total_episodes: None };
    let r = ext.episodes_request(&movie);
    assert_eq!(r.body.as_deref(), Some("id=77&isAPKvalid=true"));
    let j = parse(
        r#"{"category": {"img_url": " http://img/x.jpg ", "category_name": "One Piece",
             "years": 1999, "rating": "9.0", "ongoing": 1},
            "posts": [{"channel_id": 5, "category_id,": 77, "channel_name": " Episode 1 "},
                      {"channel_name": "x"},
                      {"channel_id": 6, "category_id,": 77, "channel_name": "Episode 2"}]}"#,
    );
    let (episodes, meta) = ext.episodes_response(&j);
    assert_eq!(episodes.len(), 2);
    assert_eq!(episodes[0].id, "5");
    assert_eq!(episodes[0].title, "Episode 1");
    assert!(episodes[0].is_series);
    assert_eq!(meta.thumb_url.as_deref(), Some("http://img/x.jpg"));
    assert_eq!(
        meta.data,
        vec![
            ("Judul".to_string(), "One Piece".to_string()),
            ("Tahun".to_string(), "1999".to_string()),
            ("Rating".to_string(), "9.0".to_string()),
            ("On-Going".to_string(), "true".to_string()),
        ]
    );
}

#[test]
fn film_search_stores_descriptions_for_the_episode_step() {
    let mut ext = MovieExt::new();
    let r = ext.search_request("your name", 1);
    assert_eq!(
        r.url,
        "https://animeku.my.id/nontonanime-v77/phalcon/api/search_anime_movie/v7_1/"
    );
    assert_eq!(r.headers[6].0, "Accept-Encoding");
    let j = parse(
        r#"{"posts": [{"channel_id": 25107, "channel_name": "Kimi to Nami ni Noretara Movie",
            "img_url": "https://cdn/x.jpg", "rating": "9.00", "years": 2021, "lang": "ID"}]}"#,
    );
    let (movies, total) = ext.search_response(&j);
    assert_eq!(total, 1);
    assert_eq!(movies[0].id, "25107");
    assert_eq!(movies[0].title, "Kimi to Nami ni Noretara Movie");
    let (episodes, meta) = ext.get_episodes(&movies[0]);
    assert_eq!(episodes.len(), 1);
    assert_eq!(episodes[0].id, "25107");
    assert!(!episodes[0].is_series);
    assert_eq!(meta.thumb_url.as_deref(), Some("https://cdn/x.jpg"));
    assert_eq!(
        meta.data,
        vec![
            ("Judul".to_string(), "Kimi to Nami ni Noretara Movie".to_string()),
            ("Rating".to_string(), "9.00".to_string()),
            ("years".to_string(), "2021".to_string()),
        ]
    );
    let other = Movie { id: "1".into(), title: "x".into(), total_episodes: None };
    let (_, meta) = ext.get_episodes(&other);
    assert!(meta.thumb_url.is_none() && meta.data.is_empty());
}

#[test]
fn stream_request_names_the_episode() {
    let e = Episode { id: "5".into(), title: "E".into(), is_series: true };
    let r = stream_request(&e);
    assert_eq!(r.body.as_deref(), Some("channel_id=5&isAPKvalid=true"));
    assert_eq!(
        r.url,
        "https://animeku.my.id/nontonanime-v77/phalcon/api/get_post_description_secure/v9_4/"
    );
}

#[test]
fn stream_sources_add_credentials_and_mark_redirects() {
    let j = parse(
        r#"{"channel_url": "\"http://whatbox.ca/f.mp4\"",
            "channel_url_hd": " https://nontonanime.org/v?url=https://p&index=2 ",
            "channel_url_fhd": 5}"#,
    );
    let sources = stream_sources(&j);
    assert_eq!(sources.len(), 2);
    assert_eq!(sources[0].label, "360p SD");
    assert_eq!(sources[0].url, format!("http://{}@whatbox.ca/f.mp4", USER_PASS));
    assert!(!sources[0].resolve);
    assert_eq!(sources[1].label, "720p HD");
    assert_eq!(sources[1].url, "https://nontonanime.org/v?url=https://p&index=2");
    assert!(sources[1].resolve);
}

#[test]
fn stream_entries_need_http_and_show_sizes() {
    assert!(is_http_link("https://a"));
    let s = stream_entry("720p HD", "https://a/b".into(), Some("1.50 MiB".into())).unwrap();
    assert_eq!(s.title, "720p HD (1.50 MiB)");
    assert_eq!(s.url, "https://a/b");
    let s = stream_entry("360p SD", "http://a".into(), None).unwrap();
    assert_eq!(s.title, "360p SD");
    assert!(stream_entry("360p SD", "ftp://a".into(), None).is_none());
}

#[test]
fn a_single_film_link_is_labelled_hd() {
    let one = vec![Stream { url: "u".into(), title: "360p SD (3 MiB)".into() }];
    let r = finalize_streams(one, false);
    assert_eq!(r[0].title, "720p HD (3 MiB)");
    assert_eq!(r[0].url, "u");
    let one = vec![Stream { url: "u".into(), title: "360p SD".into() }];
    assert_eq!(finalize_streams(one, true)[0].title, "360p SD");
    let two = vec![
        Stream { url: "a".into(), title: "360p SD".into() },
        Stream { url: "b".into(), title: "720p HD".into() },
    ];
    let r = finalize_streams(two, false);
    assert_eq!(r.len(), 2);
    assert_eq!(r[0].title, "360p SD");
}

#[test]
fn an_episode_list_category_must_carry_its_flag() {
    assert!(category_has_flag_exec(&parse(r#"{"category": {"ongoing": 0}}"#)));
    assert!(category_has_flag_exec(&parse(r#"{"category": "none"}"#)));
    assert!(category_has_flag_exec(&parse(r#"{"posts": []}"#)));
    assert!(!category_has_flag_exec(&parse(r#"{"category": {"genre": "x"}}"#)));
    let ext = AnimeExt::new();
    let (episodes, meta) = ext.episodes_response(&parse(r#"{"category": {"ongoing": 0}, "posts": 3}"#));
    assert!(episodes.is_empty());
    assert_eq!(meta.data, vec![("On-Going".to_string(), "false".to_string())]);
}

#[test]
fn an_episode_list_post_must_carry_its_category() {
    assert!(posts_have_category_exec(&parse(
        r#"{"posts": [{"channel_id": 5, "category_id,": 9}, {"channel_name": "x"}]}"#
    )));
    assert!(posts_have_category_exec(&parse(r#"{"posts": "none"}"#)));
    assert!(posts_have_category_exec(&parse(r#"{"category": {"ongoing": 1}}"#)));
    assert!(!posts_have_category_exec(&parse(
        r#"{"posts": [{"channel_id": 5, "category_id,": 9}, {"channel_id": 6, "category_id": 9}]}"#
    )));
    assert!(!posts_have_category_exec(&parse(
        r#"{"posts": [{"channel_id": 6, "category_id,": "9"}]}"#
    )));
}

#[test]
fn a_followed_link_is_replaced_only_when_following_succeeded() {
    let followed = StreamSource { label: "720p HD".into(), url: "https://nontonanime/r".into(), resolve: true };
    assert_eq!(resolved_link(&followed, Some("https://direct/v".into())), "https://direct/v");
    assert_eq!(resolved_link(&followed, None), "https://nontonanime/r");
    let plain = StreamSource { label: "360p SD".into(), url: "https://x/v".into(), resolve: false };
    assert_eq!(resolved_link(&plain, Some("https://other".into())), "https://x/v");
}

#[test]
fn a_link_list_keeps_http_links_in_resolution_order() {
    let j = parse(
        r#"{"channel_url": "http://a.whatbox.ca/x", "channel_url_hd": "https://nontonanime.id/r",
            "channel_url_fhd": "ftp://z/y"}"#,
    );
    let sources = stream_sources(&j);
    assert_eq!(sources.len(), 3);
    let resolved = vec![None, Some("https://direct/hd".to_string()), None];
    let sizes = vec![Some("3 MiB".to_string()), None, None];
    let streams = stream_list(&sources, &resolved, &sizes, true);
    assert_eq!(streams.len(), 2);
    assert_eq!(streams[0].title, "360p SD (3 MiB)");
    assert_eq!(streams[0].url, format!("http://{}@a.whatbox.ca/x", USER_PASS));
    assert_eq!(streams[1].title, "720p HD");
    assert_eq!(streams[1].url, "https://direct/hd");
    let unresolved = vec![None, None, None];
    let none = vec![None, None, None];
    let streams = stream_list(&sources, &unresolved, &none, true);
    assert_eq!(streams.len(), 2);
    assert_eq!(streams[1].url, "https://nontonanime.id/r");
}

#[test]
fn a_film_with_one_link_lists_it_as_hd() {
    let j = parse(r#"{"channel_url": " https://cdn/x.mp4 "}"#);
    let sources = stream_sources(&j);
    let streams = stream_list(&sources, &vec![None], &vec![Some("1 KiB".to_string())], false);
    assert_eq!(streams.len(), 1);
    assert_eq!(streams[0].title, "720p HD (1 KiB)");
    assert_eq!(streams[0].url, "https://cdn/x.mp4");
    let streams = stream_list(&sources, &vec![None], &vec![None], true);
    assert_eq!(streams[0].title, "360p SD");
}
