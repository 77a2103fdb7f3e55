use animeku::animeku::{
    after_playback, AfterPlayback, AnimekuCli, EpisodeStep, Playback, SearchStep, StreamStep,
};
use animeku::ext::tenflix::{EmbedStep, Probe, ServerSource, TenflixError, TenflixExt};
use animeku::ext::{get_ext, Extractor};
use animeku::models::{Episode, Meta, Movie, Stream};
use animeku::request::Method;
use animeku::util::{
    filesize_label, filesize_wanted, get_iframe_src, poster_image, real_url_from_page,
    real_url_plan, RealUrlError, RealUrlPlan,
};

fn movie(id: &str, title: &str) -> Movie {
    Movie { id: id.into(), title: title.into(), total_episodes: None }
}

#[test]
fn iframe_sources_are_found_by_position() {
    let html = r#"<p><iframe width="5" src="https://a/1"></iframe><iframe src="https://b/2" x></iframe>"#;
    assert_eq!(get_iframe_src(html, 0).as_deref(), Some("https://a/1"));
    assert_eq!(get_iframe_src(html, 1).as_deref(), Some("https://b/2"));
    assert_eq!(get_iframe_src(html, 2), None);
    assert_eq!(get_iframe_src("<p>none</p>", 0), None);
}

#[test]
fn redirect_links_are_split_into_page_and_position() {
    match real_url_plan("https://nontonanime.org/v?url=https://page/x&index=2") {
        RealUrlPlan::Fetch { page, index } => {
            assert_eq!(page, "https://page/x");
            assert_eq!(index.as_deref(), Some("2"));
        }
        RealUrlPlan::Keep => panic!("expected a page to load"),
    }
    match real_url_plan("https://nontonanime.org/v?url=https://page/x") {
        RealUrlPlan::Fetch { page, index } => {
            assert_eq!(page, "https://page/x");
            assert_eq!(index, None);
        }
        RealUrlPlan::Keep => panic!("expected a page to load"),
    }
    assert!(matches!(real_url_plan("https://direct/x.mp4"), RealUrlPlan::Keep));
}

#[test]
fn a_loaded_redirect_page_gives_the_frame_source() {
    let body = r#"<iframe a src="https://one"><iframe b src="https://two">"#;
    assert_eq!(real_url_from_page("orig", "2", body).ok().as_deref(), Some("https://two"));
    assert_eq!(real_url_from_page("orig", "1", body).ok().as_deref(), Some("https://one"));
    assert_eq!(real_url_from_page("orig", "3", body).ok().as_deref(), Some("orig"));
    assert!(matches!(real_url_from_page("orig", "x", body), Err(RealUrlError::BadIndex)));
}

#[test]
fn file_sizes_are_labelled_in_binary_units() {
    assert!(!filesize_wanted("https://nontonanime.org/x"));
    assert!(filesize_wanted("https://cdn/x"));
    assert_eq!(filesize_label(Some("1024")).as_deref(), Some("1 KiB"));
    assert_eq!(filesize_label(Some("1572864")).as_deref(), Some("1.50 MiB"));
    assert_eq!(filesize_label(Some("500")).as_deref(), Some("500 B"));
    assert_eq!(filesize_label(Some("big")), None);
    assert_eq!(filesize_label(None), None);
}

#[test]
fn tenflix_search_reads_titles_years_and_kinds() {
    let ext = TenflixExt::new();
    let r = ext.search_request("dune", 3);
    assert!(matches!(r.method, Method::Get));
    assert_eq!(r.url, "https://tenflix.org/page/3/?s=dune");
    assert_eq!(r.headers.len(), 4);
    let body = r#"<a href="https://tenflix.org/movie/dune">Dune &amp; Co</a></div><div class="meta"><span class="year">2021</span>"#;
    let (movies, n) = ext.search_response(body);
    assert_eq!(n, 1);
    assert_eq!(movies[0].id, "movie/dune");
    assert_eq!(movies[0].title, "Dune & Co 2021 (Movie)");
    let body = r#"<a href="https://tenflix.org/tvshows/arcane"> Arcane </a></div><div class="meta"><span class="year">2024</span>"#;
    let (movies, n) = ext.search_response(body);
    assert_eq!(n, 1);
    assert_eq!(movies[0].id, "tvshows/arcane");
    assert_eq!(movies[0].title, "Arcane  2024 (TV)");
    let (movies, n) = ext.search_response("<p>no results</p>");
    assert_eq!(n, 0);
    assert!(movies.is_empty());
}

#[test]
fn tenflix_series_pages_list_episodes_and_facts() {
    let ext = TenflixExt::new();
    let series = movie("tvshows/arcane", "Arcane");
    assert_eq!(ext.episodes_request(&series).url, "https://tenflix.org/tvshows/arcane");
    let body = r#"<div class='poster'><img class="image" src='https://img/p.jpg'></div><div class='numerando'>1 - 1</div><div class='episodiotitle'><a href='https://tenflix.org/episodes/a-1'>Welcome</a></div><div class='custom_fields'><b class='variante'>Judul asli</b><span class='valor'>Arcane</span>"#;
    let (episodes, meta) = ext.episodes_response(&series, body);
    assert_eq!(episodes.len(), 1);
    assert_eq!(episodes[0].id, "episodes/a-1");
    assert_eq!(episodes[0].title, "Season 1 - 1: Welcome");
    assert!(episodes[0].is_series);
    assert_eq!(meta.thumb_url.as_deref(), Some("https://img/p.jpg"));
    assert_eq!(meta.data, vec![("Judul asli".to_string(), "Arcane".to_string())]);
}

#[test]
fn tenflix_film_pages_are_their_own_episode() {
    let ext = TenflixExt::new();
    let film = movie("movie/dune", "Dune 2021 (Movie)");
    let (episodes, meta) = ext.episodes_response(&film, "<p>nothing</p>");
    assert_eq!(episodes.len(), 1);
    assert_eq!(episodes[0].id, "movie/dune");
    assert!(episodes[0].is_series);
    assert!(meta.thumb_url.is_none());
    assert!(meta.data.is_empty());
}

#[test]
fn tenflix_download_and_embed_links() {
    let ext = TenflixExt::new();
    let e = Episode { id: "episodes/a-1".into(), title: "x".into(), is_series: true };
    let r = ext.streams_request(&e);
    assert_eq!(r.url, "https://tenflix.org/episodes/a-1");
    assert_eq!(r.headers.len(), 3);
    let body = r#"<a href="https://tenflix.org/links/abc">1</a><a href='https://tenflix.org/links/def'>2</a>"#;
    assert_eq!(
        ext.download_links(body),
        vec!["https://tenflix.org/links/abc".to_string(), "https://tenflix.org/links/def".to_string()]
    );
    let page = r#"<a href="https://kotakajaib.me/file/XyZ">dl</a>"#;
    assert_eq!(ext.embed_link(page).as_deref(), Some("https://kotakajaib.me/embed/XyZ"));
    assert_eq!(ext.embed_link("<p></p>"), None);
    assert!(matches!(ext.check_request("https://s/x").method, Method::Head));
    assert_eq!(ext.link_request("https://s/y").url, "https://s/y");
}

#[test]
fn tenflix_servers_decode_base64_links() {
    let ext = TenflixExt::new();
    // "aHR0cHM6Ly9zMS9h" is the base64 of "https://s1/a".
    let body = r#"<li class="item" id="privserver" data-frame="aHR0cHM6Ly9zMS9h">Private</li><li class="item" id="fembed" data-frame="aHR0cHM6Ly9zMS9h">Fembed</li>"#;
    let servers = match ext.servers(body) {
        Ok(v) => v,
        Err(_) => panic!("valid base64 refused"),
    };
    assert_eq!(servers.len(), 2);
    assert_eq!(servers[0].server, "privserver");
    assert_eq!(servers[0].url, "https://s1/a");
    assert!(servers[0].private);
    assert_eq!(servers[1].label, "Fembed");
    assert!(!servers[1].private);
    let bad = r#"<li class="item" id="x" data-frame="!!!">X</li>"#;
    assert!(matches!(ext.servers(bad), Err(TenflixError::BadServerLink)));
}

#[test]
fn checked_servers_become_streams() {
    let ext = TenflixExt::new();
    let private = ServerSource {
        server: "priv".into(),
        label: "P".into(),
        url: "https://page".into(),
        private: true,
    };
    let page = Some(r#"sources: [{file: "https://media/x.m3u8"}]"#.to_string());
    let s = ext.server_stream(&private, Probe::PrivatePage(page)).unwrap();
    assert_eq!(s.url, "https://media/x.m3u8");
    assert_eq!(s.title, "priv: P");
    let s = ext.server_stream(&private, Probe::PrivatePage(None)).unwrap();
    assert_eq!(s.url, "https://page");
    let public = ServerSource { server: "a".into(), label: "B".into(), url: "https://u".into(), private: false };
    assert!(ext.server_stream(&public, Probe::Head(Some(false))).is_none());
    assert_eq!(ext.server_stream(&public, Probe::Head(Some(true))).unwrap().url, "https://u");
    assert!(ext.server_stream(&public, Probe::Head(None)).is_some());
}

#[test]
fn search_types_choose_catalogues() {
    assert!(matches!(get_ext(0), Extractor::Anime(_)));
    assert!(matches!(get_ext(1), Extractor::Movie(_)));
    assert!(matches!(get_ext(2), Extractor::Tenflix(_)));
    assert!(matches!(get_ext(9), Extractor::Tenflix(_)));
}

fn choices(step: SearchStep) -> Vec<Movie> {
    match step {
        SearchStep::Choose(v) => v,
        _ => panic!("expected a menu"),
    }
}

#[test]
fn a_search_pages_through_stored_results() {
    let mut cli = AnimekuCli::new(get_ext(2));
    let mut state = AnimekuCli::search_start();
    assert!(matches!(cli.search_next(&mut state), SearchStep::Fetch(1)));
    assert!(cli.search_store(1, vec![movie("movie/a", "A")]));
    let menu = choices(cli.search_next(&mut state));
    assert_eq!(menu.len(), 2);
    assert_eq!(menu[0].id, "movie/a");
    assert_eq!(menu[1].id, "2");
    assert_eq!(menu[1].title, "Selanjutnya (Halaman 2)");
    // Going on asks for page 2, which is empty: the search steps back to page 1,
    // now the last one, without asking for it again.
    assert!(AnimekuCli::search_choose(&mut state, menu[1].clone()).is_none());
    assert_eq!(state.page, 2);
    assert!(matches!(cli.search_next(&mut state), SearchStep::Fetch(2)));
    assert!(!cli.search_store(2, vec![]));
    let menu = choices(cli.search_next(&mut state));
    assert_eq!(state.page, 1);
    assert!(state.is_latest);
    assert_eq!(menu.len(), 1);
    let chosen = AnimekuCli::search_choose(&mut state, menu[0].clone()).unwrap();
    assert_eq!(chosen.id, "movie/a");
}

#[test]
fn a_later_page_offers_the_way_back() {
    let mut cli = AnimekuCli::new(get_ext(2));
    let mut state = AnimekuCli::search_start();
    cli.search_store(1, vec![movie("movie/a", "A")]);
    cli.search_store(2, vec![movie("movie/b", "B")]);
    state.page = 2;
    let menu = choices(cli.search_next(&mut state));
    assert_eq!(menu.len(), 3);
    assert_eq!(menu[1].id, "1");
    assert_eq!(menu[1].title, "Sebelumnnya (Halaman 1)");
    assert_eq!(menu[2].title, "Selanjutnya (Halaman 3)");
    assert!(AnimekuCli::search_choose(&mut state, menu[1].clone()).is_none());
    assert_eq!(state.page, 1);
    assert!(AnimekuCli::search_choose(&mut state, menu[2].clone()).is_none());
    assert_eq!(state.page, 2);
}

#[test]
fn an_empty_first_page_means_nothing_was_found() {
    let mut cli = AnimekuCli::new(get_ext(0));
    let mut state = AnimekuCli::search_start();
    cli.search_store(1, vec![]);
    assert!(matches!(cli.search_next(&mut state), SearchStep::NotFound));
}

#[test]
fn episode_listings_show_facts_and_count() {
    let mut cli = AnimekuCli::new(get_ext(0));
    assert!(!cli.episodes_cached("77"));
    let eps = vec![
        Episode { id: "5".into(), title: "E1".into(), is_series: true },
        Episode { id: "6".into(), title: "E2".into(), is_series: true },
    ];
    let meta = Meta { thumb_url: Some("t".into()), data: vec![("Judul".into(), "X".into())] };
    cli.store_episodes("77".into(), eps, meta);
    assert!(cli.episodes_cached("77"));
    let l = cli.episode_listing("77").unwrap();
    assert_eq!(l.episodes.len(), 2);
    assert_eq!(l.thumb_url.as_deref(), Some("t"));
    assert_eq!(
        l.facts,
        vec![("Judul".to_string(), "X".to_string()), ("Episodes".to_string(), "2".to_string())]
    );
    let meta = Meta { thumb_url: None, data: vec![("Total EPISODE".into(), "12".into())] };
    cli.store_episodes("78".into(), vec![Episode { id: "1".into(), title: "a".into(), is_series: true }], meta);
    assert_eq!(cli.episode_listing("78").unwrap().facts.len(), 1);
    cli.store_episodes("79".into(), vec![], Meta::empty());
    assert!(cli.episode_listing("79").is_none());
}

#[test]
fn stream_listings_read_what_was_stored() {
    let mut cli = AnimekuCli::new(get_ext(1));
    assert!(!cli.streams_cached("5"));
    cli.store_streams("5".into(), vec![Stream { url: "u".into(), title: "t".into() }]);
    assert!(cli.streams_cached("5"));
    let l = cli.stream_listing("5").unwrap();
    assert_eq!(l[0].url, "u");
    cli.store_streams("6".into(), vec![]);
    assert!(cli.stream_listing("6").is_none());
}

#[test]
fn playback_outcomes_decide_what_follows() {
    assert!(matches!(after_playback(Playback::Unsupported, true), AfterPlayback::ChooseAgain));
    assert!(matches!(after_playback(Playback::Mpv(true), false), AfterPlayback::ChooseAgain));
    assert!(matches!(after_playback(Playback::Mpv(false), true), AfterPlayback::Stop));
    assert!(matches!(after_playback(Playback::Opened, true), AfterPlayback::AskExit));
    assert!(matches!(after_playback(Playback::Opened, false), AfterPlayback::Stop));
    assert!(matches!(after_playback(Playback::OpenFailed, true), AfterPlayback::Stop));
}

#[test]
fn a_pick_returns_the_shown_title_or_moves_the_page() {
    let mut cli = AnimekuCli::new(get_ext(2));
    let mut state = AnimekuCli::search_start();
    cli.search_store(1, vec![movie("movie/a", "A"), movie("movie/b", "B")]);
    cli.search_store(2, vec![movie("movie/c", "C")]);
    state.page = 2;
    let menu = choices(cli.search_next(&mut state));
    assert_eq!(menu.len(), 3);
    assert!(AnimekuCli::search_pick(&mut state, &menu, 1).is_none());
    assert_eq!(state.page, 1);
    let menu = choices(cli.search_next(&mut state));
    assert_eq!(menu.len(), 3);
    let picked = AnimekuCli::search_pick(&mut state, &menu, 1).unwrap();
    assert_eq!(picked.id, "movie/b");
    assert_eq!(picked.title, "B");
    assert_eq!(state.page, 1);
    assert!(AnimekuCli::search_pick(&mut state, &menu, 2).is_none());
    assert_eq!(state.page, 2);
}

#[test]
fn a_stored_page_is_not_asked_for_again() {
    let mut cli = AnimekuCli::new(get_ext(1));
    let mut state = AnimekuCli::search_start();
    assert!(matches!(cli.search_next(&mut state), SearchStep::Fetch(1)));
    cli.search_store(1, vec![movie("10", "A")]);
    state.page = 2;
    assert!(matches!(cli.search_next(&mut state), SearchStep::Fetch(2)));
    cli.search_store(2, vec![movie("11", "B")]);
    cli.store_streams("5".into(), vec![]);
    state.page = 1;
    let menu = choices(cli.search_next(&mut state));
    assert_eq!(menu[0].id, "10");
    state.page = 2;
    let menu = choices(cli.search_next(&mut state));
    assert_eq!(menu[0].id, "11");
    assert!(cli.streams_cached("5"));
    state.page = 3;
    assert!(matches!(cli.search_next(&mut state), SearchStep::Fetch(3)));
}

#[test]
fn the_first_download_page_with_an_embed_link_is_used() {
    let ext = TenflixExt::new();
    let links = vec!["https://tenflix.org/links/a".to_string(), "https://tenflix.org/links/b".to_string()];
    let mut bodies: Vec<String> = vec![];
    match ext.embed_search_step(&links, &bodies) {
        EmbedStep::Fetch(l) => assert_eq!(l, "https://tenflix.org/links/a"),
        _ => panic!("expected the first link"),
    }
    bodies.push("<p>nothing</p>".into());
    match ext.embed_search_step(&links, &bodies) {
        EmbedStep::Fetch(l) => assert_eq!(l, "https://tenflix.org/links/b"),
        _ => panic!("expected the second link"),
    }
    bodies.push(r#"<a href="https://kotakajaib.me/file/Q1">x</a>"#.into());
    match ext.embed_search_step(&links, &bodies) {
        EmbedStep::Found(e) => assert_eq!(e, "https://kotakajaib.me/embed/Q1"),
        _ => panic!("expected an embed page"),
    }
    let empty = vec!["<p></p>".to_string(), "<p></p>".to_string()];
    assert!(matches!(ext.embed_search_step(&links, &empty), EmbedStep::NotFound));
    assert!(matches!(ext.embed_search_step(&vec![], &vec![]), EmbedStep::NotFound));
}

#[test]
fn probed_servers_make_the_stream_list() {
    let ext = TenflixExt::new();
    let servers = vec![
        ServerSource { server: "privA".into(), label: "P".into(), url: "https://page".into(), private: true },
        ServerSource { server: "b".into(), label: "B".into(), url: "https://b".into(), private: false },
        ServerSource { server: "c".into(), label: "C".into(), url: "https://c".into(), private: false },
    ];
    let probes = vec![
        Probe::PrivatePage(Some(r#"file: 'https://media/a.mp4'"#.to_string())),
        Probe::Head(Some(false)),
        Probe::Head(None),
    ];
    let streams = ext.server_list(&servers, &probes);
    assert_eq!(streams.len(), 2);
    assert_eq!(streams[0].url, "https://media/a.mp4");
    assert_eq!(streams[0].title, "privA: P");
    assert_eq!(streams[1].url, "https://c");
    assert_eq!(streams[1].title, "c: C");
}

#[test]
fn episodes_are_asked_for_only_until_stored() {
    let mut cli = AnimekuCli::new(get_ext(0));
    assert!(matches!(cli.episode_step("77"), EpisodeStep::Fetch));
    let eps = vec![Episode { id: "5".into(), title: "E1".into(), is_series: true }];
    cli.store_episodes("77".into(), eps, Meta::default());
    match cli.episode_step("77") {
        EpisodeStep::Show(l) => {
            assert_eq!(l.episodes.len(), 1);
            assert_eq!(l.facts, vec![("Episodes".to_string(), "1".to_string())]);
        }
        _ => panic!("expected the stored listing"),
    }
    cli.store_streams("5".into(), vec![]);
    assert!(matches!(cli.episode_step("77"), EpisodeStep::Show(_)));
    cli.store_episodes("78".into(), vec![], Meta::default());
    assert!(matches!(cli.episode_step("78"), EpisodeStep::NoEpisodes));
    assert!(matches!(cli.episode_step("79"), EpisodeStep::Fetch));
}

#[test]
fn links_are_asked_for_only_until_stored() {
    let mut cli = AnimekuCli::new(get_ext(1));
    assert!(matches!(cli.stream_step("5"), StreamStep::Fetch));
    cli.store_streams("5".into(), vec![Stream { url: "https://u".into(), title: "t".into() }]);
    match cli.stream_step("5") {
        StreamStep::Show(v) => assert_eq!(v[0].url, "https://u"),
        _ => panic!("expected the stored links"),
    }
    cli.store_streams("6".into(), vec![]);
    assert!(matches!(cli.stream_step("6"), StreamStep::NoLinks));
    assert!(matches!(cli.stream_step("5"), StreamStep::Show(_)));
}

#[test]
fn a_poster_is_drawn_only_from_bytes_that_decode() {
    assert!(poster_image(None).is_none());
    assert!(poster_image(Some(b"<html>not found</html>".to_vec())).is_none());
    let mut png = Vec::new();
    image::DynamicImage::new_rgb8(2, 3)
        .write_to(&mut std::io::Cursor::new(&mut png), image::ImageOutputFormat::Png)
        .unwrap();
    let img = poster_image(Some(png)).unwrap();
    assert_eq!(img.width(), 2);
    assert_eq!(img.height(), 3);
}

#[test]
fn records_have_empty_defaults() {
    let m = Movie::default();
    assert!(m.id.is_empty() && m.title.is_empty() && m.total_episodes.is_none());
    let e = Episode::default();
    assert!(e.id.is_empty() && !e.is_series);
    let s = Stream::default();
    assert!(s.url.is_empty() && s.title.is_empty());
    let meta = Meta::default();
    assert!(meta.thumb_url.is_none() && meta.data.is_empty());
    assert_eq!(format!("{:?}", Stream { url: "u".into(), title: "t".into() }), "Stream { url: \"u\", title: \"t\" }");
}
