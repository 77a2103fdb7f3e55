//! The `tenflix.org` web catalogue: its pages are read with regular
//! expressions.

use vstd::prelude::*;
use vstd::utf8::{decode_utf8, valid_utf8};

use crate::bindings::{
    base64_decode, decode_html_entities, spec_base64_decode, spec_decode_html_entities,
    utf8_string,
};
use crate::models::{Episode, EpisodeView, Meta, MetaView, Movie, MovieView, Stream, StreamView};
use crate::request::{push_header, HttpRequest, HttpRequestView, Method};
use crate::text::{
    concatenate, contains, decimal, decimal_usize, replace, spec_contains, spec_replace,
    spec_starts_with, spec_trim, starts_with, trim,
};
use crate::util::{captures, captures_or_empty, group, group_of};

verus! {

/// A search result: group 1 is the page path, 2 the title, 3 the year.
pub const SEARCH_PATTERN: &'static str =
    r#"<a\s*href="https://tenflix.org/([^"]+)">\s*([^<]+)\s*</a>.*?*</div>.*?<div class="meta">.*?<span class="year">(\d+)</span>"#;

/// An episode of a series page: group 1 is the season, 2 the page path,
/// 3 the episode title.
pub const EPISODE_PATTERN: &'static str =
    r#"numerando['"]>\s*([^>]+)\s*<.*?episodiotitle.*?href=['"]https:\/\/tenflix.org\/([^>]+)['"]\s*>\s*([^>]+)\s*<"#;

/// The poster of a page: group 1 is its address.
pub const THUMB_PATTERN: &'static str = r#"poster['"]\s*>.*?image.*?src=['"]([^'"]+)"#;

/// A labelled fact of a page: group 1 is the label, 2 the value.
pub const META_PATTERN: &'static str =
    r#"custom_fields['"]\s*>.*?variante.*?>\s*([^>]+)\s*<.*?valor['"]\s*>.*?([^>]+)\s*<\/span"#;

/// A server of an embed page: group 1 is its id, 2 the base64 of its link,
/// 3 its label.
pub const SERVER_PATTERN: &'static str =
    r#"item.*?id=['"]([^'"]+).*?data-frame=['"]([^'"]+).*?>([^<]+)<"#;

/// The media file of a private server page: group 1 is its address.
pub const FILE_PATTERN: &'static str = r#"file\s*:\s*['"]([^'"]+)"#;

/// The file-host link of a download page: group 1 is the link.
pub const EMBED_LINK_PATTERN: &'static str =
    r#"href=['"](https:\/\/kotakajaib.me\/file\/[^/'"]+)"#;

/// A download page link of an episode page: group 1 is the link.
pub const DOWNLOAD_LINK_PATTERN: &'static str =
    r#"href=['"](https:\/\/tenflix.org\/links/[^/'"]+)"#;

/// The `tenflix.org` catalogue.
pub struct TenflixExt {}

/// Why a page of the catalogue could not be read.
pub enum TenflixError {
    /// A server link was not valid base64.
    BadServerLink,
}

/// The header lines of a request for a catalogue page.
pub open spec fn site_headers() -> Seq<(Seq<char>, Seq<char>)> {
    seq![
        ("Content-Type"@, "application/x-www-form-urlencoded"@),
        ("Host"@, "tenflix.org"@),
        ("Connection"@, "Keep-Alive"@),
        ("User-Agent"@, "okhttp/3.12.13"@),
    ]
}

/// The header lines of a request for a download, embed or server page.
pub open spec fn link_headers() -> Seq<(Seq<char>, Seq<char>)> {
    seq![
        ("Content-Type"@, "application/x-www-form-urlencoded"@),
        ("Connection"@, "Keep-Alive"@),
        ("User-Agent"@, "okhttp/3.12.13"@),
    ]
}

/// A request without a body.
pub open spec fn bare_request(method: Method, url: Seq<char>, site: bool) -> HttpRequestView {
    HttpRequestView {
        method,
        url,
        headers: if site {
            site_headers()
        } else {
            link_headers()
        },
        body: None,
    }
}

/// Builds a request without a body, with the catalogue page headers when
/// `site` holds and the link headers otherwise.
pub fn bare_request_exec(method: Method, url: String, site: bool) -> (r: HttpRequest)
    ensures
        r@ == bare_request(method, url@, site),
{
    let mut h: Vec<(String, String)> = Vec::new();
    push_header(&mut h, "Content-Type", "application/x-www-form-urlencoded");
    if site {
        push_header(&mut h, "Host", "tenflix.org");
    }
    push_header(&mut h, "Connection", "Keep-Alive");
    push_header(&mut h, "User-Agent", "okhttp/3.12.13");
    let r = HttpRequest { method, url, headers: h, body: None };
    assert(r@.headers =~= bare_request(method, url@, site).headers);
    r
}

/// The address of a catalogue page.
pub open spec fn page_url(path: Seq<char>) -> Seq<char> {
    "https://tenflix.org/"@ + path
}

/// The address of result page `page` of a search for `title`.
pub open spec fn search_url(title: Seq<char>, page: nat) -> Seq<char> {
    "https://tenflix.org/page/"@ + decimal(page) + "/?s="@ + title
}

/// The kind shown after a result: `Movie` for film paths, `TV` otherwise.
pub open spec fn result_kind(path: Seq<char>) -> Seq<char> {
    if spec_starts_with(path, "movie"@) {
        "Movie"@
    } else {
        "TV"@
    }
}

/// The title read from a search result capture.
pub open spec fn search_item(cap: Seq<Option<Seq<char>>>) -> Seq<MovieView> {
    match (group(cap, 1), group(cap, 2), group(cap, 3)) {
        (Some(path), Some(title), Some(year)) => seq![
            MovieView {
                id: path,
                title: spec_decode_html_entities(title) + " "@ + year + " ("@ + result_kind(path)
                    + ")"@,
                total_episodes: None,
            },
        ],
        _ => Seq::empty(),
    }
}

/// The titles read from search result captures, in order.
pub open spec fn search_items(caps: Seq<Seq<Option<Seq<char>>>>) -> Seq<MovieView>
    decreases caps.len(),
{
    if caps.len() == 0 {
        Seq::empty()
    } else {
        search_items(caps.drop_last()) + search_item(caps.last())
    }
}

/// The episode read from an episode capture of a series page.
pub open spec fn episode_item(cap: Seq<Option<Seq<char>>>) -> Seq<EpisodeView> {
    match (group(cap, 1), group(cap, 2), group(cap, 3)) {
        (Some(season), Some(path), Some(title)) => seq![
            EpisodeView { id: path, title: "Season "@ + season + ": "@ + title, is_series: true },
        ],
        _ => Seq::empty(),
    }
}

/// The episodes read from episode captures, in order.
pub open spec fn episode_items(caps: Seq<Seq<Option<Seq<char>>>>) -> Seq<EpisodeView>
    decreases caps.len(),
{
    if caps.len() == 0 {
        Seq::empty()
    } else {
        episode_items(caps.drop_last()) + episode_item(caps.last())
    }
}

/// The episodes of the page of `movie`: those listed, for a series (a path
/// starting with `tv`); the title itself, otherwise.
pub open spec fn page_episodes(movie: MovieView, body: Seq<char>) -> Seq<EpisodeView> {
    if spec_starts_with(movie.id, "tv"@) {
        episode_items(captures_or_empty(EPISODE_PATTERN@, body))
    } else {
        seq![EpisodeView { id: movie.id, title: movie.title, is_series: true }]
    }
}

/// The fact read from a fact capture: kept when its value is not blank.
pub open spec fn meta_item(cap: Seq<Option<Seq<char>>>) -> Seq<(Seq<char>, Seq<char>)> {
    match (group(cap, 1), group(cap, 2)) {
        (Some(k), Some(v)) => if spec_trim(v).len() != 0 {
            seq![(k, v)]
        } else {
            Seq::empty()
        },
        _ => Seq::empty(),
    }
}

/// The facts read from fact captures, in order.
pub open spec fn meta_items(caps: Seq<Seq<Option<Seq<char>>>>) -> Seq<(Seq<char>, Seq<char>)>
    decreases caps.len(),
{
    if caps.len() == 0 {
        Seq::empty()
    } else {
        meta_items(caps.drop_last()) + meta_item(caps.last())
    }
}

/// Group 1 of the first capture of `pattern` in `body`.
pub open spec fn first_group(pattern: Seq<char>, body: Seq<char>) -> Option<Seq<char>> {
    let caps = captures_or_empty(pattern, body);
    if caps.len() > 0 {
        group(caps[0], 1)
    } else {
        None
    }
}

/// The description of a page: its poster and its non-blank facts.
pub open spec fn page_meta(body: Seq<char>) -> MetaView {
    MetaView {
        thumb_url: first_group(THUMB_PATTERN@, body),
        data: meta_items(captures_or_empty(META_PATTERN@, body)),
    }
}

/// Group 1 of the first capture of `pattern` in `body`.
pub fn first_group_exec(pattern: &str, body: &str) -> (r: Option<String>)
    ensures
        r.deep_view() == first_group(pattern@, body@),
{
    let caps = captures(pattern, body);
    if caps.len() > 0 {
        group_of(&caps[0], 1)
    } else {
        None
    }
}

/// The download page links of an episode page.
pub open spec fn download_link_items(caps: Seq<Seq<Option<Seq<char>>>>) -> Seq<Seq<char>>
    decreases caps.len(),
{
    if caps.len() == 0 {
        Seq::empty()
    } else {
        download_link_items(caps.drop_last()) + match group(caps.last(), 1) {
            Some(l) => seq![l],
            None => Seq::empty(),
        }
    }
}

/// The embed page address of a download page: its file-host link, with
/// `file` replaced by `embed`.
pub open spec fn embed_link_spec(body: Seq<char>) -> Option<Seq<char>> {
    match first_group(EMBED_LINK_PATTERN@, body) {
        Some(l) => Some(spec_replace(l, "file"@, "embed"@)),
        None => None,
    }
}

/// A server offered by an embed page, before it is checked.
pub struct ServerSource {
    pub server: String,
    pub label: String,
    pub url: String,
    /// The server is private: its link is a page that names the media file.
    pub private: bool,
}

/// The mathematical value of a [`ServerSource`].
pub struct ServerSourceView {
    pub server: Seq<char>,
    pub label: Seq<char>,
    pub url: Seq<char>,
    pub private: bool,
}

impl View for ServerSource {
    type V = ServerSourceView;

    open spec fn view(&self) -> ServerSourceView {
        ServerSourceView {
            server: self.server@,
            label: self.label@,
            url: self.url@,
            private: self.private,
        }
    }
}

impl DeepView for ServerSource {
    type V = ServerSourceView;

    open spec fn deep_view(&self) -> ServerSourceView {
        self@
    }
}

/// The server read from a server capture: its link is the base64 text
/// decoded; it is skipped when the decoded bytes are not UTF-8, and the page
/// is refused (`None`) when the text is not base64.
pub open spec fn server_item(cap: Seq<Option<Seq<char>>>) -> Option<Seq<ServerSourceView>> {
    match (group(cap, 1), group(cap, 2), group(cap, 3)) {
        (Some(id), Some(frame), Some(label)) => match spec_base64_decode(frame) {
            Some(bytes) => if valid_utf8(bytes) {
                Some(
                    seq![
                        ServerSourceView {
                            server: id,
                            label,
                            url: decode_utf8(bytes),
                            private: spec_contains(id, "priv"@),
                        },
                    ],
                )
            } else {
                Some(Seq::empty())
            },
            None => None,
        },
        _ => Some(Seq::empty()),
    }
}

/// The servers read from server captures; none if any link is not base64.
pub open spec fn server_items(caps: Seq<Seq<Option<Seq<char>>>>) -> Option<Seq<ServerSourceView>>
    decreases caps.len(),
{
    if caps.len() == 0 {
        Some(Seq::empty())
    } else {
        match server_items(caps.drop_last()) {
            Some(prev) => match server_item(caps.last()) {
                Some(x) => Some(prev + x),
                None => None,
            },
            None => None,
        }
    }
}

/// What was learnt about a server before it is listed.
pub enum Probe {
    /// For a private server: its page, when it could be loaded.
    PrivatePage(Option<String>),
    /// For another server: whether a `HEAD` request succeeded, when it got an
    /// answer.
    Head(Option<bool>),
}

/// The mathematical value of a [`Probe`].
pub enum ProbeView {
    PrivatePage(Option<Seq<char>>),
    Head(Option<bool>),
}

impl View for Probe {
    type V = ProbeView;

    open spec fn view(&self) -> ProbeView {
        match self {
            Probe::PrivatePage(p) => ProbeView::PrivatePage(p.deep_view()),
            Probe::Head(h) => ProbeView::Head(*h),
        }
    }
}

impl DeepView for Probe {
    type V = ProbeView;

    open spec fn deep_view(&self) -> ProbeView {
        self@
    }
}

/// What a download page search needs next.
pub enum EmbedStep {
    /// Load this download page.
    Fetch(String),
    /// This embed page address was found.
    Found(String),
    /// No download page gives an embed page.
    NotFound,
}

/// The mathematical value of an [`EmbedStep`].
pub enum EmbedStepView {
    Fetch(Seq<char>),
    Found(Seq<char>),
    NotFound,
}

impl View for EmbedStep {
    type V = EmbedStepView;

    open spec fn view(&self) -> EmbedStepView {
        match self {
            EmbedStep::Fetch(l) => EmbedStepView::Fetch(l@),
            EmbedStep::Found(e) => EmbedStepView::Found(e@),
            EmbedStep::NotFound => EmbedStepView::NotFound,
        }
    }
}

/// The embed page address of the first of `bodies` that gives one.
pub open spec fn first_embed(bodies: Seq<Seq<char>>) -> Option<Seq<char>>
    decreases bodies.len(),
{
    if bodies.len() == 0 {
        None
    } else {
        match embed_link_spec(bodies[0]) {
            Some(e) => Some(e),
            None => first_embed(bodies.drop_first()),
        }
    }
}

/// The next step of the search for an embed page, where `bodies` are the
/// download pages of the first `bodies.len()` links, loaded in order: the
/// address of the first that gives one; else the next link to load; else
/// nothing.
pub open spec fn embed_search(links: Seq<Seq<char>>, bodies: Seq<Seq<char>>) -> EmbedStepView {
    match first_embed(bodies) {
        Some(e) => EmbedStepView::Found(e),
        None => if bodies.len() < links.len() {
            EmbedStepView::Fetch(links[bodies.len() as int])
        } else {
            EmbedStepView::NotFound
        },
    }
}

/// The stream a server gives after its probe.
pub open spec fn probed_stream(s: ServerSourceView, p: ProbeView) -> Option<StreamView> {
    match p {
        ProbeView::PrivatePage(page) => server_stream(s, page, None),
        ProbeView::Head(h) => server_stream(s, None, Some(h)),
    }
}

/// The streams of a list of servers, in order; `probes[i]` is what probing
/// server `i` returned.
pub open spec fn server_streams(servers: Seq<ServerSourceView>, probes: Seq<ProbeView>) -> Seq<
    StreamView,
>
    decreases servers.len(),
{
    if servers.len() == 0 {
        Seq::empty()
    } else {
        let n = servers.len() - 1;
        server_streams(servers.drop_last(), probes) + match probed_stream(servers[n], probes[n]) {
            Some(e) => seq![e],
            None => Seq::empty(),
        }
    }
}

fn copy_probe(p: &Probe) -> (r: Probe)
    ensures
        r@ == p@,
{
    match p {
        Probe::PrivatePage(page) => Probe::PrivatePage(
            match page {
                Some(b) => Some(b.clone()),
                None => None,
            },
        ),
        Probe::Head(h) => Probe::Head(*h),
    }
}

/// The stream a checked server gives: a private server points at the file
/// its page names (or at its page, if none is named or it could not be
/// loaded); another server is dropped only when it answered with a failure.
pub open spec fn server_stream(s: ServerSourceView, page: Option<Seq<char>>, head: Option<Option<bool>>) -> Option<StreamView> {
    let title = s.server + ": "@ + s.label;
    if s.private {
        let url = match page {
            Some(body) => match first_group(FILE_PATTERN@, body) {
                Some(u) => u,
                None => s.url,
            },
            None => s.url,
        };
        Some(StreamView { url, title })
    } else {
        match head {
            Some(Some(false)) => None,
            _ => Some(StreamView { url: s.url, title }),
        }
    }
}

impl TenflixExt {
    /// The `tenflix.org` catalogue.
    pub fn new() -> TenflixExt {
        TenflixExt {  }
    }

    /// The request of a search for `title`, result page `page`.
    pub fn search_request(&self, title: &str, page: usize) -> (r: HttpRequest)
        ensures
            r@ == bare_request(Method::Get, search_url(title@, page as nat), true),
    {
        let p = decimal_usize(page);
        let a = concatenate("https://tenflix.org/page/", p.as_str());
        let b = concatenate(a.as_str(), "/?s=");
        let url = concatenate(b.as_str(), title);
        assert(url@ =~= search_url(title@, page as nat));
        bare_request_exec(Method::Get, url, true)
    }

    /// The titles of a search result page and their number.
    pub fn search_response(&self, body: &str) -> (r: (Vec<Movie>, u64))
        ensures
            r.0.deep_view() == search_items(captures_or_empty(SEARCH_PATTERN@, body@)),
            r.1 == r.0.len(),
    {
        let caps = captures(SEARCH_PATTERN, body);
        let movies = self.titles_from_captures(&caps);
        let len = movies.len() as u64;
        (movies, len)
    }

    /// The titles read from the captures of search results.
    pub fn titles_from_captures(&self, caps: &Vec<Vec<Option<String>>>) -> (r: Vec<Movie>)
        ensures
            r.deep_view() == search_items(caps.deep_view()),
    {
        let ghost cs = caps.deep_view();
        let mut movies: Vec<Movie> = Vec::new();
        let n = caps.len();
        for i in 0..n
            invariant
                n == caps@.len(),
                cs == caps.deep_view(),
                movies.deep_view() == search_items(cs.take(i as int)),
        {
            assert(cs.take(i + 1).drop_last() =~= cs.take(i as int));
            let ghost before = movies.deep_view();
            let cap = &caps[i];
            assert(cap.deep_view() == cs[i as int]);
            match (group_of(cap, 1), group_of(cap, 2), group_of(cap, 3)) {
                (Some(path), Some(title), Some(year)) => {
                    let kind = if starts_with(path.as_str(), "movie") {
                        "Movie"
                    } else {
                        "TV"
                    };
                    let decoded = decode_html_entities(title.as_str());
                    let a = concatenate(decoded.as_str(), " ");
                    let b = concatenate(a.as_str(), year.as_str());
                    let c = concatenate(b.as_str(), " (");
                    let d = concatenate(c.as_str(), kind);
                    let t = concatenate(d.as_str(), ")");
                    movies.push(Movie { id: path, title: t, total_episodes: None });
                },
                _ => {
                },
            }
            assert(movies.deep_view() =~= before + search_item(cs[i as int]));
        }
        assert(cs.take(n as int) =~= cs);
        movies
    }

    /// The request for the page of `movie`.
    pub fn episodes_request(&self, movie: &Movie) -> (r: HttpRequest)
        ensures
            r@ == bare_request(Method::Get, page_url(movie.id@), true),
    {
        let url = concatenate("https://tenflix.org/", movie.id.as_str());
        bare_request_exec(Method::Get, url, true)
    }

    /// The episodes and description read from the page of `movie`.
    pub fn episodes_response(&self, movie: &Movie, body: &str) -> (r: (Vec<Episode>, Meta))
        ensures
            r.0.deep_view() == page_episodes(movie@, body@),
            r.1@ == page_meta(body@),
    {
        let episodes = if starts_with(movie.id.as_str(), "tv") {
            let caps = captures(EPISODE_PATTERN, body);
            self.episodes_from_captures(&caps)
        } else {
            let mut episodes: Vec<Episode> = Vec::new();
            episodes.push(
                Episode { id: movie.id.clone(), title: movie.title.clone(), is_series: true },
            );
            assert(episodes.deep_view() =~= page_episodes(movie@, body@));
            episodes
        };
        let thumb_url = first_group_exec(THUMB_PATTERN, body);
        let caps = captures(META_PATTERN, body);
        let data = self.facts_from_captures(&caps);
        (episodes, Meta { thumb_url, data })
    }

    /// The episodes read from the episode captures of a series page.
    pub fn episodes_from_captures(&self, caps: &Vec<Vec<Option<String>>>) -> (r: Vec<Episode>)
        ensures
            r.deep_view() == episode_items(caps.deep_view()),
    {
        let mut episodes: Vec<Episode> = Vec::new();
        let ghost cs = caps.deep_view();
        let n = caps.len();
        for i in 0..n
            invariant
                n == caps@.len(),
                cs == caps.deep_view(),
                episodes.deep_view() == episode_items(cs.take(i as int)),
        {
            assert(cs.take(i + 1).drop_last() =~= cs.take(i as int));
            let ghost before = episodes.deep_view();
            let cap = &caps[i];
            assert(cap.deep_view() == cs[i as int]);
            match (group_of(cap, 1), group_of(cap, 2), group_of(cap, 3)) {
                (Some(season), Some(path), Some(title)) => {
                    let a = concatenate("Season ", season.as_str());
                    let b = concatenate(a.as_str(), ": ");
                    let t = concatenate(b.as_str(), title.as_str());
                    episodes.push(Episode { id: path, title: t, is_series: true });
                },
                _ => {
                },
            }
            assert(episodes.deep_view() =~= before + episode_item(cs[i as int]));
        }
        assert(cs.take(n as int) =~= cs);
        episodes
    }

    /// The non-blank facts read from the fact captures of a page.
    pub fn facts_from_captures(&self, caps: &Vec<Vec<Option<String>>>) -> (r: Vec<(String, String)>)
        ensures
            r.deep_view() == meta_items(caps.deep_view()),
    {
        let mut data: Vec<(String, String)> = Vec::new();
        let ghost cs = caps.deep_view();
        let n = caps.len();
        assert(data.deep_view() =~= meta_items(cs.take(0)));
        for i in 0..n
            invariant
                n == caps@.len(),
                cs == caps.deep_view(),
                data.deep_view() == meta_items(cs.take(i as int)),
        {
            assert(cs.take(i + 1).drop_last() =~= cs.take(i as int));
            let ghost before = data.deep_view();
            let cap = &caps[i];
            assert(cap.deep_view() == cs[i as int]);
            match (group_of(cap, 1), group_of(cap, 2)) {
                (Some(k), Some(v)) => {
                    let t = trim(v.as_str());
                    if t.as_str().unicode_len() != 0 {
                        data.push((k, v));
                    }
                },
                _ => {
                },
            }
            assert(data.deep_view() =~= before + meta_item(cs[i as int]));
        }
        assert(cs.take(n as int) =~= cs);
        data
    }

    /// The request for the page of `episode`, where its download links are.
    pub fn streams_request(&self, episode: &Episode) -> (r: HttpRequest)
        ensures
            r@ == bare_request(Method::Get, page_url(episode.id@), false),
    {
        let url = concatenate("https://tenflix.org/", episode.id.as_str());
        bare_request_exec(Method::Get, url, false)
    }

    /// A request for a download, embed or private server page.
    pub fn link_request(&self, url: &str) -> (r: HttpRequest)
        ensures
            r@ == bare_request(Method::Get, url@, false),
    {
        bare_request_exec(Method::Get, url.to_owned(), false)
    }

    /// The `HEAD` request that checks a server.
    pub fn check_request(&self, url: &str) -> (r: HttpRequest)
        ensures
            r@ == bare_request(Method::Head, url@, false),
    {
        bare_request_exec(Method::Head, url.to_owned(), false)
    }

    /// The download page links of an episode page, in order.
    pub fn download_links(&self, body: &str) -> (r: Vec<String>)
        ensures
            r.deep_view() == download_link_items(captures_or_empty(DOWNLOAD_LINK_PATTERN@, body@)),
    {
        let caps = captures(DOWNLOAD_LINK_PATTERN, body);
        self.links_from_captures(&caps)
    }

    /// The links (group 1) of the given captures, in order.
    pub fn links_from_captures(&self, caps: &Vec<Vec<Option<String>>>) -> (r: Vec<String>)
        ensures
            r.deep_view() == download_link_items(caps.deep_view()),
    {
        let ghost cs = caps.deep_view();
        let mut links: Vec<String> = Vec::new();
        let n = caps.len();
        for i in 0..n
            invariant
                n == caps@.len(),
                cs == caps.deep_view(),
                links.deep_view() == download_link_items(cs.take(i as int)),
        {
            assert(cs.take(i + 1).drop_last() =~= cs.take(i as int));
            let ghost before = links.deep_view();
            let cap = &caps[i];
            assert(cap.deep_view() == cs[i as int]);
            if let Some(l) = group_of(cap, 1) {
                links.push(l);
            }
            assert(links.deep_view() =~= before + match group(cs[i as int], 1) {
                Some(l) => seq![l],
                None => Seq::empty(),
            });
        }
        assert(cs.take(n as int) =~= cs);
        links
    }

    /// The embed page address that a download page gives, if any.
    pub fn embed_link(&self, body: &str) -> (r: Option<String>)
        ensures
            r.deep_view() == embed_link_spec(body@),
    {
        match first_group_exec(EMBED_LINK_PATTERN, body) {
            Some(l) => {
                proof {
                    reveal_strlit("file");
                }
                Some(replace(l.as_str(), "file", "embed"))
            },
            None => None,
        }
    }

    /// The servers an embed page offers, in order.
    pub fn servers(&self, body: &str) -> (r: Result<Vec<ServerSource>, TenflixError>)
        ensures
            match r {
                Ok(v) => server_items(captures_or_empty(SERVER_PATTERN@, body@)) == Some(
                    v.deep_view(),
                ),
                Err(_) => server_items(captures_or_empty(SERVER_PATTERN@, body@)) is None,
            },
    {
        let caps = captures(SERVER_PATTERN, body);
        self.servers_from_captures(&caps)
    }

    /// The servers read from the captures of an embed page.
    pub fn servers_from_captures(&self, caps: &Vec<Vec<Option<String>>>) -> (r: Result<
        Vec<ServerSource>,
        TenflixError,
    >)
        ensures
            match r {
                Ok(v) => server_items(caps.deep_view()) == Some(v.deep_view()),
                Err(_) => server_items(caps.deep_view()) is None,
            },
    {
        let ghost cs = caps.deep_view();
        let mut out: Vec<ServerSource> = Vec::new();
        let n = caps.len();
        assert(cs.take(0) =~= Seq::<Seq<Option<Seq<char>>>>::empty());
        assert(out.deep_view() =~= Seq::<ServerSourceView>::empty());
        for i in 0..n
            invariant
                n == caps@.len(),
                cs == caps.deep_view(),
                server_items(cs.take(i as int)) == Some(out.deep_view()),
        {
            assert(cs.take(i + 1).drop_last() =~= cs.take(i as int));
            let ghost before = out.deep_view();
            let cap = &caps[i];
            assert(cap.deep_view() == cs[i as int]);
            match (group_of(cap, 1), group_of(cap, 2), group_of(cap, 3)) {
                (Some(id), Some(frame), Some(label)) => {
                    match base64_decode(frame.as_str()) {
                        Ok(bytes) => {
                            match utf8_string(bytes) {
                                Some(url) => {
                                    let private = contains(id.as_str(), "priv");
                                    out.push(ServerSource { server: id, label, url, private });
                                },
                                None => {
                                },
                            }
                        },
                        Err(_) => {
                            proof {
                                assert(group(cs[i as int], 2) == Some(frame@));
                                assert(spec_base64_decode(frame@) is None);
                                assert(server_item(cs[i as int]) is None);
                                lemma_server_items_fail(cs, i as int);
                            }
                            return Err(TenflixError::BadServerLink);
                        },
                    }
                },
                _ => {
                },
            }
            assert(out.deep_view() =~= before + server_item(cs[i as int])->Some_0);
        }
        assert(cs.take(n as int) =~= cs);
        Ok(out)
    }

    /// The next step of the search for an embed page, given the download
    /// page links and the pages of the first `bodies.len()` of them, loaded
    /// in order.
    pub fn embed_search_step(&self, links: &Vec<String>, bodies: &Vec<String>) -> (r: EmbedStep)
        ensures
            r@ == embed_search(links.deep_view(), bodies.deep_view()),
    {
        let ghost bv = bodies.deep_view();
        let n = bodies.len();
        let mut i: usize = 0;
        assert(bv.skip(0) =~= bv);
        while i < n
            invariant
                i <= n == bv.len(),
                bv == bodies.deep_view(),
                first_embed(bv) == first_embed(bv.skip(i as int)),
            decreases n - i,
        {
            assert(bv.skip(i as int).drop_first() =~= bv.skip(i + 1));
            assert(bv.skip(i as int)[0] == bodies@[i as int]@);
            if let Some(e) = self.embed_link(bodies[i].as_str()) {
                return EmbedStep::Found(e);
            }
            i = i + 1;
        }
        assert(bv.skip(n as int).len() == 0);
        if n < links.len() {
            EmbedStep::Fetch(links[n].clone())
        } else {
            EmbedStep::NotFound
        }
    }

    /// The streams of the servers of an embed page, in order, given what
    /// probing each returned; the probe of each server must be of the kind
    /// it asks for.
    pub fn server_list(&self, servers: &Vec<ServerSource>, probes: &Vec<Probe>) -> (r: Vec<Stream>)
        requires
            probes.len() == servers.len(),
            forall|i: int| 0 <= i < servers.len() ==> (#[trigger] servers@[i].private <==> probes@[i] is PrivatePage),
        ensures
            r.deep_view() == server_streams(servers.deep_view(), probes.deep_view()),
    {
        let ghost sv = servers.deep_view();
        let ghost pv = probes.deep_view();
        let mut streams: Vec<Stream> = Vec::new();
        let n = servers.len();
        for i in 0..n
            invariant
                n == servers@.len() == probes@.len(),
                sv == servers.deep_view(),
                pv == probes.deep_view(),
                forall|k: int| 0 <= k < servers.len() ==> (#[trigger] servers@[k].private <==> probes@[k] is PrivatePage),
                streams.deep_view() == server_streams(sv.take(i as int), pv),
        {
            let ghost before = streams.deep_view();
            assert(sv.take(i + 1).drop_last() =~= sv.take(i as int));
            assert(sv.take(i + 1)[i as int] == servers@[i as int]@);
            assert(pv[i as int] == probes@[i as int]@);
            assert(servers@[i as int].private <==> probes@[i as int] is PrivatePage);
            let probe = copy_probe(&probes[i]);
            match self.server_stream(&servers[i], probe) {
                Some(e) => {
                    streams.push(e);
                },
                None => {
                },
            }
            assert(streams.deep_view() =~= server_streams(sv.take(i + 1), pv));
        }
        assert(sv.take(n as int) =~= sv);
        streams
    }

    /// The stream a checked server gives, if it is kept. The probe must be
    /// of the kind the server asks for.
    pub fn server_stream(&self, source: &ServerSource, probe: Probe) -> (r: Option<Stream>)
        requires
            source.private <==> probe is PrivatePage,
        ensures
            r.deep_view() == server_stream(
                source@,
                match probe {
                    Probe::PrivatePage(p) => p.deep_view(),
                    Probe::Head(_) => None,
                },
                match probe {
                    Probe::Head(h) => Some(h),
                    Probe::PrivatePage(_) => None,
                },
            ),
    {
        let a = concatenate(source.server.as_str(), ": ");
        let title = concatenate(a.as_str(), source.label.as_str());
        match probe {
            Probe::PrivatePage(page) => {
                let url = match page {
                    Some(body) => match first_group_exec(FILE_PATTERN, body.as_str()) {
                        Some(u) => u,
                        None => source.url.clone(),
                    },
                    None => source.url.clone(),
                };
                Some(Stream { url, title })
            },
            Probe::Head(status) => match status {
                Some(false) => None,
                _ => Some(Stream { url: source.url.clone(), title }),
            },
        }
    }
}

/// Once a server link fails to decode, the whole list is refused.
pub proof fn lemma_server_items_fail(cs: Seq<Seq<Option<Seq<char>>>>, i: int)
    requires
        0 <= i < cs.len(),
        server_item(cs[i]) is None,
    ensures
        server_items(cs) is None,
    decreases cs.len(),
{
    if i < cs.len() - 1 {
        assert(cs.drop_last()[i] == cs[i]);
        lemma_server_items_fail(cs.drop_last(), i);
    }
}

/// The titles of a result page are read capture by capture, in page order:
/// the titles of two runs of captures are those of the first run followed
/// by those of the second. A capture with a path, a title and a year gives
/// one title, with the path as id and a name made of the decoded title, the
/// year and the kind (`Movie` for a film path, `TV` otherwise); any other
/// capture gives none. So a page with `k` complete result captures lists
/// `k` titles.
pub proof fn law_search_items(
    a: Seq<Seq<Option<Seq<char>>>>,
    b: Seq<Seq<Option<Seq<char>>>>,
    c: Seq<Option<Seq<char>>>,
)
    ensures
        search_items(a + b) == search_items(a) + search_items(b),
        search_items(seq![c]) == match (group(c, 1), group(c, 2), group(c, 3)) {
            (Some(path), Some(title), Some(year)) => seq![
                MovieView {
                    id: path,
                    title: spec_decode_html_entities(title) + " "@ + year + " ("@ + (if spec_starts_with(
                        path,
                        "movie"@,
                    ) {
                        "Movie"@
                    } else {
                        "TV"@
                    }) + ")"@,
                    total_episodes: None,
                },
            ],
            _ => Seq::<MovieView>::empty(),
        },
    decreases b.len(),
{
    assert(seq![c].drop_last() =~= Seq::<Seq<Option<Seq<char>>>>::empty());
    assert(search_items(seq![c].drop_last()) =~= Seq::<MovieView>::empty());
    assert(seq![c].last() == c);
    assert(search_items(seq![c]) =~= search_item(c));
    if b.len() == 0 {
        assert(a + b =~= a);
    } else {
        law_search_items(a, b.drop_last(), c);
        assert((a + b).drop_last() =~= a + b.drop_last());
        assert((a + b).last() == b.last());
    }
}

/// The episodes of a series page are read capture by capture, in page
/// order: those of two runs of captures are those of the first run followed
/// by those of the second. A capture with a season, a path and a title
/// gives one episode of a series, with the path as id and the name
/// `Season <season>: <title>`; any other capture gives none. So a page with
/// `k` complete episode captures lists `k` episodes.
pub proof fn law_episode_items(
    a: Seq<Seq<Option<Seq<char>>>>,
    b: Seq<Seq<Option<Seq<char>>>>,
    c: Seq<Option<Seq<char>>>,
)
    ensures
        episode_items(a + b) == episode_items(a) + episode_items(b),
        episode_items(seq![c]) == match (group(c, 1), group(c, 2), group(c, 3)) {
            (Some(season), Some(path), Some(title)) => seq![
                EpisodeView { id: path, title: "Season "@ + season + ": "@ + title, is_series: true },
            ],
            _ => Seq::<EpisodeView>::empty(),
        },
    decreases b.len(),
{
    assert(seq![c].drop_last() =~= Seq::<Seq<Option<Seq<char>>>>::empty());
    assert(episode_items(seq![c].drop_last()) =~= Seq::<EpisodeView>::empty());
    assert(seq![c].last() == c);
    assert(episode_items(seq![c]) =~= episode_item(c));
    if b.len() == 0 {
        assert(a + b =~= a);
    } else {
        law_episode_items(a, b.drop_last(), c);
        assert((a + b).drop_last() =~= a + b.drop_last());
        assert((a + b).last() == b.last());
    }
}

/// The facts of a page are read capture by capture, in page order: those
/// of two runs of captures are those of the first run followed by those of
/// the second. A capture with a label and a value that is not blank gives
/// that fact; any other capture gives none.
pub proof fn law_meta_items(
    a: Seq<Seq<Option<Seq<char>>>>,
    b: Seq<Seq<Option<Seq<char>>>>,
    c: Seq<Option<Seq<char>>>,
)
    ensures
        meta_items(a + b) == meta_items(a) + meta_items(b),
        meta_items(seq![c]) == match (group(c, 1), group(c, 2)) {
            (Some(k), Some(v)) => if spec_trim(v).len() > 0 {
                seq![(k, v)]
            } else {
                Seq::<(Seq<char>, Seq<char>)>::empty()
            },
            _ => Seq::<(Seq<char>, Seq<char>)>::empty(),
        },
    decreases b.len(),
{
    assert(seq![c].drop_last() =~= Seq::<Seq<Option<Seq<char>>>>::empty());
    assert(meta_items(seq![c].drop_last()) =~= Seq::<(Seq<char>, Seq<char>)>::empty());
    assert(seq![c].last() == c);
    assert(meta_items(seq![c]) =~= meta_item(c));
    if b.len() == 0 {
        assert(a + b =~= a);
    } else {
        law_meta_items(a, b.drop_last(), c);
        assert((a + b).drop_last() =~= a + b.drop_last());
        assert((a + b).last() == b.last());
    }
}

/// The download links of an episode page are read capture by capture, in
/// page order; a capture gives its group 1, when there is one.
pub proof fn law_download_link_items(
    a: Seq<Seq<Option<Seq<char>>>>,
    b: Seq<Seq<Option<Seq<char>>>>,
    c: Seq<Option<Seq<char>>>,
)
    ensures
        download_link_items(a + b) == download_link_items(a) + download_link_items(b),
        download_link_items(seq![c]) == match group(c, 1) {
            Some(l) => seq![l],
            None => Seq::<Seq<char>>::empty(),
        },
    decreases b.len(),
{
    assert(seq![c].drop_last() =~= Seq::<Seq<Option<Seq<char>>>>::empty());
    assert(download_link_items(seq![c].drop_last()) =~= Seq::<Seq<char>>::empty());
    assert(seq![c].last() == c);
    assert(download_link_items(seq![c]) =~= match group(c, 1) {
        Some(l) => seq![l],
        None => Seq::<Seq<char>>::empty(),
    });
    if b.len() == 0 {
        assert(a + b =~= a);
    } else {
        law_download_link_items(a, b.drop_last(), c);
        assert((a + b).drop_last() =~= a + b.drop_last());
        assert((a + b).last() == b.last());
    }
}

/// The servers of an embed page are read capture by capture, in page
/// order, and the page is refused as soon as one link is not base64. A
/// capture with an id, a link and a label gives one server whose link is
/// the decoded text (none when the decoded bytes are not UTF-8), private
/// when its id contains `priv`; any other capture gives none.
pub proof fn law_server_items(
    a: Seq<Seq<Option<Seq<char>>>>,
    b: Seq<Seq<Option<Seq<char>>>>,
    c: Seq<Option<Seq<char>>>,
)
    ensures
        server_items(a + b) == match (server_items(a), server_items(b)) {
            (Some(x), Some(y)) => Some(x + y),
            _ => None::<Seq<ServerSourceView>>,
        },
        server_items(seq![c]) == match (group(c, 1), group(c, 2), group(c, 3)) {
            (Some(id), Some(frame), Some(label)) => match spec_base64_decode(frame) {
                Some(bytes) => Some(
                    if valid_utf8(bytes) {
                        seq![
                            ServerSourceView {
                                server: id,
                                label,
                                url: decode_utf8(bytes),
                                private: spec_contains(id, "priv"@),
                            },
                        ]
                    } else {
                        Seq::<ServerSourceView>::empty()
                    },
                ),
                None => None,
            },
            _ => Some(Seq::<ServerSourceView>::empty()),
        },
    decreases b.len(),
{
    assert(seq![c].drop_last() =~= Seq::<Seq<Option<Seq<char>>>>::empty());
    assert(Seq::<ServerSourceView>::empty() + Seq::<ServerSourceView>::empty() =~= Seq::<ServerSourceView>::empty());
    assert(server_items(seq![c].drop_last()) == Some(Seq::<ServerSourceView>::empty()));
    if let Some(x) = server_item(c) {
        assert(Seq::<ServerSourceView>::empty() + x =~= x);
    }
    if b.len() == 0 {
        assert(a + b =~= a);
        if let Some(x) = server_items(a) {
            assert(x + Seq::<ServerSourceView>::empty() =~= x);
        }
    } else {
        law_server_items(a, b.drop_last(), c);
        assert((a + b).drop_last() =~= a + b.drop_last());
        assert((a + b).last() == b.last());
        if let (Some(x), Some(y), Some(z)) = (
            server_items(a),
            server_items(b.drop_last()),
            server_item(b.last()),
        ) {
            assert(x + y + z =~= x + (y + z));
        }
    }
}

/// The search for an embed page takes the first download page that gives
/// one: over two runs of pages, the first run decides when it gives one,
/// else the second. A single page gives its own embed address.
pub proof fn law_first_embed(a: Seq<Seq<char>>, b: Seq<Seq<char>>, x: Seq<char>)
    ensures
        first_embed(a + b) == match first_embed(a) {
            Some(e) => Some(e),
            None => first_embed(b),
        },
        first_embed(seq![x]) == embed_link_spec(x),
    decreases a.len(),
{
    assert(seq![x].drop_first() =~= Seq::<Seq<char>>::empty());
    assert(seq![x][0] == x);
    assert(first_embed(seq![x].drop_first()) is None);
    if a.len() == 0 {
        assert(a + b =~= b);
    } else {
        law_first_embed(a.drop_first(), b, x);
        assert((a + b).drop_first() =~= a.drop_first() + b);
        assert((a + b)[0] == a[0]);
    }
}

/// The streams of servers are read server by server, in order: those of
/// two runs of servers are those of the first followed by those of the
/// second, each with its own probe. A private server gives the file its
/// page names (or its own link when the page names none or could not be
/// loaded); another server is dropped exactly when its check answered with
/// a failure. Each stream is named `<server>: <label>`.
pub proof fn law_server_streams(
    a: Seq<ServerSourceView>,
    b: Seq<ServerSourceView>,
    probes: Seq<ProbeView>,
    s: ServerSourceView,
    p: ProbeView,
)
    requires
        probes.len() >= a.len() + b.len(),
    ensures
        server_streams(a + b, probes) == server_streams(a, probes) + server_streams(
            b,
            probes.skip(a.len() as int),
        ),
        server_streams(seq![s], seq![p]) == if s.private {
            seq![
                StreamView {
                    url: match p {
                        ProbeView::PrivatePage(Some(body)) => match first_group(FILE_PATTERN@, body) {
                            Some(u) => u,
                            None => s.url,
                        },
                        _ => s.url,
                    },
                    title: s.server + ": "@ + s.label,
                },
            ]
        } else if p == ProbeView::Head(Some(false)) {
            Seq::<StreamView>::empty()
        } else {
            seq![StreamView { url: s.url, title: s.server + ": "@ + s.label }]
        },
    decreases b.len(),
{
    assert(seq![s].drop_last() =~= Seq::<ServerSourceView>::empty());
    assert(seq![s].last() == s && seq![p][0] == p);
    assert(server_streams(seq![s].drop_last(), seq![p]) =~= Seq::<StreamView>::empty());
    assert(server_streams(seq![s], seq![p]) =~= match probed_stream(s, p) {
        Some(e) => seq![e],
        None => Seq::<StreamView>::empty(),
    });
    if b.len() == 0 {
        assert(a + b =~= a);
    } else {
        law_server_streams(a, b.drop_last(), probes, s, p);
        let n = b.len() - 1;
        assert((a + b).drop_last() =~= a + b.drop_last());
        assert((a + b).last() == b.last());
        assert(probes.skip(a.len() as int)[n] == probes[a.len() + n]);
    }
}

} // verus!
