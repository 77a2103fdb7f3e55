//! The `animeku.my.id` catalogue API: request shapes shared by its anime and
//! film searches, and the reading of its stream descriptions.

use vstd::prelude::*;
use vstd::utf8::encode_utf8;

use crate::json::{member_str, Json};
use crate::models::{Episode, Stream, StreamView};
use crate::request::{push_header, HttpRequest, HttpRequestView, Method};
use crate::text::{
    concatenate, contains, decimal, decimal_usize, replace, spec_contains, spec_replace,
    spec_starts_with, spec_trim, spec_trim_char, starts_with, strip_prefix, trim, trim_char,
};

pub mod anime;
pub mod movie;

verus! {

/// Credentials the `whatbox` file host expects inside its links.
pub const USER_PASS: &'static str =
    "drakornicojanuar:DIvANTArtBInsTriSkEremeNtOMICErCeSMiQUaKarypsBoari";

/// Address of the stream description endpoint.
pub const STREAM_URL: &'static str =
    "https://animeku.my.id/nontonanime-v77/phalcon/api/get_post_description_secure/v9_4/";

/// The header lines of a catalogue request whose form body has the given
/// `Content-Length` text.
pub open spec fn api_headers(content_length: Seq<char>) -> Seq<(Seq<char>, Seq<char>)> {
    seq![
        ("Cache-Control"@, "max-age=0"@),
        ("Data-Agent"@, "New Aniplex v9.1"@),
        ("Accept-Encoding"@, "gzip"@),
        ("Content-Type"@, "application/x-www-form-urlencoded"@),
        ("Content-Length"@, content_length),
        ("Host"@, "animeku.my.id"@),
        ("Connection"@, "Keep-Alive"@),
        ("User-Agent"@, "okhttp/3.12.13"@),
    ]
}

/// The header lines of a film search, which lists `Accept-Encoding` later.
pub open spec fn film_search_headers(content_length: Seq<char>) -> Seq<(Seq<char>, Seq<char>)> {
    seq![
        ("Cache-Control"@, "max-age=0"@),
        ("Data-Agent"@, "New Aniplex v9.1"@),
        ("Content-Type"@, "application/x-www-form-urlencoded"@),
        ("Content-Length"@, content_length),
        ("Host"@, "animeku.my.id"@),
        ("Connection"@, "Keep-Alive"@),
        ("Accept-Encoding"@, "gzip"@),
        ("User-Agent"@, "okhttp/3.12.13"@),
    ]
}

/// The `Content-Length` text of a form body: its size in UTF-8 bytes, as
/// `str::len` reports it.
pub open spec fn content_length_of(payload: Seq<char>) -> Seq<char> {
    decimal((encode_utf8(payload).len() as usize) as nat)
}

/// A form POST to the catalogue API.
pub open spec fn api_post(url: Seq<char>, payload: Seq<char>, film_search: bool) -> HttpRequestView {
    HttpRequestView {
        method: Method::Post,
        url,
        headers: if film_search {
            film_search_headers(content_length_of(payload))
        } else {
            api_headers(content_length_of(payload))
        },
        body: Some(payload),
    }
}

/// Builds a form POST to the catalogue API.
pub fn api_post_request(url: &str, payload: String, film_search: bool) -> (r: HttpRequest)
    ensures
        r@ == api_post(url@, payload@, film_search),
{
    let len = decimal_usize(payload.as_str().len());
    let mut h: Vec<(String, String)> = Vec::new();
    push_header(&mut h, "Cache-Control", "max-age=0");
    push_header(&mut h, "Data-Agent", "New Aniplex v9.1");
    if !film_search {
        push_header(&mut h, "Accept-Encoding", "gzip");
    }
    push_header(&mut h, "Content-Type", "application/x-www-form-urlencoded");
    push_header(&mut h, "Content-Length", len.as_str());
    push_header(&mut h, "Host", "animeku.my.id");
    push_header(&mut h, "Connection", "Keep-Alive");
    if film_search {
        push_header(&mut h, "Accept-Encoding", "gzip");
    }
    push_header(&mut h, "User-Agent", "okhttp/3.12.13");
    let r = HttpRequest { method: Method::Post, url: url.to_owned(), headers: h, body: Some(payload) };
    assert(r@.headers =~= api_post(url@, payload@, film_search).headers);
    r
}

/// The form body of a search: `search=<title>&page=<page>&count=20&...`.
pub open spec fn search_payload(title: Seq<char>, page: nat) -> Seq<char> {
    "search="@ + title + "&page="@ + decimal(page) + "&count=20&lang=All&isAPKvalid=true"@
}

/// Builds the form body of a search.
pub fn search_payload_exec(title: &str, page: usize) -> (r: String)
    ensures
        r@ == search_payload(title@, page as nat),
{
    let a = concatenate("search=", title);
    let b = concatenate(a.as_str(), "&page=");
    let p = decimal_usize(page);
    let c = concatenate(b.as_str(), p.as_str());
    let r = concatenate(c.as_str(), "&count=20&lang=All&isAPKvalid=true");
    assert(r@ =~= search_payload(title@, page as nat));
    r
}

/// The text of a node as the API returns it, with surrounding quotes and
/// then white space removed.
pub open spec fn clean_text(text: Seq<char>) -> Seq<char> {
    spec_trim(spec_trim_char(text, '"'))
}

/// Removes surrounding quotes and then white space from `text`.
pub fn clean_text_exec(text: &str) -> (r: String)
    ensures
        r@ == clean_text(text@),
{
    let t = trim_char(text, '"');
    trim(t.as_str())
}

/// The form body of a stream description request for an episode.
pub open spec fn stream_payload(id: Seq<char>) -> Seq<char> {
    "channel_id="@ + id + "&isAPKvalid=true"@
}

/// The request `get_stream_urls` sends for `episode`.
pub fn stream_request(episode: &Episode) -> (r: HttpRequest)
    ensures
        r@ == api_post(STREAM_URL@, stream_payload(episode.id@), false),
{
    let a = concatenate("channel_id=", episode.id.as_str());
    let payload = concatenate(a.as_str(), "&isAPKvalid=true");
    assert(payload@ =~= stream_payload(episode.id@));
    api_post_request(STREAM_URL, payload, false)
}

/// A link read from a stream description, before it is checked.
pub struct StreamSource {
    /// Resolution label.
    pub label: String,
    pub url: String,
    /// The link points at a redirect page to follow first.
    pub resolve: bool,
}

/// The mathematical value of a [`StreamSource`].
pub struct StreamSourceView {
    pub label: Seq<char>,
    pub url: Seq<char>,
    pub resolve: bool,
}

impl View for StreamSource {
    type V = StreamSourceView;

    open spec fn view(&self) -> StreamSourceView {
        StreamSourceView { label: self.label@, url: self.url@, resolve: self.resolve }
    }
}

impl DeepView for StreamSource {
    type V = StreamSourceView;

    open spec fn deep_view(&self) -> StreamSourceView {
        self@
    }
}

/// A `whatbox` link gets the host's credentials after `http://`.
pub open spec fn with_credentials(url: Seq<char>) -> Seq<char> {
    if spec_starts_with(url, "http://"@) {
        "http://"@ + USER_PASS@ + "@"@ + url.subrange(7, url.len() as int)
    } else {
        url
    }
}

/// The link under `key` of a stream description, labelled `label`.
pub open spec fn stream_source(j: Json, key: Seq<char>, label: Seq<char>) -> Seq<StreamSourceView> {
    match member_str(j, key) {
        Some(raw) => {
            let url = clean_text(raw);
            if spec_contains(url, "whatbox"@) {
                seq![StreamSourceView { label, url: with_credentials(url), resolve: false }]
            } else {
                seq![
                    StreamSourceView {
                        label,
                        url,
                        resolve: spec_contains(url, "nontonanime"@),
                    },
                ]
            }
        },
        None => Seq::empty(),
    }
}

/// The links of a stream description, in the order SD, HD, full HD.
pub open spec fn stream_sources_spec(j: Json) -> Seq<StreamSourceView> {
    stream_source(j, "channel_url"@, "360p SD"@) + stream_source(j, "channel_url_hd"@, "720p HD"@)
        + stream_source(j, "channel_url_fhd"@, "1080p FHD"@)
}

fn push_stream_source(out: &mut Vec<StreamSource>, j: &Json, key: &str, label: &str)
    ensures
        final(out).deep_view() == old(out).deep_view() + stream_source(*j, key@, label@),
{
    let ghost before = out.deep_view();
    match j.get(key) {
        Some(v) => match v.as_str() {
            Some(raw) => {
                let url = clean_text_exec(raw.as_str());
                if contains(url.as_str(), "whatbox") {
                    proof {
                        reveal_strlit("http://");
                    }
                    let url2 = match strip_prefix(url.as_str(), "http://") {
                        Some(rest) => {
                            let a = concatenate("http://", USER_PASS);
                            let b = concatenate(a.as_str(), "@");
                            concatenate(b.as_str(), rest.as_str())
                        },
                        None => url,
                    };
                    out.push(StreamSource { label: label.to_owned(), url: url2, resolve: false });
                } else {
                    let resolve = contains(url.as_str(), "nontonanime");
                    out.push(StreamSource { label: label.to_owned(), url, resolve });
                }
                assert(out.deep_view() =~= before + stream_source(*j, key@, label@));
            },
            None => {
                assert(out.deep_view() =~= before + stream_source(*j, key@, label@));
            },
        },
        None => {
            assert(out.deep_view() =~= before + stream_source(*j, key@, label@));
        },
    }
}

/// The links that a stream description response offers.
pub fn stream_sources(j: &Json) -> (r: Vec<StreamSource>)
    ensures
        r.deep_view() == stream_sources_spec(*j),
{
    let mut out: Vec<StreamSource> = Vec::new();
    assert(out.deep_view() =~= Seq::<StreamSourceView>::empty());
    push_stream_source(&mut out, j, "channel_url", "360p SD");
    push_stream_source(&mut out, j, "channel_url_hd", "720p HD");
    push_stream_source(&mut out, j, "channel_url_fhd", "1080p FHD");
    assert(out.deep_view() =~= stream_sources_spec(*j));
    out
}

/// Whether a (possibly resolved) link is kept: it must start with `http`.
pub fn is_http_link(url: &str) -> (b: bool)
    ensures
        b == spec_starts_with(url@, "http"@),
{
    starts_with(url, "http")
}

/// The label of a link, with its size in brackets where it is known.
pub open spec fn sized_label(label: Seq<char>, size: Option<Seq<char>>) -> Seq<char> {
    match size {
        Some(s) => label + " ("@ + s + ")"@,
        None => label,
    }
}

/// The stream entry for a link: none unless it starts with `http`.
pub open spec fn stream_entry_spec(label: Seq<char>, url: Seq<char>, size: Option<Seq<char>>) -> Option<
    StreamView,
> {
    if spec_starts_with(url, "http"@) {
        Some(StreamView { url, title: sized_label(label, size) })
    } else {
        None
    }
}

/// The stream entry for a link whose size may have been looked up.
pub fn stream_entry(label: &str, url: String, size: Option<String>) -> (r: Option<Stream>)
    ensures
        r.deep_view() == stream_entry_spec(label@, url@, size.deep_view()),
{
    if is_http_link(url.as_str()) {
        let title = match size {
            Some(s) => {
                let a = concatenate(label, " (");
                let b = concatenate(a.as_str(), s.as_str());
                concatenate(b.as_str(), ")")
            },
            None => label.to_owned(),
        };
        Some(Stream { url, title })
    } else {
        None
    }
}

/// A film offered with a single link shows it as HD.
pub open spec fn finalize_spec(streams: Seq<StreamView>, is_series: bool) -> Seq<StreamView> {
    if streams.len() == 1 && !is_series {
        seq![
            StreamView {
                url: streams[0].url,
                title: spec_replace(streams[0].title, "360p SD"@, "720p HD"@),
            },
        ]
    } else {
        streams
    }
}

/// The end of `get_stream_urls`: when an episode that is not part of a
/// series has exactly one link, its `360p SD` label becomes `720p HD`.
pub fn finalize_streams(streams: Vec<Stream>, is_series: bool) -> (r: Vec<Stream>)
    ensures
        r.deep_view() == finalize_spec(streams.deep_view(), is_series),
{
    if streams.len() == 1 && !is_series {
        proof {
            reveal_strlit("360p SD");
        }
        let s = &streams[0];
        let title = replace(s.title.as_str(), "360p SD", "720p HD");
        let mut r: Vec<Stream> = Vec::new();
        r.push(Stream { url: s.url.clone(), title });
        assert(r.deep_view() =~= finalize_spec(streams.deep_view(), is_series));
        r
    } else {
        streams
    }
}

/// The link a source is checked under: where its redirect page led, when
/// following it succeeded (`resolved`); otherwise, and for a source that is
/// not followed, its own link.
pub open spec fn resolved_url(src: StreamSourceView, resolved: Option<Seq<char>>) -> Seq<char> {
    if src.resolve {
        match resolved {
            Some(d) => d,
            None => src.url,
        }
    } else {
        src.url
    }
}

/// The link a source is checked under, given what following its redirect
/// page returned.
pub fn resolved_link(source: &StreamSource, resolved: Option<String>) -> (r: String)
    ensures
        r@ == resolved_url(source@, resolved.deep_view()),
{
    if source.resolve {
        match resolved {
            Some(d) => d,
            None => source.url.clone(),
        }
    } else {
        source.url.clone()
    }
}

/// The entry a source gives, from what following its redirect page and
/// looking up its size returned.
pub open spec fn source_entry(
    src: StreamSourceView,
    resolved: Option<Seq<char>>,
    size: Option<Seq<char>>,
) -> Option<StreamView> {
    stream_entry_spec(src.label, resolved_url(src, resolved), size)
}

/// The entries of a list of sources, in order; `resolved[i]` and `sizes[i]`
/// are what the lookups of source `i` returned.
pub open spec fn source_entries(
    srcs: Seq<StreamSourceView>,
    resolved: Seq<Option<Seq<char>>>,
    sizes: Seq<Option<Seq<char>>>,
) -> Seq<StreamView>
    decreases srcs.len(),
{
    if srcs.len() == 0 {
        Seq::empty()
    } else {
        let n = srcs.len() - 1;
        source_entries(srcs.drop_last(), resolved, sizes) + match source_entry(
            srcs[n],
            resolved[n],
            sizes[n],
        ) {
            Some(e) => seq![e],
            None => Seq::empty(),
        }
    }
}

/// The link list of an episode: the entries of its sources, finished.
pub open spec fn stream_list_spec(
    srcs: Seq<StreamSourceView>,
    resolved: Seq<Option<Seq<char>>>,
    sizes: Seq<Option<Seq<char>>>,
    is_series: bool,
) -> Seq<StreamView> {
    finalize_spec(source_entries(srcs, resolved, sizes), is_series)
}

fn copy_text(o: &Option<String>) -> (r: Option<String>)
    ensures
        r.deep_view() == o.deep_view(),
{
    match o {
        Some(t) => Some(t.clone()),
        None => None,
    }
}

/// The link list of an episode, from its sources and what the lookups of
/// each returned: `resolved[i]` is where the redirect page of source `i`
/// led (for a followed source, when following succeeded), `sizes[i]` the
/// size found for the link it is checked under.
pub fn stream_list(
    sources: &Vec<StreamSource>,
    resolved: &Vec<Option<String>>,
    sizes: &Vec<Option<String>>,
    is_series: bool,
) -> (r: Vec<Stream>)
    requires
        resolved.len() == sources.len(),
        sizes.len() == sources.len(),
    ensures
        r.deep_view() == stream_list_spec(
            sources.deep_view(),
            resolved.deep_view(),
            sizes.deep_view(),
            is_series,
        ),
{
    let ghost srcs = sources.deep_view();
    let ghost rs = resolved.deep_view();
    let ghost ss = sizes.deep_view();
    let mut streams: Vec<Stream> = Vec::new();
    let n = sources.len();
    for i in 0..n
        invariant
            n == sources@.len() == resolved@.len() == sizes@.len(),
            srcs == sources.deep_view(),
            rs == resolved.deep_view(),
            ss == sizes.deep_view(),
            streams.deep_view() == source_entries(srcs.take(i as int), rs, ss),
    {
        let ghost before = streams.deep_view();
        let src = &sources[i];
        assert(srcs.take(i + 1).drop_last() =~= srcs.take(i as int));
        assert(srcs.take(i + 1)[i as int] == src@);
        let url = resolved_link(src, copy_text(&resolved[i]));
        let size = copy_text(&sizes[i]);
        match stream_entry(src.label.as_str(), url, size) {
            Some(e) => {
                streams.push(e);
            },
            None => {
            },
        }
        assert(streams.deep_view() =~= source_entries(srcs.take(i + 1), rs, ss));
    }
    assert(srcs.take(n as int) =~= srcs);
    finalize_streams(streams, is_series)
}

/// Where a link title stands among the resolutions: SD, HD, full HD, then
/// any other title.
pub open spec fn resolution_rank(title: Seq<char>) -> int {
    if spec_starts_with(title, "360p SD"@) {
        0
    } else if spec_starts_with(title, "720p HD"@) {
        1
    } else if spec_starts_with(title, "1080p FHD"@) {
        2
    } else {
        3
    }
}

/// Text added after a resolution label leaves its rank as it was.
pub proof fn lemma_rank_of_extension(l: Seq<char>, t: Seq<char>)
    requires
        resolution_rank(l) <= 2,
    ensures
        resolution_rank(l + t) == resolution_rank(l),
{
    reveal_strlit("360p SD");
    reveal_strlit("720p HD");
    reveal_strlit("1080p FHD");
    assert((l + t).subrange(0, 7) =~= l.subrange(0, 7));
    if resolution_rank(l) == 2 {
        assert((l + t).subrange(0, 9) =~= l.subrange(0, 9));
    }
}

/// The three labels rank in the order SD, HD, full HD.
pub proof fn lemma_label_ranks()
    ensures
        resolution_rank("360p SD"@) == 0,
        resolution_rank("720p HD"@) == 1,
        resolution_rank("1080p FHD"@) == 2,
{
    reveal_strlit("360p SD");
    reveal_strlit("720p HD");
    reveal_strlit("1080p FHD");
    assert("360p SD"@.subrange(0, 7) =~= "360p SD"@);
    assert("720p HD"@.subrange(0, 7) =~= "720p HD"@);
    assert("1080p FHD"@.subrange(0, 9) =~= "1080p FHD"@);
    assert("720p HD"@.subrange(0, 7)[0] != "360p SD"@[0]);
    assert("1080p FHD"@.subrange(0, 7)[0] != "360p SD"@[0]);
    assert("1080p FHD"@.subrange(0, 7)[0] != "720p HD"@[0]);
}

/// The sources of a stream description: at most three, labelled in the
/// order SD, HD, full HD.
pub proof fn lemma_sources_ranked(j: Json)
    ensures
        stream_sources_spec(j).len() <= 3,
        forall|a: int|
            0 <= a < stream_sources_spec(j).len() ==> resolution_rank(
                #[trigger] stream_sources_spec(j)[a].label,
            ) <= 2,
        forall|a: int, b: int|
            0 <= a < b < stream_sources_spec(j).len() ==> resolution_rank(
                #[trigger] stream_sources_spec(j)[a].label,
            ) < resolution_rank(#[trigger] stream_sources_spec(j)[b].label),
{
    lemma_label_ranks();
    let x = stream_source(j, "channel_url"@, "360p SD"@);
    let y = stream_source(j, "channel_url_hd"@, "720p HD"@);
    let z = stream_source(j, "channel_url_fhd"@, "1080p FHD"@);
    let srcs = stream_sources_spec(j);
    assert(srcs == x + y + z);
    assert(x.len() <= 1 && (x.len() == 1 ==> x[0].label == "360p SD"@));
    assert(y.len() <= 1 && (y.len() == 1 ==> y[0].label == "720p HD"@));
    assert(z.len() <= 1 && (z.len() == 1 ==> z[0].label == "1080p FHD"@));
    assert forall|a: int| 0 <= a < srcs.len() implies resolution_rank(#[trigger] srcs[a].label)
        == if a < x.len() {
        0int
    } else if a < x.len() + y.len() {
        1int
    } else {
        2int
    } by {
        if a < x.len() {
            assert(srcs[a] == x[a]);
        } else if a < x.len() + y.len() {
            assert(srcs[a] == y[a - x.len()]);
        } else {
            assert(srcs[a] == z[a - x.len() - y.len()]);
        }
    }
}

/// The entries of sources ranked in strictly rising order are links that
/// start with `http`, at most one per source, ranked in strictly rising
/// order, none above the last source.
pub proof fn lemma_entries_ranked(
    srcs: Seq<StreamSourceView>,
    resolved: Seq<Option<Seq<char>>>,
    sizes: Seq<Option<Seq<char>>>,
)
    requires
        forall|a: int| 0 <= a < srcs.len() ==> resolution_rank(#[trigger] srcs[a].label) <= 2,
        forall|a: int, b: int|
            0 <= a < b < srcs.len() ==> resolution_rank(#[trigger] srcs[a].label) < resolution_rank(
                #[trigger] srcs[b].label,
            ),
    ensures
        source_entries(srcs, resolved, sizes).len() <= srcs.len(),
        forall|i: int|
            0 <= i < source_entries(srcs, resolved, sizes).len() ==> spec_starts_with(
                #[trigger] source_entries(srcs, resolved, sizes)[i].url,
                "http"@,
            ),
        forall|i: int|
            0 <= i < source_entries(srcs, resolved, sizes).len() ==> resolution_rank(
                #[trigger] source_entries(srcs, resolved, sizes)[i].title,
            ) <= resolution_rank(srcs.last().label),
        forall|i: int, k: int|
            0 <= i < k < source_entries(srcs, resolved, sizes).len() ==> resolution_rank(
                #[trigger] source_entries(srcs, resolved, sizes)[i].title,
            ) < resolution_rank(#[trigger] source_entries(srcs, resolved, sizes)[k].title),
    decreases srcs.len(),
{
    if srcs.len() > 0 {
        let n = srcs.len() - 1;
        let front = srcs.drop_last();
        assert forall|a: int, b: int| 0 <= a < b < front.len() implies resolution_rank(
            #[trigger] front[a].label,
        ) < resolution_rank(#[trigger] front[b].label) by {
            assert(front[a] == srcs[a] && front[b] == srcs[b]);
        }
        assert forall|a: int| 0 <= a < front.len() implies resolution_rank(
            #[trigger] front[a].label,
        ) <= 2 by {
            assert(front[a] == srcs[a]);
        }
        lemma_entries_ranked(front, resolved, sizes);
        let prev = source_entries(front, resolved, sizes);
        let out = source_entries(srcs, resolved, sizes);
        let last = srcs[n];
        assert(resolution_rank(last.label) <= 2);
        if n > 0 {
            assert(front.last() == srcs[n - 1]);
            assert(resolution_rank(front.last().label) < resolution_rank(last.label));
        }
        match source_entry(last, resolved[n], sizes[n]) {
            Some(e) => {
                assert(out == prev.push(e));
                match sizes[n] {
                    Some(sz) => {
                        assert(e.title =~= last.label + (" ("@ + sz + ")"@));
                        lemma_rank_of_extension(last.label, " ("@ + sz + ")"@);
                    },
                    None => {
                    },
                }
                assert(resolution_rank(e.title) == resolution_rank(last.label));
                assert forall|i: int| 0 <= i < out.len() implies resolution_rank(
                    #[trigger] out[i].title,
                ) <= resolution_rank(srcs.last().label) by {
                    if i < prev.len() {
                        assert(out[i] == prev[i]);
                    }
                }
                assert forall|i: int, k: int| 0 <= i < k < out.len() implies resolution_rank(
                    #[trigger] out[i].title,
                ) < resolution_rank(#[trigger] out[k].title) by {
                    assert(out[i] == prev[i]);
                    if k < prev.len() {
                        assert(out[k] == prev[k]);
                    }
                }
                assert forall|i: int| 0 <= i < out.len() implies spec_starts_with(
                    #[trigger] out[i].url,
                    "http"@,
                ) by {
                    if i < prev.len() {
                        assert(out[i] == prev[i]);
                    }
                }
            },
            None => {
                assert(out =~= prev);
            },
        }
    }
}

/// The link list of an episode holds at most three links, each starting
/// with `http`, in the order SD, HD, full HD.
pub proof fn law_stream_list_shape(
    j: Json,
    resolved: Seq<Option<Seq<char>>>,
    sizes: Seq<Option<Seq<char>>>,
    is_series: bool,
)
    ensures
        stream_list_spec(stream_sources_spec(j), resolved, sizes, is_series).len() <= 3,
        forall|i: int|
            0 <= i < stream_list_spec(stream_sources_spec(j), resolved, sizes, is_series).len()
                ==> spec_starts_with(
                #[trigger] stream_list_spec(stream_sources_spec(j), resolved, sizes, is_series)[i].url,
                "http"@,
            ),
        forall|i: int, k: int|
            0 <= i < k < stream_list_spec(stream_sources_spec(j), resolved, sizes, is_series).len()
                ==> resolution_rank(
                #[trigger] stream_list_spec(stream_sources_spec(j), resolved, sizes, is_series)[i].title,
            ) < resolution_rank(
                #[trigger] stream_list_spec(stream_sources_spec(j), resolved, sizes, is_series)[k].title,
            ),
{
    let srcs = stream_sources_spec(j);
    lemma_sources_ranked(j);
    lemma_entries_ranked(srcs, resolved, sizes);
    let entries = source_entries(srcs, resolved, sizes);
    let out = stream_list_spec(srcs, resolved, sizes, is_series);
    if entries.len() == 1 && !is_series {
        assert(out[0].url == entries[0].url);
    } else {
        assert(out == entries);
    }
}

/// Finishing a link list keeps its links and their order; only the label of
/// the single link of an episode outside a series may change.
pub proof fn law_finalize_keeps_links(streams: Seq<StreamView>, is_series: bool)
    ensures
        finalize_spec(streams, is_series).len() == streams.len(),
        forall|i: int|
            0 <= i < streams.len() ==> (#[trigger] finalize_spec(streams, is_series)[i]).url
                == streams[i].url,
        is_series || streams.len() != 1 ==> finalize_spec(streams, is_series) == streams,
{
}


/// The entries of sources are read source by source, in order, each with
/// its own lookups: those of two runs of sources are those of the first
/// followed by those of the second. A source gives one entry exactly when
/// the link it is checked under starts with `http`; that link is where its
/// redirect page led, for a followed source whose redirect was followed,
/// and its own link otherwise; the entry is labelled with the source's
/// label and, when known, the size in brackets.
pub proof fn law_source_entries(
    a: Seq<StreamSourceView>,
    b: Seq<StreamSourceView>,
    resolved: Seq<Option<Seq<char>>>,
    sizes: Seq<Option<Seq<char>>>,
    x: StreamSourceView,
    r: Option<Seq<char>>,
    z: Option<Seq<char>>,
)
    requires
        resolved.len() >= a.len() + b.len(),
        sizes.len() >= a.len() + b.len(),
    ensures
        source_entries(a + b, resolved, sizes) == source_entries(a, resolved, sizes)
            + source_entries(b, resolved.skip(a.len() as int), sizes.skip(a.len() as int)),
        source_entries(seq![x], seq![r], seq![z]) == ({
            let url = if x.resolve && r is Some {
                r->Some_0
            } else {
                x.url
            };
            if spec_starts_with(url, "http"@) {
                seq![
                    StreamView {
                        url,
                        title: match z {
                            Some(t) => x.label + " ("@ + t + ")"@,
                            None => x.label,
                        },
                    },
                ]
            } else {
                Seq::<StreamView>::empty()
            }
        }),
    decreases b.len(),
{
    assert(seq![x].drop_last() =~= Seq::<StreamSourceView>::empty());
    assert(source_entries(seq![x].drop_last(), seq![r], seq![z]) =~= Seq::<StreamView>::empty());
    assert(seq![x][0] == x && seq![r][0] == r && seq![z][0] == z);
    if b.len() == 0 {
        assert(a + b =~= a);
    } else {
        law_source_entries(a, b.drop_last(), resolved, sizes, x, r, z);
        let n = b.len() - 1;
        assert((a + b).drop_last() =~= a + b.drop_last());
        assert((a + b).last() == b.last());
        assert(resolved.skip(a.len() as int)[n] == resolved[a.len() + n]);
        assert(sizes.skip(a.len() as int)[n] == sizes[a.len() + n]);
    }
}

} // verus!
