//! Helpers shared by the catalogues: reading regex captures, finding an
//! embedded frame, following a redirect page, and labelling a file size.

use vstd::prelude::*;

use crate::bindings::{
    decode_image, format_size_binary, regex_captures, spec_format_size_binary,
    spec_image_decodes, spec_regex_captures,
};
use crate::text::{
    contains, parse_u64, parse_usize, spec_contains, spec_parse_unsigned, spec_split_nth,
    split_nth,
};

verus! {

/// The pattern of an `<iframe ... src="...">` tag; group 1 is the source.
pub const IFRAME_PATTERN: &'static str = r#"<iframe[^>]+src="([^"]+)"[^>]*>"#;

/// Group `k` of a capture, when the capture has that group and it took part.
pub open spec fn group(cap: Seq<Option<Seq<char>>>, k: int) -> Option<Seq<char>> {
    if 0 <= k < cap.len() {
        cap[k]
    } else {
        None
    }
}

/// The captures of `pattern` in `haystack`; none when the pattern does not
/// compile.
pub open spec fn captures_or_empty(pattern: Seq<char>, haystack: Seq<char>) -> Seq<
    Seq<Option<Seq<char>>>,
> {
    match spec_regex_captures(pattern, haystack) {
        Some(caps) => caps,
        None => Seq::empty(),
    }
}

/// Every capture of `pattern` in `haystack`, in order.
pub fn captures(pattern: &str, haystack: &str) -> (r: Vec<Vec<Option<String>>>)
    ensures
        r.deep_view() == captures_or_empty(pattern@, haystack@),
{
    match regex_captures(pattern, haystack) {
        Some(caps) => caps,
        None => {
            let r: Vec<Vec<Option<String>>> = Vec::new();
            assert(r.deep_view() =~= Seq::<Seq<Option<Seq<char>>>>::empty());
            r
        },
    }
}

/// Group `k` of `cap`, copied.
pub fn group_of(cap: &Vec<Option<String>>, k: usize) -> (r: Option<String>)
    ensures
        r.deep_view() == group(cap.deep_view(), k as int),
{
    if k < cap.len() {
        match &cap[k] {
            Some(s) => Some(s.clone()),
            None => None,
        }
    } else {
        None
    }
}

/// The source of the `index`-th frame tag of `html` (counting from 0).
pub open spec fn spec_iframe_src(html: Seq<char>, index: int) -> Option<Seq<char>> {
    let caps = captures_or_empty(IFRAME_PATTERN@, html);
    if 0 <= index < caps.len() {
        group(caps[index], 1)
    } else {
        None
    }
}

/// The source address of the `index`-th `<iframe>` in `html`.
pub fn get_iframe_src(html: &str, index: usize) -> (r: Option<String>)
    ensures
        r.deep_view() == spec_iframe_src(html@, index as int),
{
    let caps = captures(IFRAME_PATTERN, html);
    if index < caps.len() {
        group_of(&caps[index], 1)
    } else {
        None
    }
}

/// What to do with a link that may point at a redirect page.
pub enum RealUrlPlan {
    /// The link has no `url=` part: it is used as it is.
    Keep,
    /// The page to load, and the text after `&index=` (the position, from 1,
    /// of the frame whose source is the real link), if there is one.
    Fetch { page: String, index: Option<String> },
}

/// The piece of a link after its first `url=`.
pub open spec fn redirect_part(url: Seq<char>) -> Option<Seq<char>> {
    spec_split_nth(url, "url="@, 1)
}

/// How `get_real_url` goes on with `url`: keep it when it has no `url=`
/// part; else load the part before `&index=` and read the frame given after
/// it.
pub fn real_url_plan(url: &str) -> (r: RealUrlPlan)
    ensures
        match r {
            RealUrlPlan::Keep => redirect_part(url@) is None,
            RealUrlPlan::Fetch { page, index } => redirect_part(url@) matches Some(rest) && Some(
                page@,
            ) == spec_split_nth(rest, "&index="@, 0) && index.deep_view() == spec_split_nth(
                rest,
                "&index="@,
                1,
            ),
        },
{
    let marker = "url=";
    let sep = "&index=";
    proof {
        reveal_strlit("url=");
        reveal_strlit("&index=");
    }
    match split_nth(url, marker, 1) {
        None => RealUrlPlan::Keep,
        Some(rest) => {
            let page = split_nth(rest.as_str(), sep, 0);
            let index = split_nth(rest.as_str(), sep, 1);
            match page {
                Some(page) => RealUrlPlan::Fetch { page, index },
                None => {
                    proof {
                        lemma_split_first_piece(rest@, sep@);
                    }
                    RealUrlPlan::Keep
                },
            }
        },
    }
}

/// The first piece of a split always exists.
pub proof fn lemma_split_first_piece(s: Seq<char>, p: Seq<char>)
    ensures
        spec_split_nth(s, p, 0) is Some,
{
}

/// Why a redirect page could not be read.
pub enum RealUrlError {
    /// The text after `&index=` is not a number.
    BadIndex,
}

/// The real link that a loaded redirect page gives: the source of the
/// frame at position `index` (counted from 1), or `url` itself where there
/// is no such frame.
pub open spec fn spec_real_url(url: Seq<char>, index: Seq<char>, page_body: Seq<char>) -> Option<
    Seq<char>,
> {
    match spec_parse_unsigned(index, usize::MAX as nat) {
        Some(n) => Some(
            match spec_iframe_src(page_body, n - 1) {
                Some(src) => src,
                None => url,
            },
        ),
        None => None,
    }
}

/// The end of `get_real_url` once the redirect page has been loaded.
/// Position 0 is left out: it is below the first frame.
pub fn real_url_from_page(url: &str, index: &str, page_body: &str) -> (r: Result<
    String,
    RealUrlError,
>)
    requires
        spec_parse_unsigned(index@, usize::MAX as nat) != Some(0nat),
    ensures
        match r {
            Ok(s) => spec_real_url(url@, index@, page_body@) == Some(s@),
            Err(RealUrlError::BadIndex) => spec_real_url(url@, index@, page_body@) is None,
        },
{
    match parse_usize(index) {
        None => Err(RealUrlError::BadIndex),
        Some(n) => match get_iframe_src(page_body, n - 1) {
            Some(src) => Ok(src),
            None => Ok(url.to_owned()),
        },
    }
}

/// Whether the size of the file behind `url` is looked up: links of the
/// `nontonanime` host are never probed.
pub fn filesize_wanted(url: &str) -> (b: bool)
    ensures
        b == !spec_contains(url@, "nontonanime"@),
{
    !contains(url, "nontonanime")
}

/// The size label for a `Content-Length` header value.
pub open spec fn spec_filesize_label(content_length: Option<Seq<char>>) -> Option<Seq<char>> {
    match content_length {
        Some(s) => match spec_parse_unsigned(s, u64::MAX as nat) {
            Some(n) => Some(spec_format_size_binary(n as u64)),
            None => None,
        },
        None => None,
    }
}

/// The end of `get_filesize`: a human-readable size (powers of 1024) for
/// the header value, when it is a number.
pub fn filesize_label(content_length: Option<&str>) -> (r: Option<String>)
    ensures
        r.deep_view() == spec_filesize_label(content_length.deep_view()),
{
    match content_length {
        Some(s) => match parse_u64(s) {
            Some(n) => Some(format_size_binary(n)),
            None => None,
        },
        None => None,
    }
}

/// The poster image to draw, from what fetching the poster returned
/// (`None` when the fetch failed): the image its bytes decode to; none when
/// nothing was fetched or the bytes are not an image.
pub fn poster_image(fetched: Option<Vec<u8>>) -> (r: Option<image::DynamicImage>)
    ensures
        r is Some <==> (fetched matches Some(bytes) && spec_image_decodes(bytes@)),
{
    match fetched {
        Some(bytes) => decode_image(bytes.as_slice()),
        None => None,
    }
}

} // verus!
