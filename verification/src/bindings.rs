//! The calls this library makes into other crates and into parts of the
//! standard library that carry no specification of their own. Each item
//! states what the called code is documented to do; nothing here is proved.

use vstd::prelude::*;
use vstd::utf8::{decode_utf8, valid_utf8};

use base64::Engine;

verus! {

/// The successive non-overlapping matches that `regex::Regex::captures_iter`
/// finds of `pattern` in `haystack`, each as the list of its capture groups
/// (group 0 is the whole match; a group that took no part is `None`); nothing
/// when `regex::Regex::new` refuses the pattern.
pub uninterp spec fn spec_regex_captures(pattern: Seq<char>, haystack: Seq<char>) -> Option<
    Seq<Seq<Option<Seq<char>>>>,
>;

/// Compiles `pattern` with `regex::Regex::new` and, when that succeeds,
/// collects every item of `Regex::captures_iter(haystack)` through
/// `Captures::iter`. The contract only names the result: it is a function
/// of the pattern and the haystack.
#[verifier::external_body]
pub(crate) fn regex_captures(pattern: &str, haystack: &str) -> (r: Option<Vec<Vec<Option<String>>>>)
    ensures
        r.deep_view() == spec_regex_captures(pattern@, haystack@),
{
    match regex::Regex::new(pattern) {
        Ok(re) => Some(
            re.captures_iter(haystack).map(
                |c| c.iter().map(|m| m.map(|m| m.as_str().to_string())).collect(),
            ).collect(),
        ),
        Err(_) => None,
    }
}

/// The bytes that the standard base64 alphabet (with padding) decodes
/// `input` to, or nothing when `input` is not valid base64.
pub uninterp spec fn spec_base64_decode(input: Seq<char>) -> Option<Seq<u8>>;

/// The error type of `base64::Engine::decode`.
#[verifier::external_type_specification]
#[verifier::external_body]
pub struct ExDecodeError(base64::DecodeError);

/// `base64::engine::general_purpose::STANDARD.decode(input)`. The contract
/// names the decoded bytes: `Ok` carries them, `Err` comes exactly when there
/// are none.
#[verifier::external_body]
pub(crate) fn base64_decode(input: &str) -> (r: Result<Vec<u8>, base64::DecodeError>)
    ensures
        match r {
            Ok(v) => spec_base64_decode(input@) == Some(v@),
            Err(_) => spec_base64_decode(input@) is None,
        },
{
    base64::engine::general_purpose::STANDARD.decode(input)
}

/// `String::from_utf8`: the text that `bytes` encode in UTF-8, when they are
/// valid UTF-8.
#[verifier::external_body]
pub(crate) fn utf8_string(bytes: Vec<u8>) -> (r: Option<String>)
    ensures
        r is Some <==> valid_utf8(bytes@),
        r matches Some(s) ==> s@ == decode_utf8(bytes@),
{
    String::from_utf8(bytes).ok()
}

/// The text that `html_escape::decode_html_entities` produces from `text`.
pub uninterp spec fn spec_decode_html_entities(text: Seq<char>) -> Seq<char>;

/// `html_escape::decode_html_entities(text)`, taken as an owned string.
#[verifier::external_body]
pub(crate) fn decode_html_entities(text: &str) -> (r: String)
    ensures
        r@ == spec_decode_html_entities(text@),
{
    html_escape::decode_html_entities(text).into_owned()
}

/// The text that `humansize::format_size` gives for `size` bytes with the
/// `BINARY` options (powers of 1024, such as "1.50 MiB").
pub uninterp spec fn spec_format_size_binary(size: u64) -> Seq<char>;

/// `humansize::format_size(size, humansize::BINARY)`.
#[verifier::external_body]
pub(crate) fn format_size_binary(size: u64) -> (r: String)
    ensures
        r@ == spec_format_size_binary(size),
{
    humansize::format_size(size, humansize::BINARY)
}

/// What `str::to_lowercase` returns for `s` (Unicode lower-case mapping).
pub uninterp spec fn spec_to_lowercase(s: Seq<char>) -> Seq<char>;

/// `str::to_lowercase(s)`.
#[verifier::external_body]
pub(crate) fn to_lowercase(s: &str) -> (r: String)
    ensures
        r@ == spec_to_lowercase(s@),
{
    s.to_lowercase()
}

/// A decoded image of the `image` crate.
#[verifier::external_type_specification]
#[verifier::external_body]
pub struct ExDynamicImage(image::DynamicImage);

/// Whether `image::load_from_memory` decodes `bytes`: their format is
/// guessed from their first bytes and the image read in that format.
pub uninterp spec fn spec_image_decodes(bytes: Seq<u8>) -> bool;

/// `image::load_from_memory(bytes)`, its error dropped. The contract names
/// only whether an image comes back: the result depends on the bytes alone.
#[verifier::external_body]
pub(crate) fn decode_image(bytes: &[u8]) -> (r: Option<image::DynamicImage>)
    ensures
        r is Some <==> spec_image_decodes(bytes@),
{
    image::load_from_memory(bytes).ok()
}

} // verus!
