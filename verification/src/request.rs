//! HTTP requests as plain values: what to send, not how.

use vstd::prelude::*;

verus! {

/// The HTTP method of a request.
pub enum Method {
    Get,
    Post,
    Head,
}

/// A request: method, address, header lines in order, and an optional body.
pub struct HttpRequest {
    pub method: Method,
    pub url: String,
    pub headers: Vec<(String, String)>,
    pub body: Option<String>,
}

/// The mathematical value of an [`HttpRequest`].
pub struct HttpRequestView {
    pub method: Method,
    pub url: Seq<char>,
    pub headers: Seq<(Seq<char>, Seq<char>)>,
    pub body: Option<Seq<char>>,
}

impl View for HttpRequest {
    type V = HttpRequestView;

    open spec fn view(&self) -> HttpRequestView {
        HttpRequestView {
            method: self.method,
            url: self.url@,
            headers: self.headers.deep_view(),
            body: self.body.deep_view(),
        }
    }
}

/// Appends the header line `name: value` to `headers`.
pub fn push_header(headers: &mut Vec<(String, String)>, name: &str, value: &str)
    ensures
        final(headers).deep_view() == old(headers).deep_view().push((name@, value@)),
{
    let ghost before = headers.deep_view();
    headers.push((name.to_owned(), value.to_owned()));
    assert(headers.deep_view() =~= before.push((name@, value@)));
}

} // verus!
