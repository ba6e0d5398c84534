//! The request model: a parsed HTTP request, immutable once built.

use vstd::prelude::*;

use crate::strutil::char_index;

verus! {

/// The mathematical model of a request: its method, its target URL
/// (path plus optional query), its headers in arrival order, and its
/// raw body.
pub struct RequestView {
    pub method: Seq<char>,
    pub url: Seq<char>,
    pub headers: Seq<(Seq<char>, Seq<char>)>,
    pub body: Seq<char>,
}

/// A parsed HTTP request.
pub struct Request {
    pub method: String,
    pub url: String,
    pub headers: Vec<(String, String)>,
    pub body: String,
}

impl View for Request {
    type V = RequestView;

    open spec fn view(&self) -> RequestView {
        RequestView {
            method: self.method@,
            url: self.url@,
            headers: self.headers.deep_view(),
            body: self.body@,
        }
    }
}

/// The path part of a request target: everything before the first
/// `?`, or the whole target when it has no query string.
pub open spec fn spec_path_of(url: Seq<char>) -> Seq<char> {
    let i = char_index(url, '?');
    if 0 <= i < url.len() {
        url.take(i)
    } else {
        url
    }
}

/// The query part of a request target: everything after the first
/// `?`, when there is one.
pub open spec fn spec_query_of(url: Seq<char>) -> Option<Seq<char>> {
    let i = char_index(url, '?');
    if 0 <= i < url.len() {
        Some(url.skip(i + 1))
    } else {
        None
    }
}

/// Copies a header list.
pub fn clone_headers(headers: &Vec<(String, String)>) -> (r: Vec<(String, String)>)
    ensures
        r.deep_view() == headers.deep_view(),
{
    let mut r: Vec<(String, String)> = Vec::new();
    let mut i: usize = 0;
    while i < headers.len()
        invariant
            i <= headers@.len(),
            r@.len() == i,
            forall|j: int| 0 <= j < i ==> r@[j].deep_view() == headers@[j].deep_view(),
        decreases headers@.len() - i,
    {
        let pair = &headers[i];
        r.push((pair.0.clone(), pair.1.clone()));
        i = i + 1;
    }
    proof {
        assert(r.deep_view() =~~= headers.deep_view());
    }
    r
}

impl Request {
    /// Builds a request from its parts.
    pub fn new(method: String, url: String, headers: Vec<(String, String)>, body: String) -> (r:
        Request)
        ensures
            r@.method == method@,
            r@.url == url@,
            r@.headers == headers.deep_view(),
            r@.body == body@,
    {
        Request { method, url, headers, body }
    }

    /// A copy of the header list, in arrival order.
    pub fn headers(&self) -> (r: Vec<(String, String)>)
        ensures
            r.deep_view() == self@.headers,
    {
        clone_headers(&self.headers)
    }

    /// The request target, path and query together.
    pub fn url(&self) -> (r: String)
        ensures
            r@ == self@.url,
    {
        self.url.clone()
    }

    /// The request method.
    pub fn method(&self) -> (r: String)
        ensures
            r@ == self@.method,
    {
        self.method.clone()
    }

    /// The path part of the target, without any query string.
    pub fn path(&self) -> (r: String)
        ensures
            r@ == spec_path_of(self@.url),
    {
        let s = self.url.as_str();
        match crate::strutil::find_char(s, '?') {
            Some(i) => {
                proof {
                    crate::strutil::lemma_char_index(self.url@, '?');
                }
                let r = s.substring_char(0, i).to_owned();
                proof {
                    assert(r@ =~= spec_path_of(self@.url));
                }
                r
            },
            None => {
                let r = self.url.clone();
                r
            },
        }
    }

    /// The query part of the target, when the target has one.
    pub fn query(&self) -> (r: Option<String>)
        ensures
            match r {
                Some(q) => spec_query_of(self@.url) == Some(q@),
                None => spec_query_of(self@.url) is None,
            },
    {
        let s = self.url.as_str();
        let n = s.unicode_len();
        match crate::strutil::find_char(s, '?') {
            Some(i) => {
                proof {
                    crate::strutil::lemma_char_index(self.url@, '?');
                }
                let q = s.substring_char(i + 1, n).to_owned();
                proof {
                    assert(q@ =~= self@.url.skip(i + 1));
                }
                Some(q)
            },
            None => None,
        }
    }
}

impl Clone for Request {
    /// A copy with the same model.
    fn clone(&self) -> (r: Self)
        ensures
            r@ == self@,
    {
        Request {
            method: self.method.clone(),
            url: self.url.clone(),
            headers: clone_headers(&self.headers),
            body: self.body.clone(),
        }
    }
}

} // verus!
