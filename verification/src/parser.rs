//! The request parser: a pure transform from the raw text read off a
//! socket to a structured request.
//!
//! Framing: the request line runs to the first CR LF (or to the end of
//! the input when there is none); header lines follow, one per CR LF,
//! up to the first empty line; everything after that empty line is the
//! body. The request line must hold at least three space-separated
//! tokens (method, target, version); a header line must hold a colon,
//! and its value is taken with leading spaces stripped. A malformed
//! request is answered with 400, never dropped silently.

use vstd::prelude::*;

use crate::request::{Request, RequestView};
use crate::strutil::{
    char_index, crlf_index, find_char, find_crlf, lemma_char_index, lemma_crlf_index,
    nonempty_from, spec_nonempty, spec_split, spec_trim_start, split_str, trim_start,
};

verus! {

/// Why a request failed to parse.
#[derive(Clone, Copy, Debug, PartialEq, Eq, Structural)]
pub enum ParseError {
    /// The request line has fewer than three tokens.
    RequestLine,
    /// A header line has no colon.
    Header,
}

/// The name and value of one header line: the text before the first
/// colon, and the text after it with leading spaces stripped.
pub open spec fn spec_header_line(line: Seq<char>) -> Option<(Seq<char>, Seq<char>)> {
    let k = char_index(line, ':');
    if 0 <= k < line.len() {
        Some((line.take(k), spec_trim_start(line.skip(k + 1))))
    } else {
        None
    }
}

/// The headers and body of the text that follows the request line:
/// one header per CR LF up to the first empty line, then the body.
pub open spec fn spec_parse_headers(s: Seq<char>) -> Option<(Seq<(Seq<char>, Seq<char>)>, Seq<
    char,
>)>
    decreases s.len(),
{
    if s.len() == 0 {
        Some((Seq::empty(), Seq::empty()))
    } else {
        let j = crlf_index(s);
        if 0 <= j && j + 1 < s.len() {
            if j == 0 {
                Some((Seq::empty(), s.skip(2)))
            } else {
                match spec_header_line(s.take(j)) {
                    None => None,
                    Some(h) => match spec_parse_headers(s.skip(j + 2)) {
                        None => None,
                        Some(rest) => Some((seq![h] + rest.0, rest.1)),
                    },
                }
            }
        } else {
            match spec_header_line(s) {
                None => None,
                Some(h) => Some((seq![h], Seq::empty())),
            }
        }
    }
}

/// The method and target of a request line, when it has at least
/// three space-separated tokens.
pub open spec fn spec_request_line(line: Seq<char>) -> Option<(Seq<char>, Seq<char>)> {
    let toks = spec_nonempty(spec_split(line, ' '));
    if toks.len() >= 3 {
        Some((toks[0], toks[1]))
    } else {
        None
    }
}

/// The request line part of a raw request: up to the first CR LF, or
/// the whole input when there is none.
pub open spec fn spec_line_part(s: Seq<char>) -> Seq<char> {
    let i = crlf_index(s);
    if 0 <= i && i + 1 < s.len() {
        s.take(i)
    } else {
        s
    }
}

/// What follows the request line of a raw request.
pub open spec fn spec_rest_part(s: Seq<char>) -> Seq<char> {
    let i = crlf_index(s);
    if 0 <= i && i + 1 < s.len() {
        s.skip(i + 2)
    } else {
        Seq::empty()
    }
}

/// The request parsed from raw text, when the text is well-formed.
pub open spec fn spec_parse(s: Seq<char>) -> Option<RequestView> {
    match spec_request_line(spec_line_part(s)) {
        None => None,
        Some(line) => match spec_parse_headers(spec_rest_part(s)) {
            None => None,
            Some(rest) => Some(
                RequestView { method: line.0, url: line.1, headers: rest.0, body: rest.1 },
            ),
        },
    }
}

/// Parses one header line.
fn parse_header_line(line: &str) -> (r: Result<(String, String), ParseError>)
    ensures
        match r {
            Ok(h) => spec_header_line(line@) == Some((h.0@, h.1@)),
            Err(e) => spec_header_line(line@) is None && e == ParseError::Header,
        },
{
    let n = line.unicode_len();
    match find_char(line, ':') {
        None => Err(ParseError::Header),
        Some(k) => {
            proof {
                lemma_char_index(line@, ':');
            }
            let name = line.substring_char(0, k).to_owned();
            let value = trim_start(line.substring_char(k + 1, n));
            proof {
                assert(name@ =~= line@.take(k as int));
                assert(line@.subrange(k as int + 1, n as int) =~= line@.skip(k as int + 1));
            }
            Ok((name, value))
        },
    }
}

/// Parses the header section and the body that follows it.
fn parse_headers(s: &str) -> (r: Result<(Vec<(String, String)>, String), ParseError>)
    ensures
        match r {
            Ok(hb) => spec_parse_headers(s@) == Some((hb.0.deep_view(), hb.1@)),
            Err(e) => spec_parse_headers(s@) is None && e == ParseError::Header,
        },
    decreases s@.len(),
{
    let n = s.unicode_len();
    if n == 0 {
        let hs: Vec<(String, String)> = Vec::new();
        let body = String::new();
        proof {
            assert(hs.deep_view() =~= Seq::<(Seq<char>, Seq<char>)>::empty());
            assert(body@ =~= Seq::<char>::empty());
        }
        Ok((hs, body))
    } else {
        match find_crlf(s) {
            Some(j) => {
                proof {
                    lemma_crlf_index(s@);
                }
                if j == 0 {
                    let hs: Vec<(String, String)> = Vec::new();
                    let body = s.substring_char(2, n).to_owned();
                    proof {
                        assert(hs.deep_view() =~= Seq::<(Seq<char>, Seq<char>)>::empty());
                        assert(body@ =~= s@.skip(2));
                    }
                    Ok((hs, body))
                } else {
                    let line = s.substring_char(0, j);
                    proof {
                        assert(line@ =~= s@.take(j as int));
                    }
                    match parse_header_line(line) {
                        Err(e) => Err(e),
                        Ok(h) => {
                            let tail = s.substring_char(j + 2, n);
                            proof {
                                assert(tail@ =~= s@.skip(j as int + 2));
                            }
                            match parse_headers(tail) {
                                Err(e) => Err(e),
                                Ok(rest) => {
                                    let mut hs: Vec<(String, String)> = Vec::new();
                                    hs.push(h);
                                    let mut rest_hs = rest.0;
                                    hs.append(&mut rest_hs);
                                    proof {
                                        assert(hs.deep_view() =~= seq![
                                            (h.0@, h.1@),
                                        ] + spec_parse_headers(tail@)->Some_0.0);
                                    }
                                    Ok((hs, rest.1))
                                },
                            }
                        },
                    }
                }
            },
            None => {
                match parse_header_line(s) {
                    Err(e) => Err(e),
                    Ok(h) => {
                        let mut hs: Vec<(String, String)> = Vec::new();
                        hs.push(h);
                        let body = String::new();
                        proof {
                            assert(hs.deep_view() =~= seq![(h.0@, h.1@)]);
                            assert(body@ =~= Seq::<char>::empty());
                        }
                        Ok((hs, body))
                    },
                }
            },
        }
    }
}

/// Parses the request line into method and target.
fn parse_request_line(line: &str) -> (r: Result<(String, String), ParseError>)
    ensures
        match r {
            Ok(mu) => spec_request_line(line@) == Some((mu.0@, mu.1@)),
            Err(e) => spec_request_line(line@) is None && e == ParseError::RequestLine,
        },
{
    let parts = split_str(line, ' ');
    let toks = nonempty_from(&parts, 0);
    proof {
        assert(parts.deep_view().skip(0) =~= parts.deep_view());
    }
    if toks.len() < 3 {
        Err(ParseError::RequestLine)
    } else {
        proof {
            assert(toks.deep_view()[0] == toks@[0]@);
            assert(toks.deep_view()[1] == toks@[1]@);
        }
        Ok((toks[0].clone(), toks[1].clone()))
    }
}

/// Parses a raw request.
///
/// Returns the parsed request exactly when the raw text is
/// well-formed; otherwise says which part was malformed.
pub fn parse_request(raw: &str) -> (r: Result<Request, ParseError>)
    ensures
        match r {
            Ok(req) => spec_parse(raw@) == Some(req@),
            Err(e) => {
                &&& spec_parse(raw@) is None
                &&& (e == ParseError::RequestLine) <==> spec_request_line(spec_line_part(raw@))
                    is None
            },
        },
{
    let n = raw.unicode_len();
    let line_end = find_crlf(raw);
    proof {
        lemma_crlf_index(raw@);
    }
    let (line, rest) = match line_end {
        Some(i) => {
            let line = raw.substring_char(0, i);
            let rest = raw.substring_char(i + 2, n);
            proof {
                assert(line@ =~= spec_line_part(raw@));
                assert(rest@ =~= spec_rest_part(raw@));
            }
            (line, rest)
        },
        None => {
            proof {
                assert(raw@ =~= spec_line_part(raw@));
                assert(raw@.subrange(n as int, n as int) =~= spec_rest_part(raw@));
            }
            (raw, raw.substring_char(n, n))
        },
    };
    match parse_request_line(line) {
        Err(e) => Err(e),
        Ok(mu) => match parse_headers(rest) {
            Err(e) => Err(e),
            Ok(hb) => Ok(Request { method: mu.0, url: mu.1, headers: hb.0, body: hb.1 }),
        },
    }
}

} // verus!
