//! The router: path patterns of literal, named-capture and trailing
//! wildcard segments, compiled once at registration, and matched
//! against concrete paths with literal-over-parameter precedence.
//!
//! Patterns and paths are read as their nonempty `/`-separated
//! segments, so a trailing slash never changes a match. A `{name}`
//! segment captures one path segment; a `{*name}` segment must stand
//! last and captures the joined remainder of the path, possibly
//! empty. Among the routes of a method that match a path, the one
//! whose segment kinds compare least — literal before parameter
//! before wildcard, position by position — wins; among equals, the
//! first registered wins. Registering the same method and pattern
//! text twice is refused, deterministically.

use vstd::prelude::*;

use crate::request::spec_path_of;
use crate::strutil::{
    char_free, find_char, join_slash, lemma_nonempty_parts, lemma_split_join,
    lemma_split_parts_free, nonempty_from, spec_join, spec_nonempty, spec_split, split_str,
    str_eq,
};

verus! {

/// One compiled pattern segment.
pub enum PatSeg {
    /// Matches exactly this text.
    Literal(String),
    /// Matches any one segment, capturing it under this name.
    Param(String),
    /// Matches the whole remainder, capturing it under this name.
    Wildcard(String),
}

/// The model of a pattern segment.
pub enum PatSegView {
    Literal(Seq<char>),
    Param(Seq<char>),
    Wildcard(Seq<char>),
}

impl View for PatSeg {
    type V = PatSegView;

    open spec fn view(&self) -> PatSegView {
        match self {
            PatSeg::Literal(s) => PatSegView::Literal(s@),
            PatSeg::Param(s) => PatSegView::Param(s@),
            PatSeg::Wildcard(s) => PatSegView::Wildcard(s@),
        }
    }
}

impl DeepView for PatSeg {
    type V = PatSegView;

    open spec fn deep_view(&self) -> PatSegView {
        self@
    }
}

impl Clone for PatSeg {
    /// A copy with the same model.
    fn clone(&self) -> (r: Self)
        ensures
            r@ == self@,
    {
        match self {
            PatSeg::Literal(s) => PatSeg::Literal(s.clone()),
            PatSeg::Param(s) => PatSeg::Param(s.clone()),
            PatSeg::Wildcard(s) => PatSeg::Wildcard(s.clone()),
        }
    }
}

/// Why a route could not be registered.
#[derive(Clone, Copy, Debug, PartialEq, Eq, Structural)]
pub enum RouteError {
    /// The path pattern is malformed: an unclosed or empty capture,
    /// or a wildcard that does not stand last.
    BadPattern,
    /// The same method and pattern text are already registered.
    Duplicate,
}

/// How one pattern text segment compiles: text not opening a brace is
/// a literal; `{name}` is a named capture; `{*name}` is a wildcard;
/// an unclosed brace or an empty name compiles to nothing.
pub open spec fn spec_seg(part: Seq<char>) -> Option<PatSegView> {
    if part.len() == 0 {
        None
    } else if part[0] != '{' {
        Some(PatSegView::Literal(part))
    } else if part.len() >= 3 && part.last() == '}' {
        if part[1] == '*' {
            if part.len() >= 4 {
                Some(PatSegView::Wildcard(part.subrange(2, part.len() - 1)))
            } else {
                None
            }
        } else {
            Some(PatSegView::Param(part.subrange(1, part.len() - 1)))
        }
    } else {
        None
    }
}

/// How a pattern's segments compile: each segment on its own, with a
/// wildcard accepted only in the last position.
pub open spec fn spec_compile(parts: Seq<Seq<char>>) -> Option<Seq<PatSegView>>
    decreases parts.len(),
{
    if parts.len() == 0 {
        Some(Seq::empty())
    } else {
        match spec_seg(parts[0]) {
            None => None,
            Some(seg) => {
                if seg is Wildcard && parts.len() > 1 {
                    None
                } else {
                    match spec_compile(parts.drop_first()) {
                        None => None,
                        Some(rest) => Some(seq![seg] + rest),
                    }
                }
            },
        }
    }
}

/// The nonempty `/`-separated segments of the path part of a target.
pub open spec fn spec_path_segments(url: Seq<char>) -> Seq<Seq<char>> {
    spec_nonempty(spec_split(spec_path_of(url), '/'))
}

/// How a compiled pattern matches a path, segment by segment, and
/// which captures the match yields, in pattern order.
pub open spec fn spec_match(pat: Seq<PatSegView>, path: Seq<Seq<char>>) -> Option<Seq<(Seq<char>,
    Seq<char>)>>
    decreases pat.len(),
{
    if pat.len() == 0 {
        if path.len() == 0 {
            Some(Seq::empty())
        } else {
            None
        }
    } else {
        match pat[0] {
            PatSegView::Literal(l) => {
                if path.len() > 0 && path[0] == l {
                    spec_match(pat.drop_first(), path.drop_first())
                } else {
                    None
                }
            },
            PatSegView::Param(p) => {
                if path.len() > 0 {
                    match spec_match(pat.drop_first(), path.drop_first()) {
                        None => None,
                        Some(caps) => Some(seq![(p, path[0])] + caps),
                    }
                } else {
                    None
                }
            },
            PatSegView::Wildcard(w) => Some(seq![(w, spec_join(path, '/'))]),
        }
    }
}

/// The precedence rank of a segment kind: literal before parameter
/// before wildcard.
pub open spec fn seg_rank(s: PatSegView) -> int {
    match s {
        PatSegView::Literal(_) => 0,
        PatSegView::Param(_) => 1,
        PatSegView::Wildcard(_) => 2,
    }
}

/// Whether pattern `a` takes precedence over pattern `b`: their
/// segment ranks compared position by position, a shorter pattern
/// winning over an extension of it.
pub open spec fn pat_precedes(a: Seq<PatSegView>, b: Seq<PatSegView>) -> bool
    decreases a.len(),
{
    if a.len() == 0 {
        b.len() > 0
    } else if b.len() == 0 {
        false
    } else if seg_rank(a[0]) < seg_rank(b[0]) {
        true
    } else if seg_rank(a[0]) > seg_rank(b[0]) {
        false
    } else {
        pat_precedes(a.drop_first(), b.drop_first())
    }
}

/// A registered route: its method, its pattern as registered and as
/// compiled, its handler capability, and its declared-parameter
/// schema in declaration order.
pub struct Route {
    pub method: String,
    pub path: String,
    pub segments: Vec<PatSeg>,
    pub handler: u64,
    pub args: Vec<String>,
}

/// The model of a route.
pub struct RouteView {
    pub method: Seq<char>,
    pub path: Seq<char>,
    pub segments: Seq<PatSegView>,
    pub handler: u64,
    pub args: Seq<Seq<char>>,
}

impl View for Route {
    type V = RouteView;

    open spec fn view(&self) -> RouteView {
        RouteView {
            method: self.method@,
            path: self.path@,
            segments: self.segments.deep_view(),
            handler: self.handler,
            args: self.args.deep_view(),
        }
    }
}

impl DeepView for Route {
    type V = RouteView;

    open spec fn deep_view(&self) -> RouteView {
        self@
    }
}

/// Copies a segment list.
fn clone_segments(v: &Vec<PatSeg>) -> (r: Vec<PatSeg>)
    ensures
        r.deep_view() == v.deep_view(),
{
    let mut r: Vec<PatSeg> = Vec::new();
    let mut i: usize = 0;
    while i < v.len()
        invariant
            i <= v@.len(),
            r@.len() == i,
            forall|j: int| 0 <= j < i ==> r@[j].deep_view() == v@[j].deep_view(),
        decreases v@.len() - i,
    {
        r.push(v[i].clone());
        i = i + 1;
    }
    proof {
        assert(r.deep_view() =~~= v.deep_view());
    }
    r
}

/// Copies a string list.
pub fn clone_strings(v: &Vec<String>) -> (r: Vec<String>)
    ensures
        r.deep_view() == v.deep_view(),
{
    let mut r: Vec<String> = Vec::new();
    let mut i: usize = 0;
    while i < v.len()
        invariant
            i <= v@.len(),
            r@.len() == i,
            forall|j: int| 0 <= j < i ==> r@[j].deep_view() == v@[j].deep_view(),
        decreases v@.len() - i,
    {
        r.push(v[i].clone());
        i = i + 1;
    }
    proof {
        assert(r.deep_view() =~~= v.deep_view());
    }
    r
}

impl Clone for Route {
    /// A copy with the same model.
    fn clone(&self) -> (r: Self)
        ensures
            r@ == self@,
    {
        let r = Route {
            method: self.method.clone(),
            path: self.path.clone(),
            segments: clone_segments(&self.segments),
            handler: self.handler,
            args: clone_strings(&self.args),
        };
        proof {
            assert(r@ =~~= self@);
        }
        r
    }
}

/// Compiles one pattern text segment.
fn compile_seg(part: &str) -> (r: Option<PatSeg>)
    ensures
        match r {
            Some(seg) => spec_seg(part@) == Some(seg@),
            None => spec_seg(part@) is None,
        },
{
    let n = part.unicode_len();
    if n == 0 {
        None
    } else if part.get_char(0) != '{' {
        Some(PatSeg::Literal(part.to_owned()))
    } else if n >= 3 && part.get_char(n - 1) == '}' {
        if part.get_char(1) == '*' {
            if n >= 4 {
                let name = part.substring_char(2, n - 1).to_owned();
                proof {
                    assert(name@ =~= part@.subrange(2, part@.len() - 1));
                }
                Some(PatSeg::Wildcard(name))
            } else {
                None
            }
        } else {
            let name = part.substring_char(1, n - 1).to_owned();
            proof {
                assert(name@ =~= part@.subrange(1, part@.len() - 1));
            }
            Some(PatSeg::Param(name))
        }
    } else {
        None
    }
}

/// Compiles the pattern segments of `parts[from..]`.
fn compile_from(parts: &Vec<String>, from: usize) -> (r: Result<Vec<PatSeg>, RouteError>)
    requires
        from <= parts@.len(),
    ensures
        match r {
            Ok(segs) => spec_compile(parts.deep_view().skip(from as int)) == Some(
                segs.deep_view(),
            ),
            Err(e) => spec_compile(parts.deep_view().skip(from as int)) is None && e
                == RouteError::BadPattern,
        },
    decreases parts@.len() - from,
{
    if from == parts.len() {
        let segs: Vec<PatSeg> = Vec::new();
        proof {
            assert(segs.deep_view() =~= Seq::<PatSegView>::empty());
            assert(parts.deep_view().skip(from as int) =~= Seq::<Seq<char>>::empty());
        }
        Ok(segs)
    } else {
        proof {
            assert(parts.deep_view().skip(from as int)[0] == parts@[from as int]@);
            assert(parts.deep_view().skip(from as int).drop_first() =~= parts.deep_view().skip(
                from as int + 1,
            ));
        }
        match compile_seg(parts[from].as_str()) {
            None => Err(RouteError::BadPattern),
            Some(seg) => {
                let is_wild = match &seg {
                    PatSeg::Wildcard(_) => true,
                    _ => false,
                };
                if is_wild && from + 1 < parts.len() {
                    Err(RouteError::BadPattern)
                } else {
                    match compile_from(parts, from + 1) {
                        Err(e) => Err(e),
                        Ok(rest) => {
                            let mut segs: Vec<PatSeg> = Vec::new();
                            segs.push(seg);
                            let mut rest_v = rest;
                            segs.append(&mut rest_v);
                            proof {
                                assert(segs.deep_view() =~= seq![
                                    segs@[0].deep_view(),
                                ] + spec_compile(parts.deep_view().skip(from as int + 1))->Some_0);
                            }
                            Ok(segs)
                        },
                    }
                }
            },
        }
    }
}

/// Splits a pattern or path into its nonempty `/`-separated segments.
pub fn path_segments(s: &str) -> (r: Vec<String>)
    ensures
        r.deep_view() == spec_nonempty(spec_split(s@, '/')),
{
    let parts = split_str(s, '/');
    let r = nonempty_from(&parts, 0);
    proof {
        assert(parts.deep_view().skip(0) =~= parts.deep_view());
    }
    r
}

impl Route {
    /// Compiles a route from its method, its pattern text, its
    /// handler capability and its declared-parameter schema. Refuses
    /// a malformed pattern.
    pub fn new(method: String, path: String, handler: u64, args: Vec<String>) -> (r: Result<
        Route,
        RouteError,
    >)
        ensures
            match r {
                Ok(rt) => {
                    &&& spec_compile(spec_nonempty(spec_split(path@, '/'))) == Some(rt@.segments)
                    &&& rt@.method == method@
                    &&& rt@.path == path@
                    &&& rt@.handler == handler
                    &&& rt@.args == args.deep_view()
                },
                Err(e) => {
                    &&& spec_compile(spec_nonempty(spec_split(path@, '/'))) is None
                    &&& e == RouteError::BadPattern
                },
            },
    {
        let parts = path_segments(path.as_str());
        proof {
            assert(parts.deep_view().skip(0) =~= parts.deep_view());
        }
        match compile_from(&parts, 0) {
            Err(e) => Err(e),
            Ok(segs) => {
                proof {
                    assert(parts.deep_view().skip(0) =~= parts.deep_view());
                    assert(spec_compile(spec_nonempty(spec_split(path@, '/'))) == Some(
                        segs.deep_view(),
                    ));
                }
                let rt = Route { method, path, segments: segs, handler, args };
                proof {
                    assert(spec_compile(spec_nonempty(spec_split(rt.path@, '/'))) == Some(
                        rt@.segments,
                    ));
                    assert(rt@.method == rt.method@);
                    assert(rt@.args == rt.args.deep_view());
                }
                Ok(rt)
            },
        }
    }
}

/// What a freshly registered route satisfies: its fields are as
/// given, and its segments are the compiled pattern.
pub open spec fn route_built(
    rt: RouteView,
    method: Seq<char>,
    path: Seq<char>,
    handler: u64,
    args: Seq<Seq<char>>,
) -> bool {
    &&& spec_compile(spec_nonempty(spec_split(path, '/'))) == Some(rt.segments)
    &&& rt.method == method
    &&& rt.path == path
    &&& rt.handler == handler
    &&& rt.args == args
}

/// Builds a GET route.
pub fn get(path: String, handler: u64, args: Vec<String>) -> (r: Result<Route, RouteError>)
    ensures
        match r {
            Ok(rt) => route_built(rt@, "GET"@, path@, handler, args.deep_view()),
            Err(e) => spec_compile(spec_nonempty(spec_split(path@, '/'))) is None && e
                == RouteError::BadPattern,
        },
{
    Route::new("GET".to_owned(), path, handler, args)
}

/// Builds a POST route.
pub fn post(path: String, handler: u64, args: Vec<String>) -> (r: Result<Route, RouteError>)
    ensures
        match r {
            Ok(rt) => route_built(rt@, "POST"@, path@, handler, args.deep_view()),
            Err(e) => spec_compile(spec_nonempty(spec_split(path@, '/'))) is None && e
                == RouteError::BadPattern,
        },
{
    Route::new("POST".to_owned(), path, handler, args)
}

/// Builds a PUT route.
pub fn put(path: String, handler: u64, args: Vec<String>) -> (r: Result<Route, RouteError>)
    ensures
        match r {
            Ok(rt) => route_built(rt@, "PUT"@, path@, handler, args.deep_view()),
            Err(e) => spec_compile(spec_nonempty(spec_split(path@, '/'))) is None && e
                == RouteError::BadPattern,
        },
{
    Route::new("PUT".to_owned(), path, handler, args)
}

/// Builds a PATCH route.
pub fn patch(path: String, handler: u64, args: Vec<String>) -> (r: Result<Route, RouteError>)
    ensures
        match r {
            Ok(rt) => route_built(rt@, "PATCH"@, path@, handler, args.deep_view()),
            Err(e) => spec_compile(spec_nonempty(spec_split(path@, '/'))) is None && e
                == RouteError::BadPattern,
        },
{
    Route::new("PATCH".to_owned(), path, handler, args)
}

/// Builds a DELETE route.
pub fn delete(path: String, handler: u64, args: Vec<String>) -> (r: Result<Route, RouteError>)
    ensures
        match r {
            Ok(rt) => route_built(rt@, "DELETE"@, path@, handler, args.deep_view()),
            Err(e) => spec_compile(spec_nonempty(spec_split(path@, '/'))) is None && e
                == RouteError::BadPattern,
        },
{
    Route::new("DELETE".to_owned(), path, handler, args)
}

/// Builds the GET route that serves files under a directory: the
/// wildcard pattern `/<path>/{*path}`, whose handler capability
/// receives the captured remainder under the name `path`. The file
/// lookup itself belongs to the handler domain.
pub fn static_files(path: String, handler: u64) -> (r: Result<Route, RouteError>)
    ensures
        match r {
            Ok(rt) => route_built(rt@, "GET"@, "/"@ + path@ + "/{*path}"@, handler, seq!["path"@]),
            Err(e) => spec_compile(spec_nonempty(spec_split("/"@ + path@ + "/{*path}"@, '/')))
                is None && e == RouteError::BadPattern,
        },
{
    let mut pattern = "/".to_owned();
    pattern.append(path.as_str());
    pattern.append("/{*path}");
    let mut args: Vec<String> = Vec::new();
    args.push("path".to_owned());
    proof {
        assert(args.deep_view() =~= seq!["path"@]);
        assert(pattern@ =~= "/"@ + path@ + "/{*path}"@);
    }
    Route::new("GET".to_owned(), pattern, handler, args)
}

/// A match: the route that won, cloned into owned values, and its
/// captures in pattern order.
pub struct RouteMatch {
    pub route: Route,
    pub params: Vec<(String, String)>,
}

/// Whether a route answers `method` and matches `path`.
pub open spec fn route_matches(r: RouteView, method: Seq<char>, path: Seq<Seq<char>>) -> bool {
    r.method == method && spec_match(r.segments, path) is Some
}

/// The index of the route that wins `method` and `path`: among the
/// matching routes, one of least precedence rank, and the earliest
/// registered among those.
pub open spec fn spec_find_idx(routes: Seq<RouteView>, method: Seq<char>, path: Seq<Seq<char>>)
    -> Option<int>
    decreases routes.len(),
{
    if routes.len() == 0 {
        None
    } else {
        let rest = spec_find_idx(routes.drop_first(), method, path);
        let head_ok = route_matches(routes[0], method, path);
        match rest {
            None => if head_ok {
                Some(0)
            } else {
                None
            },
            Some(k) => {
                if head_ok && !pat_precedes(routes[k + 1].segments, routes[0].segments) {
                    Some(0)
                } else {
                    Some(k + 1)
                }
            },
        }
    }
}

/// What the winning index satisfies: it matches, nothing matching
/// precedes it strictly, and every matching route before it is
/// strictly worse; when no index wins, nothing matches.
pub proof fn lemma_find_idx(routes: Seq<RouteView>, method: Seq<char>, path: Seq<Seq<char>>)
    ensures
        spec_find_idx(routes, method, path) is None ==> forall|j: int|
            0 <= j < routes.len() ==> !route_matches(routes[j], method, path),
        spec_find_idx(routes, method, path) matches Some(i) ==> {
            &&& 0 <= i < routes.len()
            &&& route_matches(routes[i], method, path)
            &&& forall|j: int|
                0 <= j < routes.len() && route_matches(#[trigger] routes[j], method, path)
                    ==> !pat_precedes(routes[j].segments, routes[i].segments)
            &&& forall|j: int|
                0 <= j < i && route_matches(#[trigger] routes[j], method, path) ==> pat_precedes(
                    routes[i].segments,
                    routes[j].segments,
                )
        },
    decreases routes.len(),
{
    if routes.len() == 0 {
    } else {
        lemma_find_idx(routes.drop_first(), method, path);
        let rest = spec_find_idx(routes.drop_first(), method, path);
        let head_ok = route_matches(routes[0], method, path);
        if rest is None {
            if !head_ok {
                assert forall|j: int| 0 <= j < routes.len() implies !route_matches(
                    routes[j],
                    method,
                    path,
                ) by {
                    if j > 0 {
                        assert(routes.drop_first()[j - 1] == routes[j]);
                    }
                }
            } else {
                assert forall|j: int|
                    0 <= j < routes.len() && route_matches(
                        #[trigger] routes[j],
                        method,
                        path,
                    ) implies !pat_precedes(routes[j].segments, routes[0].segments) by {
                    if j > 0 {
                        assert(routes.drop_first()[j - 1] == routes[j]);
                        assert(!route_matches(routes.drop_first()[j - 1], method, path));
                    } else {
                        lemma_precedes_irrefl(routes[0].segments);
                    }
                }
            }
        } else {
            let k = rest->Some_0;
            assert(routes.drop_first()[k] == routes[k + 1]);
            if head_ok && !pat_precedes(routes[k + 1].segments, routes[0].segments) {
                assert forall|j: int|
                    0 <= j < routes.len() && route_matches(
                        #[trigger] routes[j],
                        method,
                        path,
                    ) implies !pat_precedes(routes[j].segments, routes[0].segments) by {
                    if j > 0 {
                        assert(routes.drop_first()[j - 1] == routes[j]);
                        assert(!pat_precedes(
                            routes.drop_first()[j - 1].segments,
                            routes.drop_first()[k].segments,
                        ));
                        lemma_precedes_order(
                            routes[j].segments,
                            routes[k + 1].segments,
                            routes[0].segments,
                        );
                    } else {
                        lemma_precedes_irrefl(routes[0].segments);
                    }
                }
            } else {
                assert forall|j: int|
                    0 <= j < routes.len() && route_matches(
                        #[trigger] routes[j],
                        method,
                        path,
                    ) implies !pat_precedes(routes[j].segments, routes[k + 1].segments) by {
                    if j > 0 {
                        assert(routes.drop_first()[j - 1] == routes[j]);
                    } else {
                        lemma_precedes_asym(routes[k + 1].segments, routes[0].segments);
                    }
                }
                assert forall|j: int|
                    0 <= j < k + 1 && route_matches(#[trigger] routes[j], method, path) implies
                    pat_precedes(routes[k + 1].segments, routes[j].segments) by {
                    if j > 0 {
                        assert(routes.drop_first()[j - 1] == routes[j]);
                    }
                }
            }
        }
    }
}

/// A pattern never precedes itself.
proof fn lemma_precedes_irrefl(a: Seq<PatSegView>)
    ensures
        !pat_precedes(a, a),
    decreases a.len(),
{
    if a.len() > 0 {
        lemma_precedes_irrefl(a.drop_first());
    }
}

/// Precedence is asymmetric.
proof fn lemma_precedes_asym(a: Seq<PatSegView>, b: Seq<PatSegView>)
    ensures
        pat_precedes(a, b) ==> !pat_precedes(b, a),
    decreases a.len(),
{
    if a.len() > 0 && b.len() > 0 && seg_rank(a[0]) == seg_rank(b[0]) {
        lemma_precedes_asym(a.drop_first(), b.drop_first());
    }
}

/// Precedence is transitive-like across a non-preceding middle
/// pattern: if `a` does not precede `b` and `b` does not precede `c`,
/// then `a` does not precede `c`... stated in the order the search
/// needs: `a` not preceding `b`, and `c` preceded by neither, keeps
/// `a` from preceding `c`.
proof fn lemma_precedes_order(a: Seq<PatSegView>, b: Seq<PatSegView>, c: Seq<PatSegView>)
    requires
        !pat_precedes(a, b),
        !pat_precedes(b, c),
    ensures
        !pat_precedes(a, c),
    decreases a.len() + b.len() + c.len(),
{
    if a.len() == 0 || b.len() == 0 || c.len() == 0 {
    } else {
        if seg_rank(a[0]) == seg_rank(b[0]) && seg_rank(b[0]) == seg_rank(c[0]) {
            lemma_precedes_order(a.drop_first(), b.drop_first(), c.drop_first());
        }
    }
}

/// The capture names a pattern declares, in pattern order.
pub open spec fn pat_names(pat: Seq<PatSegView>) -> Seq<Seq<char>>
    decreases pat.len(),
{
    if pat.len() == 0 {
        Seq::empty()
    } else {
        match pat[0] {
            PatSegView::Literal(_) => pat_names(pat.drop_first()),
            PatSegView::Param(p) => seq![p] + pat_names(pat.drop_first()),
            PatSegView::Wildcard(w) => seq![w] + pat_names(pat.drop_first()),
        }
    }
}

/// A match of a pattern with its wildcard, if any, standing last
/// captures exactly the pattern's declared names, one value each, in
/// pattern order.
pub proof fn lemma_capture_names(pat: Seq<PatSegView>, path: Seq<Seq<char>>)
    requires
        spec_match(pat, path) is Some,
        forall|k: int| 0 <= k < pat.len() - 1 ==> !((#[trigger] pat[k]) is Wildcard),
    ensures
        spec_match(pat, path)->Some_0.map_values(|c: (Seq<char>, Seq<char>)| c.0) == pat_names(
            pat,
        ),
    decreases pat.len(),
{
    let f = |c: (Seq<char>, Seq<char>)| c.0;
    if pat.len() == 0 {
        assert(spec_match(pat, path)->Some_0.map_values(f) =~= pat_names(pat));
    } else {
        match pat[0] {
            PatSegView::Literal(_) => {
                assert forall|k: int| 0 <= k < pat.drop_first().len() - 1 implies !((
                #[trigger] pat.drop_first()[k]) is Wildcard) by {
                    assert(pat.drop_first()[k] == pat[k + 1]);
                }
                lemma_capture_names(pat.drop_first(), path.drop_first());
            },
            PatSegView::Param(p) => {
                assert forall|k: int| 0 <= k < pat.drop_first().len() - 1 implies !((
                #[trigger] pat.drop_first()[k]) is Wildcard) by {
                    assert(pat.drop_first()[k] == pat[k + 1]);
                }
                lemma_capture_names(pat.drop_first(), path.drop_first());
                let caps = spec_match(pat.drop_first(), path.drop_first())->Some_0;
                assert((seq![(p, path[0])] + caps).map_values(f) =~= seq![p] + caps.map_values(
                    f,
                ));
            },
            PatSegView::Wildcard(w) => {
                assert(pat.len() == 1);
                assert(spec_match(pat, path) == Some(seq![(w, spec_join(path, '/'))]));
                assert(pat_names(pat.drop_first()) =~= Seq::<Seq<char>>::empty());
                assert(pat_names(pat) =~= seq![w]);
                assert(seq![(w, spec_join(path, '/'))].map_values(f) =~= seq![w]);
            },
        }
    }
}

/// The segments a pattern and a set of captures stand for: literal
/// segments as themselves, each named capture's value in place of its
/// segment, and a wildcard's captured remainder split back into
/// segments.
pub open spec fn spec_expand(pat: Seq<PatSegView>, caps: Seq<(Seq<char>, Seq<char>)>) -> Seq<
    Seq<char>,
>
    decreases pat.len(),
{
    if pat.len() == 0 {
        Seq::empty()
    } else {
        match pat[0] {
            PatSegView::Literal(l) => seq![l] + spec_expand(pat.drop_first(), caps),
            PatSegView::Param(_) => {
                if caps.len() > 0 {
                    seq![caps[0].1] + spec_expand(pat.drop_first(), caps.drop_first())
                } else {
                    Seq::empty()
                }
            },
            PatSegView::Wildcard(_) => {
                if caps.len() > 0 {
                    spec_nonempty(spec_split(caps[0].1, '/'))
                } else {
                    Seq::empty()
                }
            },
        }
    }
}

/// The segment round trip: substituting a match's captures back into
/// the pattern reconstructs the matched path's segments exactly — no
/// segment is lost or altered by capture.
pub proof fn lemma_match_roundtrip(pat: Seq<PatSegView>, path: Seq<Seq<char>>)
    requires
        spec_match(pat, path) is Some,
        forall|i: int|
            0 <= i < path.len() ==> ((#[trigger] path[i]).len() > 0 && char_free(path[i], '/')),
    ensures
        spec_expand(pat, spec_match(pat, path)->Some_0) == path,
    decreases pat.len(),
{
    if pat.len() == 0 {
        assert(spec_expand(pat, spec_match(pat, path)->Some_0) =~= path);
    } else {
        match pat[0] {
            PatSegView::Literal(l) => {
                assert forall|i: int| 0 <= i < path.drop_first().len() implies ((
                #[trigger] path.drop_first()[i]).len() > 0 && char_free(
                    path.drop_first()[i],
                    '/',
                )) by {
                    assert(path.drop_first()[i] == path[i + 1]);
                }
                lemma_match_roundtrip(pat.drop_first(), path.drop_first());
                assert(spec_expand(pat, spec_match(pat, path)->Some_0) =~= path);
            },
            PatSegView::Param(p) => {
                assert forall|i: int| 0 <= i < path.drop_first().len() implies ((
                #[trigger] path.drop_first()[i]).len() > 0 && char_free(
                    path.drop_first()[i],
                    '/',
                )) by {
                    assert(path.drop_first()[i] == path[i + 1]);
                }
                lemma_match_roundtrip(pat.drop_first(), path.drop_first());
                let caps_rest = spec_match(pat.drop_first(), path.drop_first())->Some_0;
                let caps = spec_match(pat, path)->Some_0;
                assert(caps == seq![(p, path[0])] + caps_rest);
                assert(caps.drop_first() =~= caps_rest);
                assert(caps[0].1 == path[0]);
                assert(spec_expand(pat, caps) =~= path);
            },
            PatSegView::Wildcard(w) => {
                let caps = spec_match(pat, path)->Some_0;
                assert(caps == seq![(w, spec_join(path, '/'))]);
                lemma_split_join(path, '/');
                assert(spec_expand(pat, caps) == path);
            },
        }
    }
}

/// The segments of any target's path are nonempty and hold no slash.
pub proof fn lemma_path_segments_clean(url: Seq<char>)
    ensures
        forall|i: int|
            0 <= i < spec_path_segments(url).len() ==> ((#[trigger] spec_path_segments(
                url,
            )[i]).len() > 0 && char_free(spec_path_segments(url)[i], '/')),
{
    lemma_split_parts_free(spec_path_of(url), '/');
    lemma_nonempty_parts(spec_split(spec_path_of(url), '/'), '/');
}

/// The round trip for a concrete target: a match against the
/// segments of any URL's path expands back to those segments.
pub proof fn lemma_capture_roundtrip(pat: Seq<PatSegView>, url: Seq<char>)
    requires
        spec_match(pat, spec_path_segments(url)) is Some,
    ensures
        spec_expand(pat, spec_match(pat, spec_path_segments(url))->Some_0) == spec_path_segments(
            url,
        ),
{
    lemma_path_segments_clean(url);
    lemma_match_roundtrip(pat, spec_path_segments(url));
}

/// Whether two pattern segments have the same kind, and — for the
/// capturing kinds — the same name; the text of a literal is free.
pub open spec fn same_shape(a: PatSegView, b: PatSegView) -> bool {
    match (a, b) {
        (PatSegView::Literal(_), PatSegView::Literal(_)) => true,
        (PatSegView::Param(x), PatSegView::Param(y)) => x == y,
        (PatSegView::Wildcard(x), PatSegView::Wildcard(y)) => x == y,
        _ => false,
    }
}

/// Captures do not depend on the literal segments: two patterns of
/// the same shape — the literals may differ — matching paths that
/// agree at the captured positions yield the same capture map. In
/// particular, re-registering a route under different literal
/// prefixes leaves every capture as it was.
pub proof fn lemma_captures_literal_independent(
    pat1: Seq<PatSegView>,
    pat2: Seq<PatSegView>,
    path1: Seq<Seq<char>>,
    path2: Seq<Seq<char>>,
)
    requires
        pat1.len() == pat2.len(),
        forall|k: int| 0 <= k < pat1.len() ==> same_shape(pat1[k], #[trigger] pat2[k]),
        spec_match(pat1, path1) is Some,
        spec_match(pat2, path2) is Some,
        forall|k: int|
            0 <= k < pat1.len() && k < path1.len() && k < path2.len() && (#[trigger] pat1[k])
                is Param ==> path1[k] == path2[k],
        forall|k: int|
            0 <= k < pat1.len() && k <= path1.len() && k <= path2.len() && (#[trigger] pat1[k])
                is Wildcard ==> path1.skip(k) == path2.skip(k),
    ensures
        spec_match(pat1, path1) == spec_match(pat2, path2),
    decreases pat1.len(),
{
    if pat1.len() == 0 {
    } else {
        match pat1[0] {
            PatSegView::Wildcard(w) => {
                assert(pat1[0] is Wildcard);
                assert(path1.skip(0) == path2.skip(0));
                assert(path1.skip(0) =~= path1);
                assert(path2.skip(0) =~= path2);
            },
            _ => {
                assert forall|k: int| 0 <= k < pat1.drop_first().len() implies same_shape(
                    pat1.drop_first()[k],
                    #[trigger] pat2.drop_first()[k],
                ) by {
                    assert(pat1.drop_first()[k] == pat1[k + 1]);
                    assert(pat2.drop_first()[k] == pat2[k + 1]);
                }
                assert forall|k: int|
                    0 <= k < pat1.drop_first().len() && k < path1.drop_first().len() && k
                        < path2.drop_first().len() && (#[trigger] pat1.drop_first()[k])
                        is Param implies path1.drop_first()[k] == path2.drop_first()[k] by {
                    assert(pat1.drop_first()[k] == pat1[k + 1]);
                    assert(path1.drop_first()[k] == path1[k + 1]);
                    assert(path2.drop_first()[k] == path2[k + 1]);
                }
                assert forall|k: int|
                    0 <= k < pat1.drop_first().len() && k <= path1.drop_first().len() && k
                        <= path2.drop_first().len() && (#[trigger] pat1.drop_first()[k])
                        is Wildcard implies path1.drop_first().skip(k) == path2.drop_first().skip(
                    k,
                ) by {
                    assert(pat1.drop_first()[k] == pat1[k + 1]);
                    assert(path1.drop_first().skip(k) =~= path1.skip(k + 1));
                    assert(path2.drop_first().skip(k) =~= path2.skip(k + 1));
                }
                lemma_captures_literal_independent(
                    pat1.drop_first(),
                    pat2.drop_first(),
                    path1.drop_first(),
                    path2.drop_first(),
                );
                if pat1[0] is Param {
                    assert(path1[0] == path2[0]);
                }
            },
        }
    }
}

/// Literal-over-parameter precedence: when two routes match and the
/// first's segment kinds strictly precede the second's — as a literal
/// segment precedes a parameter at the same position — the search
/// never answers with the second.
pub proof fn lemma_literal_over_param(
    routes: Seq<RouteView>,
    method: Seq<char>,
    path: Seq<Seq<char>>,
    i: int,
    j: int,
)
    requires
        0 <= i < routes.len(),
        0 <= j < routes.len(),
        route_matches(routes[i], method, path),
        route_matches(routes[j], method, path),
        pat_precedes(routes[i].segments, routes[j].segments),
    ensures
        spec_find_idx(routes, method, path) is Some,
        spec_find_idx(routes, method, path)->Some_0 != j,
{
    lemma_find_idx(routes, method, path);
    let found = spec_find_idx(routes, method, path);
    assert(found is Some);
    if found->Some_0 == j {
        assert(!pat_precedes(routes[i].segments, routes[j].segments));
    }
}

/// Matches `pat[from..]` against `path[from..]`, collecting captures.
fn match_from(pat: &Vec<PatSeg>, path: &Vec<String>, from: usize) -> (r: Option<Vec<(
    String,
    String,
)>>)
    requires
        from <= pat@.len(),
        from <= path@.len(),
    ensures
        match r {
            Some(caps) => spec_match(pat.deep_view().skip(from as int), path.deep_view().skip(
                from as int,
            )) == Some(caps.deep_view()),
            None => spec_match(pat.deep_view().skip(from as int), path.deep_view().skip(
                from as int,
            )) is None,
        },
    decreases pat@.len() - from,
{
    proof {
        assert(pat.deep_view().len() == pat@.len());
        assert(path.deep_view().len() == path@.len());
    }
    if from == pat.len() {
        if from == path.len() {
            let caps: Vec<(String, String)> = Vec::new();
            proof {
                assert(caps.deep_view() =~= Seq::<(Seq<char>, Seq<char>)>::empty());
            }
            Some(caps)
        } else {
            None
        }
    } else {
        proof {
            assert(pat.deep_view().skip(from as int)[0] == pat@[from as int]@);
            assert(pat.deep_view().skip(from as int).drop_first() =~= pat.deep_view().skip(
                from as int + 1,
            ));
            if from < path@.len() {
                assert(path.deep_view().skip(from as int).drop_first() =~= path.deep_view().skip(
                    from as int + 1,
                ));
                assert(path.deep_view().skip(from as int)[0] == path@[from as int]@);
            }
        }
        let seg = &pat[from];
        match seg {
            PatSeg::Literal(l) => {
                if from < path.len() && str_eq(l.as_str(), path[from].as_str()) {
                    match_from(pat, path, from + 1)
                } else {
                    None
                }
            },
            PatSeg::Param(p) => {
                if from < path.len() {
                    match match_from(pat, path, from + 1) {
                        None => None,
                        Some(caps) => {
                            let mut v: Vec<(String, String)> = Vec::new();
                            v.push((p.clone(), path[from].clone()));
                            let mut caps_v = caps;
                            v.append(&mut caps_v);
                            proof {
                                assert(v.deep_view() =~= seq![
                                    (p@, path@[from as int]@),
                                ] + spec_match(
                                    pat.deep_view().skip(from as int + 1),
                                    path.deep_view().skip(from as int + 1),
                                )->Some_0);
                            }
                            Some(v)
                        },
                    }
                } else {
                    None
                }
            },
            PatSeg::Wildcard(w) => {
                let rest = join_slash(path, from);
                let mut v: Vec<(String, String)> = Vec::new();
                v.push((w.clone(), rest));
                proof {
                    assert(v.deep_view() =~= seq![
                        (w@, spec_join(path.deep_view().skip(from as int), '/')),
                    ]);
                }
                Some(v)
            },
        }
    }
}

/// Compares two patterns by precedence.
fn pat_precedes_exec(a: &Vec<PatSeg>, b: &Vec<PatSeg>, from: usize) -> (r: bool)
    requires
        from <= a@.len(),
        from <= b@.len(),
    ensures
        r == pat_precedes(a.deep_view().skip(from as int), b.deep_view().skip(from as int)),
    decreases a@.len() - from,
{
    proof {
        assert(a.deep_view().len() == a@.len());
        assert(b.deep_view().len() == b@.len());
        if from < a@.len() {
            assert(a.deep_view().skip(from as int)[0] == a@[from as int]@);
            assert(a.deep_view().skip(from as int).drop_first() =~= a.deep_view().skip(
                from as int + 1,
            ));
        }
        if from < b@.len() {
            assert(b.deep_view().skip(from as int)[0] == b@[from as int]@);
            assert(b.deep_view().skip(from as int).drop_first() =~= b.deep_view().skip(
                from as int + 1,
            ));
        }
    }
    if from == a.len() {
        from < b.len()
    } else if from == b.len() {
        false
    } else {
        let ra = seg_rank_exec(&a[from]);
        let rb = seg_rank_exec(&b[from]);
        if ra < rb {
            true
        } else if ra > rb {
            false
        } else {
            pat_precedes_exec(a, b, from + 1)
        }
    }
}

/// The precedence rank of a segment.
fn seg_rank_exec(s: &PatSeg) -> (r: u8)
    ensures
        r as int == seg_rank(s@),
{
    match s {
        PatSeg::Literal(_) => 0,
        PatSeg::Param(_) => 1,
        PatSeg::Wildcard(_) => 2,
    }
}

/// A router: routes in registration order, and at most one middleware
/// capability.
pub struct Router {
    pub routes: Vec<Route>,
    pub middleware: Option<u64>,
}

/// The model of a router.
pub struct RouterView {
    pub routes: Seq<RouteView>,
    pub middleware: Option<u64>,
}

impl View for Router {
    type V = RouterView;

    open spec fn view(&self) -> RouterView {
        RouterView { routes: self.routes.deep_view(), middleware: self.middleware }
    }
}

impl DeepView for Router {
    type V = RouterView;

    open spec fn deep_view(&self) -> RouterView {
        self@
    }
}

/// Whether some registered route has this method and pattern text.
pub open spec fn has_route(routes: Seq<RouteView>, method: Seq<char>, path: Seq<char>) -> bool {
    exists|j: int|
        0 <= j < routes.len() && (#[trigger] routes[j]).method == method && routes[j].path == path
}

impl Router {
    /// An empty router.
    pub fn new() -> (r: Router)
        ensures
            r@.routes.len() == 0,
            r@.middleware is None,
    {
        let r = Router { routes: Vec::new(), middleware: None };
        proof {
            assert(r@.routes =~= Seq::<RouteView>::empty());
        }
        r
    }

    /// Installs the middleware capability, replacing any earlier one.
    pub fn middleware(&mut self, middleware: u64)
        ensures
            final(self)@.routes == old(self)@.routes,
            final(self)@.middleware == Some(middleware),
    {
        self.middleware = Some(middleware);
    }

    /// Registers a route. Refuses a method and pattern text already
    /// registered; otherwise appends the route after the existing
    /// ones.
    pub fn route(&mut self, route: Route) -> (r: Result<(), RouteError>)
        ensures
            match r {
                Ok(()) => {
                    &&& !has_route(old(self)@.routes, route@.method, route@.path)
                    &&& final(self)@.routes == old(self)@.routes.push(route@)
                    &&& final(self)@.middleware == old(self)@.middleware
                },
                Err(e) => {
                    &&& e == RouteError::Duplicate
                    &&& has_route(old(self)@.routes, route@.method, route@.path)
                    &&& *final(self) == *old(self)
                },
            },
    {
        let mut j: usize = 0;
        while j < self.routes.len()
            invariant
                j <= self@.routes.len(),
                self == old(self),
                forall|k: int|
                    0 <= k < j ==> !((#[trigger] self@.routes[k]).method == route@.method
                        && self@.routes[k].path == route@.path),
            decreases self@.routes.len() - j,
        {
            proof {
                assert(self@.routes[j as int] == self.routes@[j as int]@);
            }
            if str_eq(self.routes[j].method.as_str(), route.method.as_str()) && str_eq(
                self.routes[j].path.as_str(),
                route.path.as_str(),
            ) {
                return Err(RouteError::Duplicate);
            }
            j = j + 1;
        }
        self.routes.push(route);
        proof {
            assert(self@.routes =~~= old(self)@.routes.push(
                self.routes@[old(self).routes@.len() as int]@,
            ));
        }
        Ok(())
    }

    /// Finds the winning route for a method and a target, stripping
    /// any query string from the target first. Returns the route
    /// cloned into owned values together with its captures, or
    /// nothing when no route of this method matches.
    pub fn find(&self, method: &str, uri: &str) -> (r: Option<RouteMatch>)
        ensures
            match r {
                Some(m) => {
                    &&& spec_find_idx(self@.routes, method@, spec_path_segments(uri@)) matches Some(
                        i,
                    ) && m.route@ == self@.routes[i] && Some(m.params.deep_view()) == spec_match(
                        self@.routes[i].segments,
                        spec_path_segments(uri@),
                    )
                },
                None => spec_find_idx(self@.routes, method@, spec_path_segments(uri@)) is None,
            },
    {
        let path_str = match find_char(uri, '?') {
            Some(q) => {
                proof {
                    crate::strutil::lemma_char_index(uri@, '?');
                }
                uri.substring_char(0, q)
            },
            None => uri,
        };
        proof {
            assert(path_str@ =~= spec_path_of(uri@));
        }
        let segs = path_segments(path_str);
        proof {
            assert(self@.routes.skip(0) =~= self@.routes);
        }
        match self.find_best(method, &segs, 0) {
            None => None,
            Some(k) => {
                proof {
                    lemma_find_idx(self@.routes, method@, spec_path_segments(uri@));
                    assert(self@.routes[k as int] == self.routes@[k as int]@);
                }
                let caps = match_from(&self.routes[k].segments, &segs, 0);
                proof {
                    assert(self.routes@[k as int].segments.deep_view().skip(0)
                        =~= self@.routes[k as int].segments);
                    assert(segs.deep_view().skip(0) =~= spec_path_segments(uri@));
                }
                match caps {
                    None => None,
                    Some(params) => Some(
                        RouteMatch { route: self.routes[k].clone(), params },
                    ),
                }
            },
        }
    }

    /// The index of the winning route among `routes[from..]`.
    fn find_best(&self, method: &str, segs: &Vec<String>, from: usize) -> (r: Option<usize>)
        requires
            from <= self.routes@.len(),
        ensures
            match r {
                Some(k) => from <= k < self.routes@.len() && spec_find_idx(
                    self@.routes.skip(from as int),
                    method@,
                    segs.deep_view(),
                ) == Some(k - from),
                None => spec_find_idx(self@.routes.skip(from as int), method@, segs.deep_view())
                    is None,
            },
        decreases self.routes@.len() - from,
    {
        proof {
            assert(self@.routes.len() == self.routes@.len());
        }
        if from == self.routes.len() {
            proof {
                assert(self@.routes.skip(from as int) =~= Seq::<RouteView>::empty());
            }
            None
        } else {
            proof {
                assert(self@.routes.skip(from as int)[0] == self.routes@[from as int]@);
                assert(self@.routes.skip(from as int).drop_first() =~= self@.routes.skip(
                    from as int + 1,
                ));
            }
            let rest = self.find_best(method, segs, from + 1);
            let head_ok = str_eq(self.routes[from].method.as_str(), method) && match_from(
                &self.routes[from].segments,
                segs,
                0,
            ).is_some();
            proof {
                assert(self.routes@[from as int].segments.deep_view().skip(0)
                    =~= self@.routes.skip(from as int)[0].segments);
                assert(segs.deep_view().skip(0) =~= segs.deep_view());
            }
            match rest {
                None => {
                    if head_ok {
                        Some(from)
                    } else {
                        None
                    }
                },
                Some(k) => {
                    proof {
                        assert(self@.routes.skip(from as int)[k - from] == self.routes@[
                            k as int]@);
                    }
                    if head_ok && !pat_precedes_exec(
                        &self.routes[k].segments,
                        &self.routes[from].segments,
                        0,
                    ) {
                        proof {
                            assert(self.routes@[k as int].segments.deep_view().skip(0)
                                =~= self@.routes.skip(from as int)[k - from].segments);
                            assert(self.routes@[from as int].segments.deep_view().skip(0)
                                =~= self@.routes.skip(from as int)[0].segments);
                        }
                        Some(from)
                    } else {
                        proof {
                            assert(self.routes@[k as int].segments.deep_view().skip(0)
                                =~= self@.routes.skip(from as int)[k - from].segments);
                            assert(self.routes@[from as int].segments.deep_view().skip(0)
                                =~= self@.routes.skip(from as int)[0].segments);
                        }
                        Some(k)
                    }
                },
            }
        }
    }
}

} // verus!
