//! The server: configuration, attached routers tried in attachment
//! order, and the per-connection decision from raw bytes to either an
//! immediate response or a request bound for the dispatcher.
//!
//! Policy choices, fixed here deterministically: a request that does
//! not parse is answered with 400 (never dropped silently); a request
//! no route matches is answered with 404 and the body "Not Found";
//! overlapping patterns across attached routers resolve to the first
//! attached router that matches at all.

use vstd::prelude::*;

use crate::parser::{parse_request, spec_parse};
use crate::request::Request;
use crate::response::{Response, ResponseView};
use crate::routing::{spec_find_idx, spec_match, spec_path_segments, RouteMatch, Router,
    RouterView};
use crate::status::Status;

verus! {

/// The model of a server.
pub struct HttpServerView {
    pub host: Seq<char>,
    pub port: u16,
    pub routers: Seq<RouterView>,
    pub app_data: Option<u64>,
    pub max_connections: usize,
    pub buffer_size: usize,
}

/// An embeddable HTTP server: its bind address, its attached routers
/// in attachment order, an optional shared-data capability, and its
/// concurrency budget and read-buffer size.
pub struct HttpServer {
    pub host: String,
    pub port: u16,
    pub routers: Vec<Router>,
    pub app_data: Option<u64>,
    pub max_connections: usize,
    pub buffer_size: usize,
}

impl View for HttpServer {
    type V = HttpServerView;

    open spec fn view(&self) -> HttpServerView {
        HttpServerView {
            host: self.host@,
            port: self.port,
            routers: self.routers.deep_view(),
            app_data: self.app_data,
            max_connections: self.max_connections,
            buffer_size: self.buffer_size,
        }
    }
}

/// The response for a target no route matches.
pub open spec fn spec_not_found() -> ResponseView {
    ResponseView { status: 404, content_type: "text/plain"@, body: "Not Found"@ }
}

/// The response for a request that does not parse.
pub open spec fn spec_bad_request() -> ResponseView {
    ResponseView { status: 400, content_type: "text/plain"@, body: "Bad Request"@ }
}

/// Builds the 404 answer: status 404 with the body "Not Found".
pub fn not_found_response() -> (r: Response)
    ensures
        r@ == spec_not_found(),
{
    Response::new(Status(404), "Not Found".to_owned(), "text/plain".to_owned())
}

/// Builds the 400 answer for a malformed request.
pub fn bad_request_response() -> (r: Response)
    ensures
        r@ == spec_bad_request(),
{
    Response::new(Status(400), "Bad Request".to_owned(), "text/plain".to_owned())
}

/// The answer of the file-serving handler: the file's text when the
/// resolved path exists, and a bare 404 when it does not.
pub fn static_file_response(found: bool, contents: String) -> (r: Response)
    ensures
        found ==> r@ == (ResponseView {
            status: 200,
            content_type: "text/plain"@,
            body: contents@,
        }),
        !found ==> r@ == (ResponseView {
            status: 404,
            content_type: "text/plain"@,
            body: Seq::<char>::empty(),
        }),
{
    if found {
        Response::new(Status(200), contents, "text/plain".to_owned())
    } else {
        let r = Response::new(Status(404), String::new(), "text/plain".to_owned());
        proof {
            assert(r@.body =~= Seq::<char>::empty());
        }
        r
    }
}

/// Whether no attached router up to `upto` finds a route.
pub open spec fn no_router_matches(
    routers: Seq<RouterView>,
    upto: int,
    method: Seq<char>,
    url: Seq<char>,
) -> bool {
    forall|rj: int|
        0 <= rj < upto ==> spec_find_idx(
            (#[trigger] routers[rj]).routes,
            method,
            spec_path_segments(url),
        ) is None
}

/// What one connection's bytes lead to: an immediate reply, or a
/// parsed and routed request for the dispatcher.
pub enum RoutingOutcome {
    /// Answer at once: the 400 for a malformed request, or the 404
    /// when no route matches.
    Reply(Response),
    /// Hand to the dispatcher: the request, the index of the router
    /// that matched, and the match.
    Dispatch(Request, usize, RouteMatch),
}

impl HttpServer {
    /// A server for this address, with the default budget of 100
    /// concurrent connections and a 16384-byte read buffer.
    pub fn new(addr: (String, u16)) -> (r: HttpServer)
        ensures
            r@.host == addr.0@,
            r@.port == addr.1,
            r@.routers.len() == 0,
            r@.app_data is None,
            r@.max_connections == 100,
            r@.buffer_size == 16384,
    {
        let (host, port) = addr;
        let r = HttpServer {
            host,
            port,
            routers: Vec::new(),
            app_data: None,
            max_connections: 100,
            buffer_size: 16384,
        };
        proof {
            assert(r@.routers =~= Seq::<RouterView>::empty());
        }
        r
    }

    /// Attaches the shared application-wide data capability.
    pub fn app_data(&mut self, data: u64)
        ensures
            *final(self) == (HttpServer { app_data: Some(data), ..*old(self) }),
    {
        self.app_data = Some(data);
    }

    /// Attaches a router after the ones already attached.
    pub fn attach(&mut self, router: Router)
        ensures
            final(self)@.routers == old(self)@.routers.push(router@),
            final(self).host == old(self).host,
            final(self).port == old(self).port,
            final(self).app_data == old(self).app_data,
            final(self).max_connections == old(self).max_connections,
            final(self).buffer_size == old(self).buffer_size,
    {
        self.routers.push(router);
        proof {
            assert(self@.routers =~~= old(self)@.routers.push(
                self.routers@[old(self).routers@.len() as int]@,
            ));
        }
    }

    /// Sets the concurrency budget and the read-buffer size.
    pub fn config(&mut self, max_connections: usize, buffer_size: usize)
        ensures
            *final(self) == (HttpServer { max_connections, buffer_size, ..*old(self) }),
    {
        self.max_connections = max_connections;
        self.buffer_size = buffer_size;
    }

    /// Tries the attached routers in attachment order and takes the
    /// first positive match for this method and target.
    pub fn find_route(&self, method: &str, uri: &str) -> (r: Option<(usize, RouteMatch)>)
        ensures
            match r {
                Some(found) => {
                    &&& found.0 < self@.routers.len()
                    &&& no_router_matches(self@.routers, found.0 as int, method@, uri@)
                    &&& spec_find_idx(
                        self@.routers[found.0 as int].routes,
                        method@,
                        spec_path_segments(uri@),
                    ) matches Some(i) && found.1.route@
                        == self@.routers[found.0 as int].routes[i] && Some(
                        found.1.params.deep_view(),
                    ) == spec_match(
                        self@.routers[found.0 as int].routes[i].segments,
                        spec_path_segments(uri@),
                    )
                },
                None => no_router_matches(
                    self@.routers,
                    self@.routers.len() as int,
                    method@,
                    uri@,
                ),
            },
    {
        let mut ri: usize = 0;
        while ri < self.routers.len()
            invariant
                ri <= self@.routers.len(),
                self@.routers.len() == self.routers@.len(),
                no_router_matches(self@.routers, ri as int, method@, uri@),
            decreases self@.routers.len() - ri,
        {
            proof {
                assert(self@.routers[ri as int] == self.routers@[ri as int]@);
            }
            match self.routers[ri].find(method, uri) {
                Some(m) => {
                    return Some((ri, m));
                },
                None => {},
            }
            ri = ri + 1;
        }
        None
    }

    /// Decides what one connection's raw bytes lead to: 400 when they
    /// do not parse, 404 when no attached router matches the parsed
    /// request, and otherwise the request with its match, bound for
    /// the dispatcher.
    pub fn route_request(&self, raw: &str) -> (r: RoutingOutcome)
        ensures
            match r {
                RoutingOutcome::Reply(resp) => {
                    if spec_parse(raw@) is None {
                        resp@ == spec_bad_request()
                    } else {
                        let req = spec_parse(raw@)->Some_0;
                        &&& no_router_matches(
                            self@.routers,
                            self@.routers.len() as int,
                            req.method,
                            req.url,
                        )
                        &&& resp@ == spec_not_found()
                    }
                },
                RoutingOutcome::Dispatch(req, ri, m) => {
                    &&& spec_parse(raw@) == Some(req@)
                    &&& ri < self@.routers.len()
                    &&& no_router_matches(self@.routers, ri as int, req@.method, req@.url)
                    &&& spec_find_idx(
                        self@.routers[ri as int].routes,
                        req@.method,
                        spec_path_segments(req@.url),
                    ) matches Some(i) && m.route@ == self@.routers[ri as int].routes[i] && Some(
                        m.params.deep_view(),
                    ) == spec_match(
                        self@.routers[ri as int].routes[i].segments,
                        spec_path_segments(req@.url),
                    )
                },
            },
    {
        match parse_request(raw) {
            Err(_) => RoutingOutcome::Reply(bad_request_response()),
            Ok(req) => {
                match self.find_route(req.method.as_str(), req.url.as_str()) {
                    None => RoutingOutcome::Reply(not_found_response()),
                    Some(found) => RoutingOutcome::Dispatch(req, found.0, found.1),
                }
            },
        }
    }
}

} // verus!
