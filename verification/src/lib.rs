//! An embeddable HTTP/1.1 server core: a request parser, a method+path
//! router with named captures and a trailing wildcard, a response model
//! with its wire serialization, and the decision logic of a serialized
//! dispatcher that bridges many connection workers to a handler domain
//! that must not be entered concurrently.
//!
//! Handler and middleware capabilities, and the shared application
//! data, live in that foreign execution domain; the library refers to
//! each by an opaque identifier and decides which to invoke, with
//! which bound arguments, and what to send back for whatever the
//! invocation produced. The embedding around the library performs the
//! socket I/O and the invocations themselves.

use vstd::prelude::*;

pub mod dispatch;
pub mod into_response;
pub mod parser;
pub mod request;
pub mod response;
pub mod routing;
pub mod server;
pub mod status;
pub mod strutil;

pub use dispatch::{
    after_middleware, bind_params, complete_invocation, plan_dispatch, DispatchQueue,
    DispatchStep, HandlerOutcome, InvocationError, MiddlewareAction, ParamSource, PermitPool,
    ProcessRequest,
};
pub use into_response::{convert_to_response, HandlerValue, IntoResponse};
pub use parser::{parse_request, ParseError};
pub use request::Request;
pub use response::Response;
pub use routing::{
    delete, get, patch, post, put, static_files, PatSeg, Route, RouteError, RouteMatch, Router,
};
pub use server::{
    bad_request_response, not_found_response, static_file_response, HttpServer, RoutingOutcome,
};
pub use status::Status;

verus! {

} // verus!
