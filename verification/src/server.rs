//! The request server's decisions: which route a request takes and what is answered.

use vstd::prelude::*;
use crate::text::optional_text;

verus! {

pub const STATUS_OK: u16 = 200;

pub const STATUS_NOT_FOUND: u16 = 404;

pub const STATUS_METHOD_NOT_ALLOWED: u16 = 405;

pub const STATUS_UNAVAILABLE: u16 = 500;

/// What a request asks for.
#[derive(Debug, Clone, Copy, PartialEq, Eq, Structural)]
pub enum Route {
    /// `GET /metrics`: the snapshot.
    Metrics,
    /// `/metrics` with another method.
    MethodNotAllowed,
    /// Any other path.
    NotFound,
}

/// A response: its status, its body, and whether the body is sent as plain text.
#[derive(Debug)]
pub struct Reply {
    pub status: u16,
    pub body: String,
    pub plain_text: bool,
}

/// The one path that is served.
pub open spec fn metrics_path() -> Seq<char> {
    "/metrics"@
}

/// The route of a request. The path is looked at first: a request for another path is
/// not found whatever its method.
pub open spec fn route_of(is_get: bool, url: Seq<char>) -> Route {
    if url != metrics_path() {
        Route::NotFound
    } else if !is_get {
        Route::MethodNotAllowed
    } else {
        Route::Metrics
    }
}

/// The status answered on a route, given whether there is a snapshot to serve.
pub open spec fn status_of(route: Route, available: bool) -> u16 {
    match route {
        Route::NotFound => STATUS_NOT_FOUND,
        Route::MethodNotAllowed => STATUS_METHOD_NOT_ALLOWED,
        Route::Metrics => if available {
            STATUS_OK
        } else {
            STATUS_UNAVAILABLE
        },
    }
}

/// The body answered on a route: the snapshot on the metrics route, nothing elsewhere.
pub open spec fn body_of(route: Route, snapshot: Option<Seq<char>>) -> Seq<char> {
    match (route, snapshot) {
        (Route::Metrics, Some(text)) => text,
        _ => Seq::empty(),
    }
}

/// Only a snapshot is sent as plain text; the other responses have no content.
pub open spec fn is_text(route: Route, available: bool) -> bool {
    route == Route::Metrics && available
}

/// Routes a request by whether its method is `GET` and by its path.
pub fn route(is_get: bool, url: &str) -> (r: Route)
    ensures
        r == route_of(is_get, url@),
{
    let path = String::from_str(url);
    let served = String::from_str("/metrics");
    if path != served {
        Route::NotFound
    } else if !is_get {
        Route::MethodNotAllowed
    } else {
        Route::Metrics
    }
}

/// Builds the response for a routed request. `snapshot` is what the cache gave for
/// the metrics route; on the other routes it is not looked at.
pub fn respond(route: Route, snapshot: Option<String>) -> (reply: Reply)
    ensures
        reply.status == status_of(route, snapshot is Some),
        reply.body@ == body_of(route, optional_text(snapshot)),
        reply.plain_text == is_text(route, snapshot is Some),
{
    match route {
        Route::NotFound => Reply {
            status: STATUS_NOT_FOUND,
            body: String::new(),
            plain_text: false,
        },
        Route::MethodNotAllowed => Reply {
            status: STATUS_METHOD_NOT_ALLOWED,
            body: String::new(),
            plain_text: false,
        },
        Route::Metrics => match snapshot {
            Some(text) => Reply { status: STATUS_OK, body: text, plain_text: true },
            None => Reply { status: STATUS_UNAVAILABLE, body: String::new(), plain_text: false },
        },
    }
}

} // verus!
