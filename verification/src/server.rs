//! One mock instance: a fixed table of routes, and the answer it gives to each request.
//!
//! The instance neither listens nor sends. For each request it says which line to log
//! and which response to send; whoever owns the listener does both.

use vstd::prelude::*;
use vstd::string::StringExecFns;
use http::HeaderMap;
use http::HeaderValue;
use crate::auth::route_accepts;
use crate::auth::validate_auth;
use crate::matching::find_route;
use crate::matching::matched_route;
use crate::route::header_texts;
use crate::route::MockRoute;
use crate::text::decimal;
use crate::text::decimal_text;

verus! {

/// A response as plain values: the status code, the headers in the order in which they
/// are sent, and the body.
#[derive(Debug, Clone, PartialEq)]
pub struct MockResponse {
    pub status: u16,
    pub headers: Vec<(String, String)>,
    pub body: String,
}

/// What a [`MockResponse`] holds.
pub struct ResponseView {
    pub status: u16,
    pub headers: Seq<(Seq<char>, Seq<char>)>,
    pub body: Seq<char>,
}

impl View for MockResponse {
    type V = ResponseView;

    open spec fn view(&self) -> ResponseView {
        ResponseView {
            status: self.status,
            headers: header_texts(self.headers@),
            body: self.body@,
        }
    }
}

/// The fixed headers that let any origin use a mock. Every response ends with them,
/// whether a route matched or not.
pub open spec fn cors_headers() -> Seq<(Seq<char>, Seq<char>)> {
    seq![
        ("Access-Control-Allow-Origin"@, "*"@),
        ("Access-Control-Allow-Methods"@, "GET, POST, PUT, DELETE, PATCH, OPTIONS"@),
        ("Access-Control-Allow-Headers"@, "*"@),
    ]
}

/// The body of the response to a request that failed authentication.
pub open spec fn unauthorized_body() -> Seq<char> {
    "{\"error\":\"Unauthorized\",\"message\":\"Invalid or missing authentication\"}"@
}

/// The response to a request that no route matches.
pub open spec fn not_found_response(method: Seq<char>, path: Seq<char>) -> ResponseView {
    ResponseView {
        status: 404,
        headers: cors_headers(),
        body: "Mock route not found: "@ + method + " "@ + path,
    }
}

/// The response to a request that matched a route and failed its authentication.
pub open spec fn unauthorized_response() -> ResponseView {
    ResponseView {
        status: 401,
        headers: seq![("Content-Type"@, "application/json"@)] + cors_headers(),
        body: unauthorized_body(),
    }
}

/// The headers that a route declares.
pub open spec fn declared_headers(route: MockRoute) -> Seq<(Seq<char>, Seq<char>)> {
    match route.headers {
        Some(headers) => header_texts(headers@),
        None => Seq::empty(),
    }
}

/// The response that a route declares: its status, its own headers followed by the
/// fixed ones, and its body as it stands.
pub open spec fn route_response(route: MockRoute) -> ResponseView {
    ResponseView {
        status: route.status,
        headers: declared_headers(route) + cors_headers(),
        body: route.body@,
    }
}

/// The response of a table of routes to a request: that of the first route that
/// matches, if the request passes its authentication; 401 if it does not; 404 where no
/// route matches.
pub open spec fn response_for(
    routes: Seq<MockRoute>,
    method: Seq<char>,
    path: Seq<char>,
    headers: HeaderMap<HeaderValue>,
) -> ResponseView {
    match matched_route(routes, method, path) {
        Some(route) => if route_accepts(route, headers) {
            route_response(route)
        } else {
            unauthorized_response()
        },
        None => not_found_response(method, path),
    }
}

/// The line that records a request: `[id:port] METHOD PATH`.
pub open spec fn log_line_of(server_id: Seq<char>, port: u16, method: Seq<char>, path: Seq<char>) -> Seq<
    char,
> {
    "["@ + server_id + ":"@ + decimal(port as nat) + "] "@ + method + " "@ + path
}

fn pair(name: &str, value: &str) -> (header: (String, String))
    ensures
        header.0@ == name@,
        header.1@ == value@,
{
    (String::from_str(name), String::from_str(value))
}

/// Appends the fixed headers to the headers of a response.
fn push_cors_headers(headers: &mut Vec<(String, String)>)
    ensures
        header_texts(final(headers)@) == header_texts(old(headers)@) + cors_headers(),
{
    let ghost own = headers@;
    headers.push(pair("Access-Control-Allow-Origin", "*"));
    headers.push(pair("Access-Control-Allow-Methods", "GET, POST, PUT, DELETE, PATCH, OPTIONS"));
    headers.push(pair("Access-Control-Allow-Headers", "*"));
    assert(header_texts(headers@) =~= header_texts(own) + cors_headers());
}

/// Builds the response to a request that no route matches.
pub fn not_found(method: &str, path: &str) -> (response: MockResponse)
    ensures
        response@ == not_found_response(method@, path@),
{
    let mut headers: Vec<(String, String)> = Vec::new();
    assert(header_texts(headers@) =~= Seq::empty());
    push_cors_headers(&mut headers);
    let mut body = String::from_str("Mock route not found: ");
    body.append(method);
    body.append(" ");
    body.append(path);
    let response = MockResponse { status: 404, headers, body };
    assert(response@.headers =~= cors_headers());
    response
}

/// Builds the response to a request that failed authentication.
pub fn unauthorized() -> (response: MockResponse)
    ensures
        response@ == unauthorized_response(),
{
    let mut headers: Vec<(String, String)> = Vec::new();
    headers.push(pair("Content-Type", "application/json"));
    assert(header_texts(headers@) =~= seq![("Content-Type"@, "application/json"@)]);
    push_cors_headers(&mut headers);
    let body = String::from_str(
        "{\"error\":\"Unauthorized\",\"message\":\"Invalid or missing authentication\"}",
    );
    MockResponse { status: 401, headers, body }
}

/// Builds the response that `route` declares.
pub fn route_reply(route: &MockRoute) -> (response: MockResponse)
    ensures
        response@ == route_response(*route),
{
    let mut headers: Vec<(String, String)> = Vec::new();
    match &route.headers {
        Some(declared) => {
            let mut i: usize = 0;
            while i < declared.len()
                invariant
                    i <= declared@.len(),
                    header_texts(headers@) == header_texts(declared@).take(i as int),
                decreases declared@.len() - i,
            {
                let ghost before = headers@;
                headers.push((declared[i].0.clone(), declared[i].1.clone()));
                assert(header_texts(headers@) =~= header_texts(before).push(
                    header_texts(declared@)[i as int],
                ));
                assert(header_texts(declared@).take(i + 1) =~= header_texts(declared@).take(
                    i as int,
                ).push(header_texts(declared@)[i as int]));
                i += 1;
            }
            assert(header_texts(declared@).take(i as int) =~= header_texts(declared@));
        },
        None => {
            assert(header_texts(headers@) =~= Seq::empty());
        },
    }
    assert(header_texts(headers@) == declared_headers(*route));
    push_cors_headers(&mut headers);
    MockResponse { status: route.status, headers, body: route.body.clone() }
}

/// Answers a request from a table of routes.
pub fn respond(
    routes: &Vec<MockRoute>,
    method: &str,
    path: &str,
    headers: &HeaderMap<HeaderValue>,
) -> (response: MockResponse)
    ensures
        response@ == response_for(routes@, method@, path@, *headers),
{
    match find_route(routes, method, path) {
        Some(route) => {
            if validate_auth(route, headers) {
                route_reply(route)
            } else {
                unauthorized()
            }
        },
        None => not_found(method, path),
    }
}

/// Writes the line that records a request.
pub fn log_line(server_id: &str, port: u16, method: &str, path: &str) -> (line: String)
    ensures
        line@ == log_line_of(server_id@, port, method@, path@),
{
    let mut line = String::from_str("[");
    line.append(server_id);
    line.append(":");
    line.append(decimal_text(port as u64).as_str());
    line.append("] ");
    line.append(method);
    line.append(" ");
    line.append(path);
    line
}

/// A mock instance: the id and port it was started with and its table of routes. The
/// table is fixed when the instance is made; to change it, start another instance.
#[derive(Debug, Clone, PartialEq)]
pub struct MockServer {
    pub server_id: String,
    pub port: u16,
    pub routes: Vec<MockRoute>,
}

impl MockServer {
    /// An instance that serves `routes` under `server_id` on `port`.
    pub fn new(server_id: String, port: u16, routes: Vec<MockRoute>) -> (server: MockServer)
        ensures
            server.server_id == server_id,
            server.port == port,
            server.routes == routes,
    {
        MockServer { server_id, port, routes }
    }

    /// Handles one request: the line to log, then the response to send. The response
    /// does not depend on whether the line can be delivered.
    pub fn handle(&self, method: &str, path: &str, headers: &HeaderMap<HeaderValue>) -> (out: (
        String,
        MockResponse,
    ))
        ensures
            out.0@ == log_line_of(self.server_id@, self.port, method@, path@),
            out.1@ == response_for(self.routes@, method@, path@, *headers),
    {
        let line = log_line(self.server_id.as_str(), self.port, method, path);
        let response = respond(&self.routes, method, path, headers);
        (line, response)
    }
}

} // verus!
