//! The request handler: authentication gate first, then route dispatch,
//! then rendering from the cache; every outcome is one of the fixed
//! plaintext responses or a well-formed JSON body.

use vstd::prelude::*;
use vstd::string::StringExecFns;
use crate::cache::{resources_of, Cache};
use crate::render::{
    render_resource_body, render_resources_body, render_value_body, resource_body,
    resources_body, value_body,
};
use crate::routes::{route, route_of, RouteMatch, RouteSpec};
use crate::strutil::{is_prefix, str_eq, strip_prefix};

verus! {

/// The media type of a response body.
#[derive(Clone, Copy, Debug, PartialEq, Eq, Structural)]
pub enum ContentType {
    Json,
    PlainText,
}

/// The mathematical content of a response.
pub ghost struct RespSpec {
    pub status: int,
    pub content_type: ContentType,
    pub body: Seq<char>,
}

/// One HTTP response: status, media type, body.
pub struct Response {
    pub status: u16,
    pub content_type: ContentType,
    pub body: String,
}

impl View for Response {
    type V = RespSpec;

    open spec fn view(&self) -> RespSpec {
        RespSpec { status: self.status as int, content_type: self.content_type, body: self.body@ }
    }
}

pub open spec fn unauthenticated_spec() -> RespSpec {
    RespSpec { status: 401, content_type: ContentType::PlainText, body: "MUST AUTHENTICATE\n"@ }
}

pub open spec fn not_found_spec() -> RespSpec {
    RespSpec { status: 404, content_type: ContentType::PlainText, body: "NOT FOUND\n"@ }
}

pub open spec fn error_spec() -> RespSpec {
    RespSpec { status: 500, content_type: ContentType::PlainText, body: "ERROR\n"@ }
}

/// The fixed 401 response.
pub fn response_unauthenticated() -> (r: Response)
    ensures
        r@ == unauthenticated_spec(),
{
    Response {
        status: 401,
        content_type: ContentType::PlainText,
        body: String::from_str("MUST AUTHENTICATE\n"),
    }
}

/// The fixed 404 response.
pub fn response_not_found() -> (r: Response)
    ensures
        r@ == not_found_spec(),
{
    Response {
        status: 404,
        content_type: ContentType::PlainText,
        body: String::from_str("NOT FOUND\n"),
    }
}

/// The fixed 500 response, for failures outside the routed handlers.
pub fn response_error() -> (r: Response)
    ensures
        r@ == error_spec(),
{
    Response { status: 500, content_type: ContentType::PlainText, body: String::from_str("ERROR\n") }
}

/// The bearer credential an `Authorization` header presents, if any.
pub open spec fn bearer_of(h: Option<Seq<char>>) -> Option<Seq<char>> {
    match h {
        Option::None => Option::None,
        Option::Some(s) => if is_prefix("Bearer "@, s) {
            Option::Some(s.skip("Bearer "@.len() as int))
        } else {
            Option::None
        },
    }
}

/// With no token configured every request passes; with one configured the
/// request must present exactly it as a bearer credential.
pub open spec fn authorized(token: Option<Seq<char>>, h: Option<Seq<char>>) -> bool {
    match token {
        Option::None => true,
        Option::Some(t) => bearer_of(h) == Option::Some(t),
    }
}

/// The synthetic cache key a resource name stands for.
pub open spec fn resource_key_of(name: Seq<char>) -> Seq<char> {
    "/resource/"@ + name + "/data"@
}

/// What routing an authenticated request yields: only `GET` requests match
/// a route; a key or resource miss is a 404; a hit renders the record's
/// value; the listing renders every resource value in cache order.
pub open spec fn routed_spec(c: Cache, method: Seq<char>, path: Seq<char>) -> RespSpec {
    if method != "GET"@ {
        not_found_spec()
    } else {
        match route_of(path) {
            RouteSpec::RawKey(k) => if c@.contains_key(k) {
                RespSpec {
                    status: 200,
                    content_type: ContentType::Json,
                    body: value_body(c@[k].value),
                }
            } else {
                not_found_spec()
            },
            RouteSpec::RawResource(name) => if c@.contains_key(resource_key_of(name)) {
                RespSpec {
                    status: 200,
                    content_type: ContentType::Json,
                    body: resource_body(c@[resource_key_of(name)].value),
                }
            } else {
                not_found_spec()
            },
            RouteSpec::RawResources => RespSpec {
                status: 200,
                content_type: ContentType::Json,
                body: resources_body(resources_of(c.entry_recs())),
            },
            RouteSpec::NoMatch => not_found_spec(),
        }
    }
}

/// What handling a request yields: the authentication gate short-circuits
/// routing entirely; past it, the request is routed.
pub open spec fn handle_spec(
    c: Cache,
    token: Option<Seq<char>>,
    method: Seq<char>,
    path: Seq<char>,
    auth: Option<Seq<char>>,
) -> RespSpec {
    if !authorized(token, auth) {
        unauthenticated_spec()
    } else {
        routed_spec(c, method, path)
    }
}

/// Auth gate: with a configured token, a request presenting exactly that
/// bearer credential reaches routing, and any other request is answered
/// 401 before any route is evaluated.
pub proof fn lemma_auth_gate(
    c: Cache,
    t: Seq<char>,
    method: Seq<char>,
    path: Seq<char>,
    auth: Option<Seq<char>>,
)
    ensures
        bearer_of(auth) == Option::Some(t) ==> handle_spec(c, Option::Some(t), method, path, auth)
            == routed_spec(c, method, path),
        bearer_of(auth) != Option::Some(t) ==> handle_spec(c, Option::Some(t), method, path, auth)
            == unauthenticated_spec(),
{
}

fn check_auth(token: &Option<String>, auth_header: Option<&str>) -> (r: bool)
    ensures
        r == authorized(token.deep_view(), auth_header.deep_view()),
{
    match token {
        Option::None => true,
        Option::Some(t) => match auth_header {
            Option::None => false,
            Option::Some(h) => match strip_prefix(h, "Bearer ") {
                Option::Some(cred) => str_eq(cred, t.as_str()),
                Option::None => false,
            },
        },
    }
}

/// Builds the synthetic cache key for a resource name.
fn resource_key(name: &str) -> (r: String)
    ensures
        r@ == resource_key_of(name@),
{
    let mut k = String::from_str("/resource/");
    k.append(name);
    k.append("/data");
    proof {
        assert(k@ =~= resource_key_of(name@));
    }
    k
}

/// Handles one request against the current cache: the authentication gate
/// first, then route dispatch in order, then rendering; never panics and
/// never touches the network.
pub fn handle_request(
    cache: &Cache,
    token: &Option<String>,
    method: &str,
    path: &str,
    auth_header: Option<&str>,
) -> (r: Response)
    requires
        cache.wf(),
    ensures
        r@ == handle_spec(*cache, token.deep_view(), method@, path@, auth_header.deep_view()),
{
    if !check_auth(token, auth_header) {
        return response_unauthenticated();
    }
    if !str_eq(method, "GET") {
        return response_not_found();
    }
    match route(path) {
        RouteMatch::RawKey(k) => match cache.lookup(k.as_str()) {
            Option::Some(rec) => Response {
                status: 200,
                content_type: ContentType::Json,
                body: render_value_body(rec.value()),
            },
            Option::None => response_not_found(),
        },
        RouteMatch::RawResource(name) => {
            let key = resource_key(name.as_str());
            match cache.lookup(key.as_str()) {
                Option::Some(rec) => Response {
                    status: 200,
                    content_type: ContentType::Json,
                    body: render_resource_body(rec.value()),
                },
                Option::None => response_not_found(),
            }
        },
        RouteMatch::RawResources => {
            let values = cache.resource_values();
            Response {
                status: 200,
                content_type: ContentType::Json,
                body: render_resources_body(&values),
            }
        },
        RouteMatch::NoMatch => response_not_found(),
    }
}

} // verus!
