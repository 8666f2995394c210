//! The router: an ordered list of path patterns, evaluated top to bottom,
//! first match wins. The patterns are fixed literal prefixes, so their
//! matching is stated directly as contracts rather than through a pattern
//! engine.

use vstd::prelude::*;
use vstd::string::StrSliceExecFns;
use vstd::string::StringExecFns;
use crate::strutil::{is_prefix, str_eq, strip_prefix};

verus! {

/// Which route a path selects, with the captured remainder.
pub ghost enum RouteSpec {
    /// `/raw/key<capture>`: exact lookup of the capture, leading slash
    /// included.
    RawKey(Seq<char>),
    /// `/raw/resource/<capture>`: lookup of the synthetic key
    /// `/resource/<capture>/data`.
    RawResource(Seq<char>),
    /// The exact literal `/raw/resources`: list every resource record.
    RawResources,
    NoMatch,
}

/// `/raw/key(/.+)`: the path goes on with a slash and at least one more
/// character.
pub open spec fn matches_raw_key(p: Seq<char>) -> bool {
    &&& is_prefix("/raw/key"@, p)
    &&& p.len() >= "/raw/key"@.len() + 2
    &&& p["/raw/key"@.len() as int] == '/'
}

/// The captured rest of a `/raw/key` path, leading slash included.
pub open spec fn raw_key_capture(p: Seq<char>) -> Seq<char> {
    p.skip("/raw/key"@.len() as int)
}

/// `/raw/resource/(.+)`: at least one character after the slash.
pub open spec fn matches_raw_resource(p: Seq<char>) -> bool {
    is_prefix("/raw/resource/"@, p) && p.len() > "/raw/resource/"@.len()
}

/// The captured resource name of a `/raw/resource/` path.
pub open spec fn raw_resource_capture(p: Seq<char>) -> Seq<char> {
    p.skip("/raw/resource/"@.len() as int)
}

/// The route table, evaluated in order: raw key, raw resource, resource
/// listing; anything else is no match.
pub open spec fn route_of(p: Seq<char>) -> RouteSpec {
    if matches_raw_key(p) {
        RouteSpec::RawKey(raw_key_capture(p))
    } else if matches_raw_resource(p) {
        RouteSpec::RawResource(raw_resource_capture(p))
    } else if p == "/raw/resources"@ {
        RouteSpec::RawResources
    } else {
        RouteSpec::NoMatch
    }
}

/// The outcome of matching a path against the route table.
pub enum RouteMatch {
    RawKey(String),
    RawResource(String),
    RawResources,
    NoMatch,
}

impl View for RouteMatch {
    type V = RouteSpec;

    open spec fn view(&self) -> RouteSpec {
        match self {
            RouteMatch::RawKey(k) => RouteSpec::RawKey(k@),
            RouteMatch::RawResource(n) => RouteSpec::RawResource(n@),
            RouteMatch::RawResources => RouteSpec::RawResources,
            RouteMatch::NoMatch => RouteSpec::NoMatch,
        }
    }
}

/// Matches a path against the route table, in order; first match wins.
pub fn route(path: &str) -> (r: RouteMatch)
    ensures
        r@ == route_of(path@),
{
    if let Some(rest) = strip_prefix(path, "/raw/key") {
        if rest.unicode_len() >= 2 && rest.get_char(0) == '/' {
            proof {
                assert(path@["/raw/key"@.len() as int] == rest@[0]);
            }
            return RouteMatch::RawKey(String::from_str(rest));
        }
    }
    proof {
        assert(!matches_raw_key(path@));
    }
    if let Some(rest) = strip_prefix(path, "/raw/resource/") {
        if rest.unicode_len() >= 1 {
            return RouteMatch::RawResource(String::from_str(rest));
        }
    }
    proof {
        assert(!matches_raw_resource(path@));
    }
    if str_eq(path, "/raw/resources") {
        return RouteMatch::RawResources;
    }
    RouteMatch::NoMatch
}

/// Route precedence: the literal listing path takes the listing route, and
/// a `/raw/resource/<x>` path takes the single-resource route with exactly
/// `<x>` captured; the two never cross-match.
pub proof fn lemma_route_precedence(x: Seq<char>)
    requires
        x.len() > 0,
    ensures
        route_of("/raw/resources"@) is RawResources,
        route_of("/raw/resource/"@ + x) is RawResource,
        route_of("/raw/resource/"@ + x)->RawResource_0 == x,
{
    reveal_strlit("/raw/resources");
    reveal_strlit("/raw/resource/");
    reveal_strlit("/raw/key");
    let lit = "/raw/resources"@;
    assert(!is_prefix("/raw/key"@, lit)) by {
        if is_prefix("/raw/key"@, lit) {
            assert(lit.subrange(0, 8)[5] == lit[5]);
        }
    }
    assert(!is_prefix("/raw/resource/"@, lit)) by {
        if is_prefix("/raw/resource/"@, lit) {
            assert(lit.subrange(0, 14)[13] == lit[13]);
        }
    }
    let q = "/raw/resource/"@ + x;
    assert(!is_prefix("/raw/key"@, q)) by {
        if is_prefix("/raw/key"@, q) {
            assert(q.subrange(0, 8)[5] == q[5]);
        }
    }
    assert(is_prefix("/raw/resource/"@, q)) by {
        assert(q.subrange(0, 14) =~= "/raw/resource/"@);
    }
    assert(raw_resource_capture(q) =~= x);
}

} // verus!
