use vstd::prelude::*;

use crate::error::ProxyError;
use crate::router::{has_match, is_first_match, match_index, Route};
use crate::text::str_equals;

verus! {

/// Hop-by-hop headers: meaningful for one transport leg only, so they are
/// never forwarded to the backend.
pub open spec fn is_hop_by_hop_name(name: Seq<char>) -> bool {
    name == "host"@ || name == "connection"@ || name == "keep-alive"@ || name
        == "proxy-authenticate"@ || name == "proxy-authorization"@ || name == "te"@ || name
        == "trailers"@ || name == "transfer-encoding"@ || name == "upgrade"@
}

/// The headers of `hs` that are forwarded, in the order given.
pub open spec fn forwarded(hs: Seq<(String, Vec<u8>)>) -> Seq<(String, Vec<u8>)>
    decreases hs.len(),
{
    if hs.len() == 0 {
        hs
    } else if is_hop_by_hop_name(hs[0].0@) {
        forwarded(hs.drop_first())
    } else {
        seq![hs[0]] + forwarded(hs.drop_first())
    }
}

/// The backend target for a request on `path` with optional query string
/// `query`, served by the route with prefix `prefix`: the backend's base URL,
/// then the path with the prefix taken off, then `?` and the query.
pub open spec fn spec_target(
    backend_url: Seq<char>,
    prefix: Seq<char>,
    path: Seq<char>,
    query: Option<Seq<char>>,
) -> Seq<char> {
    backend_url + path.subrange(prefix.len() as int, path.len() as int) + match query {
        Some(q) => seq!['?'] + q,
        None => Seq::empty(),
    }
}

/// Whether a header with this (lower-case) name is dropped before forwarding.
pub fn is_hop_by_hop(name: &str) -> (r: bool)
    ensures
        r == is_hop_by_hop_name(name@),
{
    str_equals(name, "host") || str_equals(name, "connection") || str_equals(name, "keep-alive")
        || str_equals(name, "proxy-authenticate") || str_equals(name, "proxy-authorization")
        || str_equals(name, "te") || str_equals(name, "trailers") || str_equals(
        name,
        "transfer-encoding",
    ) || str_equals(name, "upgrade")
}

/// Keeps the headers to forward, in order, dropping the hop-by-hop ones.
pub fn filter_headers(headers: Vec<(String, Vec<u8>)>) -> (r: Vec<(String, Vec<u8>)>)
    ensures
        r@ == forwarded(headers@),
{
    let mut rest = headers;
    let mut out: Vec<(String, Vec<u8>)> = Vec::new();
    while rest.len() > 0
        invariant
            out@ + forwarded(rest@) == forwarded(headers@),
        decreases rest@.len(),
    {
        let ghost before = rest@;
        let h = rest.remove(0);
        assert(rest@ == before.drop_first());
        if !is_hop_by_hop(h.0.as_str()) {
            assert(forwarded(before) == seq![h] + forwarded(rest@));
            assert(out@.push(h) + forwarded(rest@) == out@ + (seq![h] + forwarded(rest@)));
            out.push(h);
        }
    }
    assert(forwarded(rest@) == rest@);
    assert(out@ + rest@ == out@);
    out
}

/// Composes the backend target of a request on `path` served by `route`.
pub fn backend_target(route: &Route, path: &str, query: Option<&str>) -> (r: String)
    requires
        route.path@.len() <= path@.len(),
    ensures
        r@ == spec_target(
            route.backend_url@,
            route.path@,
            path@,
            match query {
                Some(q) => Some(q@),
                None => None,
            },
        ),
{
    let n = path.unicode_len();
    let rest = path.substring_char(route.path.unicode_len(), n);
    let base = route.backend_url.clone().concat(rest);
    match query {
        Some(q) => {
            let with_mark = base.concat("?");
            proof {
                reveal_strlit("?");
            }
            let r = with_mark.concat(q);
            assert(r@ == route.backend_url@ + rest@ + (seq!['?'] + q@));
            r
        },
        None => {
            assert(base@ == base@ + Seq::<char>::empty());
            base
        },
    }
}

/// Resolves a request on `path` (with optional query string `query`) to the
/// backend target it is forwarded to, or `RouteNotFound` when no route
/// serves the path. No backend is contacted on the error path.
pub fn resolve_target(routes: &Vec<Route>, path: &str, query: Option<&str>) -> (r: Result<
    String,
    ProxyError,
>)
    ensures
        r is Err <==> !has_match(routes@, path@),
        r matches Err(e) ==> e is RouteNotFound && e->RouteNotFound_0@ == path@,
        r matches Ok(t) ==> exists|i: int|
            is_first_match(routes@, path@, i) && t@ == spec_target(
                routes@[i].backend_url@,
                routes@[i].path@,
                path@,
                match query {
                    Some(q) => Some(q@),
                    None => None,
                },
            ),
{
    match match_index(routes, path) {
        Some(i) => {
            let route = &routes[i];
            proof {
                if route.path@ != seq!['/'] {
                    assert(route.path@.len() <= path@.len());
                }
            }
            Ok(backend_target(route, path, query))
        },
        None => Err(ProxyError::RouteNotFound(path.to_owned())),
    }
}

/// The status a completed request is logged with: the backend's status on
/// success, the status of the failure otherwise.
pub fn outcome_status(outcome: &Result<u16, ProxyError>) -> (r: u16)
    ensures
        r == match outcome {
            Ok(s) => *s,
            Err(e) => crate::error::spec_status(*e),
        },
{
    match outcome {
        Ok(s) => *s,
        Err(e) => e.status_code(),
    }
}

} // verus!
