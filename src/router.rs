use vstd::prelude::*;

use crate::text::{is_prefix_of, starts_with};

verus! {

/// One entry of the route table: requests whose path falls under `path`
/// are forwarded to `backend_url`.
#[derive(Clone, Debug)]
pub struct Route {
    pub path: String,
    pub backend_url: String,
}

/// Whether a route with prefix `prefix` serves `path`.
///
/// The root prefix `/` serves every path that starts with `/`. Any other
/// prefix serves `path` when `path` starts with it and the prefix ends at a
/// segment boundary: the end of the path, a `/`, or a `?`.
pub open spec fn prefix_matches(prefix: Seq<char>, path: Seq<char>) -> bool {
    if prefix == seq!['/'] {
        path.len() > 0 && path[0] == '/'
    } else {
        is_prefix_of(prefix, path) && (path.len() == prefix.len() || path[prefix.len() as int] == '/'
            || path[prefix.len() as int] == '?')
    }
}

/// Whether route `i` is the first route of `routes` that serves `path`.
pub open spec fn is_first_match(routes: Seq<Route>, path: Seq<char>, i: int) -> bool {
    &&& 0 <= i < routes.len()
    &&& prefix_matches(routes[i].path@, path)
    &&& forall|j: int| 0 <= j < i ==> !prefix_matches(#[trigger] routes[j].path@, path)
}

/// Whether some route of `routes` serves `path`.
pub open spec fn has_match(routes: Seq<Route>, path: Seq<char>) -> bool {
    exists|i: int| 0 <= i < routes.len() && prefix_matches(#[trigger] routes[i].path@, path)
}

/// Decides whether a route with prefix `prefix` serves `path`.
pub fn route_serves(prefix: &str, path: &str) -> (r: bool)
    ensures
        r == prefix_matches(prefix@, path@),
{
    if prefix.unicode_len() == 1 && prefix.get_char(0) == '/' {
        assert(prefix@ == seq!['/']);
        return path.unicode_len() > 0 && path.get_char(0) == '/';
    }
    assert(prefix@ != seq!['/']);
    if !starts_with(path, prefix) {
        return false;
    }
    let n = prefix.unicode_len();
    if n == path.unicode_len() {
        return true;
    }
    let c = path.get_char(n);
    c == '/' || c == '?'
}

/// Resolves `path` to the first route of `routes` that serves it: first
/// match wins, not the longest prefix.
pub fn match_route<'a>(routes: &'a Vec<Route>, path: &str) -> (r: Option<&'a Route>)
    ensures
        r is None <==> !has_match(routes@, path@),
        r matches Some(rt) ==> exists|i: int| is_first_match(routes@, path@, i) && *rt == routes@[i],
{
    match match_index(routes, path) {
        Some(i) => Some(&routes[i]),
        None => None,
    }
}

/// The position of the first route of `routes` that serves `path`.
pub fn match_index(routes: &Vec<Route>, path: &str) -> (r: Option<usize>)
    ensures
        r is None <==> !has_match(routes@, path@),
        r matches Some(i) ==> is_first_match(routes@, path@, i as int),
{
    let mut i: usize = 0;
    while i < routes.len()
        invariant
            i <= routes@.len(),
            forall|j: int| 0 <= j < i ==> !prefix_matches(#[trigger] routes@[j].path@, path@),
        decreases routes@.len() - i,
    {
        if route_serves(routes[i].path.as_str(), path) {
            return Some(i);
        }
        i = i + 1;
    }
    None
}

} // verus!
