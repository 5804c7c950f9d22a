use vstd::prelude::*;
use crate::conf::ProxyHost;
use crate::error::ProxyError;

verus! {

/// Whether `p` is a prefix of `s`.
pub open spec fn is_prefix(p: Seq<char>, s: Seq<char>) -> bool {
    p.len() <= s.len() && s.subrange(0, p.len() as int) == p
}

/// Whether requests on `path` may go to `route`.
pub open spec fn route_matches(route: ProxyHost, path: Seq<char>) -> bool {
    is_prefix(route.path@, path)
}

/// The first route, from position `start` on, that matches `path`.
pub open spec fn resolve_from(routes: Seq<ProxyHost>, path: Seq<char>, start: int) -> Option<int>
    decreases routes.len() - start,
{
    if start < 0 || start >= routes.len() {
        None
    } else if route_matches(routes[start], path) {
        Some(start)
    } else {
        resolve_from(routes, path, start + 1)
    }
}

/// The position of the route that serves `path`: the first that matches.
pub open spec fn resolve(routes: Seq<ProxyHost>, path: Seq<char>) -> Option<int> {
    resolve_from(routes, path, 0)
}

/// The message of the error for a path that no route serves.
pub open spec fn unknown_path_message(path: Seq<char>) -> Seq<char> {
    "Cannot find a valid proxy path for '"@ + path + "'"@
}

proof fn lemma_resolve_from_skips(routes: Seq<ProxyHost>, path: Seq<char>, start: int, i: int)
    requires
        0 <= start <= i <= routes.len(),
        forall|j: int| start <= j < i ==> !route_matches(#[trigger] routes[j], path),
    ensures
        resolve_from(routes, path, start) == resolve_from(routes, path, i),
    decreases i - start,
{
    if start < i {
        lemma_resolve_from_skips(routes, path, start + 1, i);
    }
}

/// The first route in `routes` whose prefix matches `path` serves it, and a
/// route further down with a longer prefix of the same text never does.
pub proof fn lemma_first_match_wins(routes: Seq<ProxyHost>, path: Seq<char>, i: int)
    requires
        0 <= i < routes.len(),
        route_matches(routes[i], path),
        forall|j: int| 0 <= j < i ==> !route_matches(#[trigger] routes[j], path),
    ensures
        resolve(routes, path) == Some(i),
{
    lemma_resolve_from_skips(routes, path, 0, i);
}

/// `resolve` names a matching route exactly when one exists, and none before it matches.
pub proof fn lemma_resolve_sound(routes: Seq<ProxyHost>, path: Seq<char>)
    ensures
        resolve(routes, path) matches Some(i) ==> 0 <= i < routes.len() && route_matches(
            routes[i],
            path,
        ) && forall|j: int| 0 <= j < i ==> !route_matches(#[trigger] routes[j], path),
        resolve(routes, path) is None <==> forall|j: int|
            0 <= j < routes.len() ==> !route_matches(#[trigger] routes[j], path),
{
    lemma_resolve_sound_from(routes, path, 0);
}

proof fn lemma_resolve_sound_from(routes: Seq<ProxyHost>, path: Seq<char>, start: int)
    requires
        0 <= start,
    ensures
        resolve_from(routes, path, start) matches Some(i) ==> start <= i < routes.len()
            && route_matches(routes[i], path) && forall|j: int|
            start <= j < i ==> !route_matches(#[trigger] routes[j], path),
        resolve_from(routes, path, start) is None <==> forall|j: int|
            start <= j < routes.len() ==> !route_matches(#[trigger] routes[j], path),
    decreases routes.len() - start,
{
    if start < routes.len() {
        lemma_resolve_sound_from(routes, path, start + 1);
    }
}

/// Whether the text `p` starts `s`.
pub fn has_prefix(s: &str, p: &str) -> (r: bool)
    ensures
        r == is_prefix(p@, s@),
{
    let n: usize = p.unicode_len();
    if n > s.unicode_len() {
        return false;
    }
    let mut i: usize = 0;
    while i < n
        invariant
            i <= n,
            n == p@.len(),
            n <= s@.len(),
            forall|j: int| 0 <= j < i ==> s@[j] == p@[j],
        decreases n - i,
    {
        if s.get_char(i) != p.get_char(i) {
            assert(s@.subrange(0, n as int)[i as int] != p@[i as int]);
            return false;
        }
        i = i + 1;
    }
    assert(s@.subrange(0, n as int) =~= p@);
    true
}

/// The position of the first route, in configured order, whose prefix
/// starts `path`.
pub fn find_route(path: &str, hosts: &Vec<ProxyHost>) -> (r: Option<usize>)
    ensures
        r matches Some(i) ==> i < hosts@.len() && resolve(hosts@, path@) == Some(i as int),
        r is None ==> resolve(hosts@, path@) is None,
{
    let mut i: usize = 0;
    while i < hosts.len()
        invariant
            i <= hosts@.len(),
            resolve(hosts@, path@) == resolve_from(hosts@, path@, i as int),
        decreases hosts@.len() - i,
    {
        if has_prefix(path, hosts[i].path.as_str()) {
            return Some(i);
        }
        i = i + 1;
    }
    None
}

/// The message of the error for a path that no route serves.
pub fn unknown_path(path: &str) -> (r: ProxyError)
    ensures
        r matches ProxyError::UnknownPath(m) && m@ == unknown_path_message(path@),
{
    ProxyError::UnknownPath(
        String::from_str("Cannot find a valid proxy path for '").concat(path).concat("'"),
    )
}

/// Picks the route that serves `path`: the first, in configured order, whose
/// prefix starts the path.
pub fn build_host<'a>(path: &str, hosts: &'a Vec<ProxyHost>) -> (r: Result<&'a ProxyHost, ProxyError>)
    ensures
        match r {
            Ok(h) => (resolve(hosts@, path@) matches Some(i) && *h == hosts@[i]),
            Err(e) => resolve(hosts@, path@) is None && (e matches ProxyError::UnknownPath(m)
                && m@ == unknown_path_message(path@)),
        },
{
    match find_route(path, hosts) {
        Some(i) => Ok(&hosts[i]),
        None => Err(unknown_path(path)),
    }
}

} // verus!
