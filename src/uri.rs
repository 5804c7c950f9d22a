use vstd::prelude::*;
use crate::error::ProxyError;

verus! {

#[verifier::external_type_specification]
#[verifier::external_body]
pub struct ExUri(hyper::Uri);

/// Whether `Uri`'s parser accepts the text `s`.
pub uninterp spec fn uri_accepts(s: Seq<char>) -> bool;

/// The text that a `Uri` displays.
pub uninterp spec fn uri_text(u: hyper::Uri) -> Seq<char>;

/// The text that the `Uri` parsed from `s` displays.
pub uninterp spec fn parsed_uri_text(s: Seq<char>) -> Seq<char>;

/// Relies on `Uri`'s `FromStr` impl (`Uri::try_from` on the bytes): whether
/// the text parses, and the parsed URI, are functions of the text alone.
#[verifier::external_body]
fn parse_uri(s: &str) -> (r: Option<hyper::Uri>)
    ensures
        r is Some <==> uri_accepts(s@),
        r matches Some(u) ==> uri_text(u) == parsed_uri_text(s@),
{
    s.parse::<hyper::Uri>().ok()
}

/// Where the path of a path-and-query text ends: at its first `?`, or at its end.
pub open spec fn path_end(pq: Seq<char>, i: int) -> int
    decreases pq.len() - i,
{
    if i < 0 || i >= pq.len() || pq[i] == '?' {
        i
    } else {
        path_end(pq, i + 1)
    }
}

/// The path of a path-and-query text: everything before the first `?`.
pub open spec fn path_of(pq: Seq<char>) -> Seq<char> {
    pq.subrange(0, path_end(pq, 0))
}

/// The outbound URI text: scheme, authority, and the client's path and
/// query verbatim.
pub open spec fn compose_text(scheme: Seq<char>, authority: Seq<char>, pq: Seq<char>) -> Seq<char> {
    scheme + "://"@ + authority + pq
}

/// The path of a path-and-query text, without the query.
pub fn path_part(pq: &str) -> (r: &str)
    ensures
        r@ == path_of(pq@),
{
    let n: usize = pq.unicode_len();
    let mut i: usize = 0;
    while i < n
        invariant
            i <= n,
            n == pq@.len(),
            path_end(pq@, 0) == path_end(pq@, i as int),
        decreases n - i,
    {
        if pq.get_char(i) == '?' {
            return pq.substring_char(0, i);
        }
        i = i + 1;
    }
    pq.substring_char(0, n)
}

/// The outbound URI text: `scheme://authority` followed by the client's
/// path and query verbatim.
pub fn compose_target(scheme: &str, authority: &str, pq: &str) -> (r: String)
    ensures
        r@ == compose_text(scheme@, authority@, pq@),
{
    String::from_str(scheme).concat("://").concat(authority).concat(pq)
}

/// Parses an outbound URI text.
pub fn parse_target(text: &str) -> (r: Result<hyper::Uri, ProxyError>)
    ensures
        r is Ok <==> uri_accepts(text@),
        r matches Ok(u) ==> uri_text(u) == parsed_uri_text(text@),
        r matches Err(e) ==> e is UriError,
{
    match parse_uri(text) {
        Some(u) => Ok(u),
        None => Err(
            ProxyError::UriError(
                String::from_str("Cannot build a valid uri from '").concat(text).concat("'"),
            ),
        ),
    }
}

/// Builds the outbound URI from the configured scheme, the route's authority
/// and the request's path-and-query, which must be present.
pub fn compose_uri(scheme: &str, authority: &str, pq: Option<&str>) -> (r: Result<
    hyper::Uri,
    ProxyError,
>)
    ensures
        pq is None ==> (r matches Err(ProxyError::UriError(m)) && m@ == "Path cannot be empty."@),
        pq matches Some(p) ==> (r is Ok <==> uri_accepts(compose_text(scheme@, authority@, p@))),
        pq matches Some(p) ==> (r matches Ok(u) ==> uri_text(u) == parsed_uri_text(
            compose_text(scheme@, authority@, p@),
        )),
        r matches Err(e) ==> e is UriError,
{
    match pq {
        None => Err(ProxyError::UriError(String::from_str("Path cannot be empty."))),
        Some(p) => {
            let text = compose_target(scheme, authority, p);
            parse_target(text.as_str())
        },
    }
}

} // verus!
