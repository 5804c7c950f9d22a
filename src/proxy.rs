use vstd::prelude::*;
use vstd::multiset::Multiset;
use hyper::header::{HeaderMap, HeaderName};
use crate::conf::{ProxyConf, ProxyHost, requires_auth, route_requires_auth};
use crate::error::{ProxyError, message_of, status_of};
use crate::headers::{
    append_header,
    has_room,
    header_bag,
    header_values,
    header_room,
    is_ascii_text_of,
    remove_hop_headers,
    sanitized,
    sanitized_values,
    value_bytes,
    value_from_text,
};
use crate::jwt::{
    Claims,
    extract_bearer_token,
    has_authorization,
    base64_of,
    identity_header,
    projection,
    user_token_json,
    is_bearer_outcome,
};
use crate::routes::{
    find_route,
    lemma_resolve_sound,
    resolve,
    route_matches,
    unknown_path,
    unknown_path_message,
};
use crate::uri::{
    compose_target,
    compose_text,
    parse_target,
    parsed_uri_text,
    path_of,
    path_part,
    uri_accepts,
    uri_text,
};

verus! {

/// The name of the header that carries the caller's identity to the backend.
pub open spec fn identity_header_name() -> Seq<char> {
    "x-real-name"@
}

/// The headers forwarded for a request with headers `b`: its own without
/// the hop-by-hop ones, plus the identity when the caller was authenticated.
pub open spec fn forwarded_headers(
    b: Multiset<(Seq<char>, Seq<u8>)>,
    claims: Option<Claims>,
    out: Multiset<(Seq<char>, Seq<u8>)>,
) -> bool {
    match claims {
        None => out == sanitized(b),
        Some(c) => exists|v: Seq<u8>|
            is_ascii_text_of(identity_header(c), v) && out == #[trigger] sanitized(b).insert(
                (identity_header_name(), v),
            ),
    }
}

/// The values forwarded under each name for a request with headers `inp`:
/// those of its own that are not hop-by-hop, in order, with the identity
/// appended after any `x-real-name` values when the caller was authenticated.
pub open spec fn forwarded_values(inp: HeaderMap, claims: Option<Claims>, out: HeaderMap) -> bool {
    match claims {
        None => forall|k: Seq<char>| #[trigger] header_values(out, k) == sanitized_values(inp, k),
        Some(c) => exists|v: Seq<u8>|
            is_ascii_text_of(identity_header(c), v) && forall|k: Seq<char>|
                #[trigger] header_values(out, k) == if k == identity_header_name() {
                    sanitized_values(inp, k).push(v)
                } else {
                    sanitized_values(inp, k)
                },
    }
}

/// What the proxy decided for a request before any token is checked: the
/// route that serves it, and the token to check, if the route asks for one.
pub struct Plan {
    /// The position of the route in the configured order.
    pub route: usize,
    pub token: Option<String>,
}

/// The request to send to the backend.
pub struct Outbound {
    pub uri: hyper::Uri,
    /// The text that `uri` was parsed from.
    pub target: String,
    pub headers: HeaderMap,
}

/// The reverse proxy's decisions, over a configuration fixed at start.
pub struct ReverseProxy {
    pub conf: ProxyConf,
}

/// Adds the identity header, and drops the hop-by-hop ones.
pub fn build_headers(req_headers: &HeaderMap, claims: Option<Claims>) -> (r: Result<
    HeaderMap,
    ProxyError,
>)
    requires
        header_bag(*req_headers).len() < header_room(),
    ensures
        r matches Ok(h) && forwarded_headers(header_bag(*req_headers), claims, header_bag(h)),
        r matches Ok(h) && forwarded_values(*req_headers, claims, h),
{
    let mut headers = remove_hop_headers(req_headers);
    match claims {
        None => Ok(headers),
        Some(c) => {
            let token = c.to_user_token();
            match token {
                Ok(value) => match value_from_text(value.as_str()) {
                    Some(v) => {
                        proof {
                            reveal_strlit("x-real-name");
                        }
                        let name = HeaderName::from_static("x-real-name");
                        append_header(&mut headers, name, v);
                        proof {
                            let b = header_bag(*req_headers);
                            let vb = value_bytes(v);
                            assert(is_ascii_text_of(identity_header(c), vb));
                            assert(header_bag(headers) == sanitized(b).insert(
                                (identity_header_name(), vb),
                            ));
                            assert forall|k: Seq<char>| #[trigger] header_values(headers, k) == if k
                                == identity_header_name() {
                                sanitized_values(*req_headers, k).push(vb)
                            } else {
                                sanitized_values(*req_headers, k)
                            } by {}
                        }
                        Ok(headers)
                    },
                    None => Err(
                        ProxyError::AuthCannotCreateHeader(
                            String::from_str("Cannot create custom auth header"),
                        ),
                    ),
                },
                Err(e) => Err(e),
            }
        },
    }
}

impl ReverseProxy {
    pub fn new(conf: ProxyConf) -> (r: Self)
        ensures
            r.conf == conf,
    {
        ReverseProxy { conf }
    }

    /// The token to check for a request on `route`: none when the route
    /// needs no authentication, else the bearer token of the request.
    pub fn check_auth(&self, route: &ProxyHost, req_headers: &HeaderMap) -> (r: Result<
        Option<String>,
        ProxyError,
    >)
        ensures
            !route_requires_auth(self.conf.auth, *route) ==> r matches Ok(None),
            route_requires_auth(self.conf.auth, *route) ==> exists|x: Result<String, ProxyError>|
                is_bearer_outcome(header_bag(*req_headers), x) && #[trigger] token_step(x) == r,
    {
        if requires_auth(&self.conf.auth, route) {
            let x = extract_bearer_token(req_headers);
            let ghost gx = x;
            let r = match x {
                Ok(t) => Ok(Some(t)),
                Err(e) => Err(e),
            };
            assert(token_step(gx) == r);
            r
        } else {
            Ok(None)
        }
    }

    /// Resolves the route of a request and finds the token it must carry.
    /// A request without a path is refused before anything else.
    pub fn plan(&self, path_and_query: Option<&str>, req_headers: &HeaderMap) -> (r: Result<
        Plan,
        ProxyError,
    >)
        ensures
            plan_outcome(self.conf, opt_view(path_and_query), header_bag(*req_headers), r),
    {
        let pq = match path_and_query {
            None => {
                return Err(ProxyError::UriError(String::from_str("Path cannot be empty.")));
            },
            Some(pq) => pq,
        };
        let path = path_part(pq);
        let i = match find_route(path, &self.conf.hosts) {
            Some(i) => i,
            None => return Err(unknown_path(path)),
        };
        let checked = self.check_auth(&self.conf.hosts[i], req_headers);
        let r = match checked {
            Ok(token) => Ok(Plan { route: i, token }),
            Err(e) => Err(e),
        };
        proof {
            if route_requires_auth(self.conf.auth, self.conf.hosts@[i as int]) {
                let x = choose|x: Result<String, ProxyError>|
                    is_bearer_outcome(header_bag(*req_headers), x) && #[trigger] token_step(x)
                        == checked;
                assert(plan_step(i as int, x) == r);
            }
        }
        r
    }
}

/// The outbound URI text for a request on route `i`.
pub open spec fn target_of(conf: ProxyConf, i: int, pq: Seq<char>) -> Seq<char> {
    compose_text(conf.scheme@, conf.hosts@[i].host@, pq)
}

impl ReverseProxy {
    /// Builds the request for the backend once the token, if the plan named
    /// one, has been checked and gave `claims`.
    pub fn rewrite(
        &self,
        plan: &Plan,
        path_and_query: &str,
        req_headers: &HeaderMap,
        claims: Option<Claims>,
    ) -> (r: Result<Outbound, ProxyError>)
        ensures
            plan.route >= self.conf.hosts@.len() ==> r matches Err(ProxyError::Internal(_)),
            header_bag(*req_headers).len() >= header_room() ==> r matches Err(
                ProxyError::Internal(_),
            ),
            plan.route < self.conf.hosts@.len() && header_bag(*req_headers).len() < header_room()
                ==> (r is Ok <==> uri_accepts(
                target_of(self.conf, plan.route as int, path_and_query@),
            )),
            r matches Ok(o) ==> o.target@ == target_of(self.conf, plan.route as int, path_and_query@)
                && uri_text(o.uri) == parsed_uri_text(o.target@) && forwarded_values(
                *req_headers,
                claims,
                o.headers,
            ) && forwarded_headers(header_bag(*req_headers), claims, header_bag(o.headers)),
            r matches Err(e) ==> e is UriError || e is Internal,
    {
        if plan.route >= self.conf.hosts.len() {
            return Err(ProxyError::Internal(String::from_str("Unknown route.")));
        }
        if !has_room(req_headers) {
            return Err(ProxyError::Internal(String::from_str("Too many headers.")));
        }
        let ghost bag = header_bag(*req_headers);
        let headers = match build_headers(req_headers, claims) {
            Ok(h) => h,
            Err(e) => return Err(e),
        };
        let route = &self.conf.hosts[plan.route];
        let target = compose_target(self.conf.scheme.as_str(), route.host.as_str(), path_and_query);
        match parse_target(target.as_str()) {
            Ok(uri) => Ok(Outbound { uri, target, headers }),
            Err(e) => Err(e),
        }
    }
}

/// The view of an optional text.
pub open spec fn opt_view(t: Option<&str>) -> Option<Seq<char>> {
    match t {
        Some(s) => Some(s@),
        None => None,
    }
}

/// The message of the error for a request without a path.
pub open spec fn empty_path_message() -> Seq<char> {
    "Path cannot be empty."@
}

/// What planning may answer for a request with path-and-query `pq` and
/// headers `b`: no path is a URI error; no matching route is an unknown
/// path; a route that needs no token gives a plan without one; else the
/// bearer-token lookup decides.
pub open spec fn plan_outcome(
    conf: ProxyConf,
    pq: Option<Seq<char>>,
    b: Multiset<(Seq<char>, Seq<u8>)>,
    r: Result<Plan, ProxyError>,
) -> bool {
    match pq {
        None => (r matches Err(ProxyError::UriError(m)) && m@ == empty_path_message()),
        Some(p) => match resolve(conf.hosts@, path_of(p)) {
            None => (r matches Err(ProxyError::UnknownPath(m)) && m@ == unknown_path_message(
                path_of(p),
            )),
            Some(i) => if route_requires_auth(conf.auth, conf.hosts@[i]) {
                exists|x: Result<String, ProxyError>|
                    is_bearer_outcome(b, x) && #[trigger] plan_step(i, x) == r
            } else {
                r == Ok::<Plan, ProxyError>(Plan { route: i as usize, token: None })
            },
        },
    }
}

/// A request without a path is answered 400, before any route is looked up
/// or any backend called.
pub proof fn lemma_empty_path_is_bad_request(
    conf: ProxyConf,
    b: Multiset<(Seq<char>, Seq<u8>)>,
    r: Result<Plan, ProxyError>,
)
    requires
        plan_outcome(conf, None, b, r),
    ensures
        r matches Err(e) && status_of(e) == 400,
{
}

/// A request whose path no route serves is answered 404, with a body that
/// holds the path.
pub proof fn lemma_unknown_path_is_not_found(
    conf: ProxyConf,
    pq: Seq<char>,
    b: Multiset<(Seq<char>, Seq<u8>)>,
    r: Result<Plan, ProxyError>,
)
    requires
        forall|j: int|
            0 <= j < conf.hosts@.len() ==> !route_matches(#[trigger] conf.hosts@[j], path_of(pq)),
        plan_outcome(conf, Some(pq), b, r),
    ensures
        r matches Err(e) && status_of(e) == 404 && message_of(e) == Some(
            unknown_path_message(path_of(pq)),
        ),
        exists|k: int|
            0 <= k && k + path_of(pq).len() <= unknown_path_message(path_of(pq)).len()
                && #[trigger] unknown_path_message(path_of(pq)).subrange(k, k + path_of(pq).len())
                == path_of(pq),
{
    lemma_resolve_sound(conf.hosts@, path_of(pq));
    let path = path_of(pq);
    let lead = "Cannot find a valid proxy path for '"@;
    let k = lead.len() as int;
    assert(unknown_path_message(path).subrange(k, k + path.len()) =~= path);
}

/// A request without an `authorization` header on a route that needs a token
/// is answered 401, which carries a `WWW-Authenticate` challenge.
pub proof fn lemma_missing_token_is_unauthorized(
    conf: ProxyConf,
    pq: Seq<char>,
    b: Multiset<(Seq<char>, Seq<u8>)>,
    r: Result<Plan, ProxyError>,
    i: int,
)
    requires
        resolve(conf.hosts@, path_of(pq)) == Some(i),
        route_requires_auth(conf.auth, conf.hosts@[i]),
        !has_authorization(b),
        plan_outcome(conf, Some(pq), b, r),
    ensures
        r matches Err(e) && e is AuthMissingHeader && status_of(e) == 401,
{
    let x = choose|x: Result<String, ProxyError>| is_bearer_outcome(b, x) && #[trigger] plan_step(i, x) == r;
    assert(x matches Err(ProxyError::AuthMissingHeader(_)));
}

/// When the caller was authenticated, the forwarded headers hold the
/// identity header, whose value is the encoding of an identity whose `uuid`
/// is the token's subject.
pub proof fn lemma_identity_forwarded(
    b: Multiset<(Seq<char>, Seq<u8>)>,
    c: Claims,
    out: Multiset<(Seq<char>, Seq<u8>)>,
)
    requires
        forwarded_headers(b, Some(c), out),
    ensures
        exists|v: Seq<u8>|
            is_ascii_text_of(identity_header(c), v) && #[trigger] out.count((identity_header_name(), v)) > 0,
        identity_header(c) == base64_of(user_token_json(projection(c))),
        projection(c).uuid == c.sub@,
{
    broadcast use vstd::multiset::group_multiset_axioms;

    let v = choose|v: Seq<u8>|
        is_ascii_text_of(identity_header(c), v) && out == #[trigger] sanitized(b).insert(
            (identity_header_name(), v),
        );
    assert(out.count((identity_header_name(), v)) > 0);
}

/// On a route that needs no token, planning the same request twice picks
/// the same route, and the outbound URI text is the same each time.
pub proof fn lemma_plan_repeatable(
    conf: ProxyConf,
    pq: Seq<char>,
    b1: Multiset<(Seq<char>, Seq<u8>)>,
    b2: Multiset<(Seq<char>, Seq<u8>)>,
    r1: Result<Plan, ProxyError>,
    r2: Result<Plan, ProxyError>,
)
    requires
        plan_outcome(conf, Some(pq), b1, r1),
        plan_outcome(conf, Some(pq), b2, r2),
        resolve(conf.hosts@, path_of(pq)) matches Some(i) ==> !route_requires_auth(
            conf.auth,
            conf.hosts@[i],
        ),
    ensures
        r1 is Ok <==> r2 is Ok,
        r1 matches Ok(p1) ==> (r2 matches Ok(p2) && p1 == p2 && target_of(conf, p1.route as int, pq)
            == target_of(conf, p2.route as int, pq) && parsed_uri_text(
            target_of(conf, p1.route as int, pq),
        ) == parsed_uri_text(target_of(conf, p2.route as int, pq))),
        r1 matches Err(e1) ==> (r2 matches Err(e2) && message_of(e1) == message_of(e2)),
{
}

/// How the token to check follows from the bearer-token lookup `x`.
pub open spec fn token_step(x: Result<String, ProxyError>) -> Result<Option<String>, ProxyError> {
    match x {
        Ok(t) => Ok(Some(t)),
        Err(e) => Err(e),
    }
}

/// How the plan for route `i` follows from the bearer-token lookup `x`.
pub open spec fn plan_step(i: int, x: Result<String, ProxyError>) -> Result<Plan, ProxyError> {
    match x {
        Ok(t) => Ok(Plan { route: i as usize, token: Some(t) }),
        Err(e) => Err(e),
    }
}

} // verus!
