use hyper::header::{HeaderMap, HeaderName, HeaderValue};
use reverse_proxy::conf::{requires_auth, AuthConf, ProxyConf, ProxyHost};
use reverse_proxy::headers::is_hop_header;
use reverse_proxy::utils::strip_whitespaces;
use reverse_proxy::error::{handle_error, ProxyError};
use reverse_proxy::jwt::{
    check_auth, extract_bearer_token, verify_token, Account, Claims, RealmAccess, ResourceAccess,
};
use reverse_proxy::proxy::{build_headers, Plan, ReverseProxy};

const TEST_MODULUS: &str = "0lBGs8zNjCn2-aWXyJ9nmxh5A-w_DzzY255OwZ_LD3s_28OxAPm6Xs5QhALovtX5Yv4ZgHXPDf1pAMtr95-48UaTTmVxEGBmV0q-d6ze6HDJT9jwWCndxxKZBUtjjG9ZYKOWPxyKHVnr0qx7rGrPfG4zMQMduV0b4sGz5ErMMAWzB4_KBJ-V3zIxI4SamHk-7Jn3SU-SAkl0lmaNhkDY7nsGTJ3yolUpI_6_Y6lc4QQLuSzbouCQjntn6GgTPNWg1XGS5YRYZpJcFzzulOOEyWgSLkhAnFfLVivymQeUY8ZHh1Cm7tP_dggw9zy3W1ydxvgRt0ECY2TQb0P26rhYUw";
const TEST_EXPONENT: &str = "AQAB";

/// Header of the test tokens, signed with RS256 by the key whose public
/// components are above.
const TOKEN_HEADER: &str = r#"{"typ":"JWT","alg":"RS256"}"#;
const VALID_CLAIMS: &str = r#"{"sub":"user-42","iat":1,"exp":4102444800,"preferred_username":"ada"}"#;
const VALID_SIGNATURE: [u8; 256] = [
    42, 124, 28, 70, 58, 41, 199, 172, 200, 110, 9, 86, 120, 108, 0, 142,
    185, 21, 238, 119, 81, 46, 164, 190, 44, 95, 64, 180, 116, 194, 56, 139,
    86, 58, 254, 27, 218, 29, 31, 202, 9, 221, 140, 123, 1, 182, 95, 115,
    87, 228, 151, 46, 72, 202, 159, 93, 105, 75, 225, 124, 85, 186, 61, 250,
    149, 25, 194, 251, 23, 178, 85, 238, 199, 225, 171, 74, 168, 207, 218, 19,
    96, 174, 128, 100, 74, 142, 150, 12, 65, 137, 204, 213, 92, 164, 19, 114,
    150, 2, 207, 197, 201, 120, 28, 246, 245, 95, 168, 238, 26, 240, 156, 19,
    246, 126, 10, 84, 88, 41, 22, 51, 178, 129, 38, 232, 202, 74, 248, 217,
    102, 155, 148, 206, 142, 63, 199, 207, 189, 48, 205, 155, 113, 181, 228, 141,
    41, 203, 54, 55, 196, 124, 249, 100, 51, 177, 52, 96, 100, 243, 247, 71,
    72, 210, 252, 102, 50, 245, 78, 235, 188, 243, 166, 100, 45, 184, 140, 219,
    182, 248, 88, 133, 98, 121, 111, 25, 226, 180, 176, 85, 53, 183, 183, 49,
    254, 122, 202, 183, 61, 116, 97, 165, 6, 23, 101, 107, 48, 55, 57, 57,
    57, 193, 31, 38, 240, 115, 253, 107, 71, 106, 3, 186, 183, 32, 199, 56,
    218, 91, 55, 221, 83, 189, 82, 138, 177, 223, 4, 123, 149, 143, 144, 245,
    84, 106, 119, 101, 180, 177, 213, 88, 241, 114, 158, 14, 45, 43, 238, 222,
];
const EXPIRED_CLAIMS: &str = r#"{"sub":"u","exp":1000}"#;
const EXPIRED_SIGNATURE: [u8; 256] = [
    21, 106, 136, 113, 14, 36, 1, 73, 0, 148, 160, 122, 127, 15, 131, 195,
    237, 76, 105, 177, 170, 78, 248, 47, 7, 169, 238, 179, 32, 92, 85, 76,
    1, 165, 53, 145, 47, 63, 135, 220, 92, 130, 66, 48, 255, 120, 151, 2,
    238, 33, 35, 208, 247, 119, 183, 64, 206, 25, 245, 115, 156, 225, 205, 226,
    168, 121, 164, 121, 216, 53, 41, 193, 47, 210, 15, 156, 43, 237, 36, 115,
    45, 89, 255, 47, 112, 28, 157, 203, 249, 116, 108, 54, 129, 4, 216, 253,
    203, 114, 140, 97, 182, 24, 24, 32, 1, 193, 230, 236, 100, 38, 82, 134,
    117, 242, 200, 27, 90, 144, 3, 59, 104, 148, 252, 77, 193, 132, 201, 126,
    37, 217, 228, 161, 65, 97, 109, 39, 1, 6, 100, 232, 176, 6, 192, 217,
    99, 42, 198, 70, 8, 105, 191, 55, 175, 15, 106, 225, 75, 50, 63, 69,
    47, 48, 198, 146, 80, 231, 74, 204, 136, 204, 85, 133, 102, 183, 195, 243,
    155, 47, 217, 48, 103, 66, 89, 97, 95, 17, 170, 139, 130, 156, 177, 199,
    205, 143, 17, 143, 236, 129, 246, 150, 18, 44, 211, 136, 2, 158, 227, 41,
    164, 251, 27, 209, 244, 230, 187, 113, 172, 66, 109, 201, 48, 71, 155, 185,
    71, 15, 65, 33, 90, 213, 173, 11, 225, 113, 145, 4, 177, 59, 186, 203,
    204, 96, 124, 90, 33, 1, 42, 108, 117, 6, 48, 21, 12, 70, 84, 47,
];

fn route(path: &str, host: &str, auth: Option<bool>) -> ProxyHost {
    ProxyHost { path: path.to_string(), host: host.to_string(), auth }
}

fn proxy(auth: bool, hosts: Vec<ProxyHost>) -> ReverseProxy {
    ReverseProxy::new(ProxyConf {
        scheme: "http".to_string(),
        auth: AuthConf {
            auth,
            alg: "RS256".to_string(),
            rsa_modulus: TEST_MODULUS.to_string(),
            rsa_exponent: TEST_EXPONENT.to_string(),
        },
        hosts,
    })
}

fn headers(pairs: &[(&str, &str)]) -> HeaderMap {
    let mut h = HeaderMap::new();
    for (k, v) in pairs {
        h.append(HeaderName::from_bytes(k.as_bytes()).unwrap(), HeaderValue::from_str(v).unwrap());
    }
    h
}

fn claims(sub: &str, roles: &[&str]) -> Claims {
    Claims {
        iat: 1,
        exp: 2,
        sub: sub.to_string(),
        email_verified: true,
        name: "Ada Lovelace".to_string(),
        preferred_username: "ada".to_string(),
        given_name: "Ada".to_string(),
        family_name: "Lovelace".to_string(),
        email: "ada@example.com".to_string(),
        realm_access: RealmAccess { roles: roles.iter().map(|r| r.to_string()).collect() },
        resource_access: ResourceAccess { account: Account { roles: vec!["view".to_string()] } },
    }
}

fn decode_identity(value: &str) -> serde_json::Value {
    let bytes = base64::decode(value).unwrap();
    serde_json::from_slice(&bytes).unwrap()
}

#[test]
fn first_matching_route_wins() {
    let p = proxy(false, vec![route("/api", "a:1", None), route("/api/v2", "b:2", None)]);
    let r = p.plan(Some("/api/v2/items"), &HeaderMap::new()).ok().unwrap();
    assert_eq!(r.route, 0);
    let p = proxy(false, vec![route("/api/v2", "b:2", None), route("/api", "a:1", None)]);
    let r = p.plan(Some("/api/v2/items"), &HeaderMap::new()).ok().unwrap();
    assert_eq!(r.route, 0);
    let r = p.plan(Some("/api/v1"), &HeaderMap::new()).ok().unwrap();
    assert_eq!(r.route, 1);
}

#[test]
fn build_host_picks_first_prefix() {
    let hosts = vec![route("/a", "one:80", None), route("/", "root:80", None)];
    assert_eq!(reverse_proxy::routes::build_host("/a/b", &hosts).ok().unwrap().host, "one:80");
    assert_eq!(reverse_proxy::routes::build_host("/b", &hosts).ok().unwrap().host, "root:80");
}

#[test]
fn build_host_unknown_path_names_it() {
    let hosts = vec![route("/a", "one:80", None)];
    match reverse_proxy::routes::build_host("/zzz", &hosts) {
        Err(ProxyError::UnknownPath(m)) => {
            assert_eq!(m, "Cannot find a valid proxy path for '/zzz'")
        }
        _ => panic!("expected an unknown path"),
    }
}

#[test]
fn route_matching_ignores_query() {
    let p = proxy(false, vec![route("/search", "s:1", None)]);
    assert!(p.plan(Some("/search?q=/x"), &HeaderMap::new()).is_ok());
    let p = proxy(false, vec![route("/a?b", "s:1", None)]);
    assert!(matches!(p.plan(Some("/a?b"), &HeaderMap::new()), Err(ProxyError::UnknownPath(_))));
}

#[test]
fn path_part_stops_at_query() {
    assert_eq!(reverse_proxy::uri::path_part("/a/b?x=1?y"), "/a/b");
    assert_eq!(reverse_proxy::uri::path_part("/a/b"), "/a/b");
    assert_eq!(reverse_proxy::uri::path_part("?x"), "");
}

#[test]
fn has_prefix_literal() {
    assert!(reverse_proxy::routes::has_prefix("/api/x", "/api"));
    assert!(reverse_proxy::routes::has_prefix("/api", ""));
    assert!(!reverse_proxy::routes::has_prefix("/ap", "/api"));
    assert!(!reverse_proxy::routes::has_prefix("/API", "/api"));
}

#[test]
fn compose_uri_keeps_path_and_query() {
    let u = reverse_proxy::uri::compose_uri("http", "backend:8080", Some("/p/a%20b?q=1&r")).ok().unwrap();
    assert_eq!(u.to_string(), "http://backend:8080/p/a%20b?q=1&r");
    assert_eq!(
        reverse_proxy::uri::compose_target("https", "h", "/x?y"),
        "https://h/x?y"
    );
}

#[test]
fn compose_uri_without_path_is_uri_error() {
    assert!(matches!(
        reverse_proxy::uri::compose_uri("http", "backend", None),
        Err(ProxyError::UriError(_))
    ));
    assert!(matches!(
        reverse_proxy::uri::compose_uri("http", "bad host", Some("/")),
        Err(ProxyError::UriError(_))
    ));
}

#[test]
fn hop_headers_any_case() {
    for n in [
        "Authorization", "connection", "Accept-Encoding", "content-length", "CONTENT-ENCODING",
        "host", "Keep-Alive", "proxy-authenticate", "Proxy-Authorization", "TE", "trailers",
        "Transfer-Encoding", "upgrade",
    ] {
        assert!(is_hop_header(n), "{}", n);
    }
    for n in ["x-custom", "accept", "content-type", "hosts", "t"] {
        assert!(!is_hop_header(n), "{}", n);
    }
}

#[test]
fn sanitize_drops_hop_headers_keeps_rest() {
    let h = headers(&[
        ("host", "example.com"),
        ("connection", "keep-alive"),
        ("keep-alive", "timeout=5"),
        ("authorization", "Bearer x"),
        ("x-a", "1"),
        ("x-a", "2"),
        ("accept", "*/*"),
    ]);
    let out = reverse_proxy::headers::remove_hop_headers(&h);
    assert_eq!(out.len(), 3);
    let xa: Vec<_> = out.get_all("x-a").iter().map(|v| v.to_str().unwrap().to_string()).collect();
    assert_eq!(xa, vec!["1", "2"]);
    assert_eq!(out.get("accept").unwrap(), "*/*");
    assert!(out.get("host").is_none());
    assert!(out.get("authorization").is_none());
}

#[test]
fn sanitize_empty() {
    let out = reverse_proxy::headers::remove_hop_headers(&HeaderMap::new());
    assert!(out.is_empty());
}

#[test]
fn bearer_token_missing() {
    let h = headers(&[("accept", "*/*")]);
    assert!(matches!(extract_bearer_token(&h), Err(ProxyError::AuthMissingHeader(_))));
}

#[test]
fn bearer_token_prefixes() {
    for (v, t) in [
        ("Bearer abc.def", "abc.def"),
        ("bearer abc", "abc"),
        ("BEARER abc", "abc"),
        ("abc", "abc"),
        ("Bearer", "Bearer"),
        ("Bearer Bearer x", "Bearer x"),
    ] {
        let h = headers(&[("authorization", v)]);
        assert_eq!(extract_bearer_token(&h).ok().unwrap(), t);
    }
}

#[test]
fn bearer_token_unreadable_value() {
    let mut h = HeaderMap::new();
    h.append("authorization", HeaderValue::from_bytes(b"Bearer \xffabc").unwrap());
    assert!(matches!(extract_bearer_token(&h), Err(ProxyError::AuthCannotParseHeader(_))));
}

#[test]
fn identity_round_trip() {
    let c = claims("0b5f-uuid", &["admin", "user \"quoted\"", "ñandú"]);
    let v = c.to_user_token().ok().unwrap();
    let doc = decode_identity(&v);
    assert_eq!(doc["uuid"], "0b5f-uuid");
    assert_eq!(doc["username"], "ada");
    assert_eq!(doc["email"], "ada@example.com");
    assert_eq!(doc["first_name"], "Ada");
    assert_eq!(doc["last_name"], "Lovelace");
    let roles: Vec<String> = doc["roles"]
        .as_array()
        .unwrap()
        .iter()
        .map(|r| r.as_str().unwrap().to_string())
        .collect();
    assert_eq!(roles, vec!["admin", "user \"quoted\"", "ñandú"]);
    assert_eq!(doc.as_object().unwrap().len(), 6);
}

#[test]
fn identity_json_exact() {
    let c = claims("s", &[]);
    assert_eq!(
        c.user_token().to_json(),
        "{\"uuid\":\"s\",\"username\":\"ada\",\"email\":\"ada@example.com\",\"first_name\":\"Ada\",\"last_name\":\"Lovelace\",\"roles\":[]}"
    );
    let c = claims("s", &["a", "b"]);
    let v = c.to_user_token().ok().unwrap();
    assert_ne!(v, c.user_token().to_json());
    assert_eq!(String::from_utf8(base64::decode(&v).unwrap()).unwrap(), c.user_token().to_json());
    assert!(c.user_token().to_json().ends_with(",\"roles\":[\"a\",\"b\"]}"));
}

#[test]
fn build_headers_adds_identity() {
    let h = headers(&[("host", "x"), ("x-b", "1")]);
    let out = build_headers(&h, Some(claims("sub-1", &["r"]))).ok().unwrap();
    assert_eq!(out.len(), 2);
    let doc = decode_identity(out.get("x-real-name").unwrap().to_str().unwrap());
    assert_eq!(doc["uuid"], "sub-1");
    let out = build_headers(&h, None).ok().unwrap();
    assert_eq!(out.len(), 1);
    assert!(out.get("x-real-name").is_none());
}

#[test]
fn error_statuses() {
    let cases = vec![
        (ProxyError::UriError("u".to_string()), 400),
        (ProxyError::UnknownPath("p".to_string()), 404),
        (ProxyError::ClientError("c".to_string()), 500),
        (ProxyError::AuthMissingHeader("m".to_string()), 401),
        (ProxyError::AuthCannotParseHeader("p".to_string()), 401),
        (ProxyError::AuthCannotCreateHeader("h".to_string()), 500),
        (ProxyError::Internal("i".to_string()), 500),
    ];
    for (e, status) in cases {
        let r = handle_error(e);
        assert_eq!(r.status, status);
        if status == 401 {
            assert_eq!(r.www_authenticate.as_deref(), Some("Bearer realm=\"\""));
        } else {
            assert!(r.www_authenticate.is_none());
        }
    }
    let r = handle_error(ProxyError::UnknownPath("no route".to_string()));
    assert_eq!(r.body, "no route");
}

#[test]
fn token_error_is_unauthorized() {
    let key = jsonwebtoken::DecodingKey::from_rsa_components(TEST_MODULUS, TEST_EXPONENT);
    let v = jsonwebtoken::Validation::new(jsonwebtoken::Algorithm::RS256);
    let err = jsonwebtoken::decode::<serde_json::Value>("not-a-token", &key, &v).err().unwrap();
    let r = handle_error(ProxyError::AuthTokenError(err));
    assert_eq!(r.status, 401);
    assert!(r.www_authenticate.is_some());
    assert!(!r.body.is_empty());
}

#[test]
fn empty_path_is_bad_request() {
    let p = proxy(false, vec![route("/", "a:1", None)]);
    let e = p.plan(None, &HeaderMap::new()).err().unwrap();
    assert!(matches!(e, ProxyError::UriError(_)));
    assert_eq!(handle_error(e).status, 400);
}

#[test]
fn unknown_path_is_not_found() {
    let p = proxy(false, vec![route("/api", "a:1", None)]);
    let e = p.plan(Some("/other/thing?x=1"), &HeaderMap::new()).err().unwrap();
    let r = handle_error(e);
    assert_eq!(r.status, 404);
    assert!(r.body.contains("/other/thing"));
}

#[test]
fn missing_token_is_unauthorized() {
    let p = proxy(true, vec![route("/", "a:1", None)]);
    let e = p.plan(Some("/x"), &headers(&[("accept", "*/*")])).err().unwrap();
    assert!(matches!(e, ProxyError::AuthMissingHeader(_)));
    let r = handle_error(e);
    assert_eq!(r.status, 401);
    assert_eq!(r.www_authenticate.as_deref(), Some("Bearer realm=\"\""));
}

#[test]
fn auth_switches() {
    let h = HeaderMap::new();
    let p = proxy(true, vec![route("/open", "a:1", Some(false)), route("/", "b:1", Some(true))]);
    assert!(p.plan(Some("/open/x"), &h).ok().unwrap().token.is_none());
    assert!(p.plan(Some("/closed"), &h).is_err());
    let p = proxy(false, vec![route("/", "b:1", Some(true))]);
    assert!(p.plan(Some("/closed"), &h).ok().unwrap().token.is_none());
    let p = proxy(true, vec![route("/", "b:1", Some(true))]);
    let t = p.plan(Some("/"), &headers(&[("Authorization", "Bearer tok")])).ok().unwrap();
    assert_eq!(t.token.as_deref(), Some("tok"));
}

fn token(claims: &str, signature: &[u8]) -> String {
    format!(
        "{}.{}.{}",
        base64::encode_config(TOKEN_HEADER, base64::URL_SAFE_NO_PAD),
        base64::encode_config(claims, base64::URL_SAFE_NO_PAD),
        base64::encode_config(signature, base64::URL_SAFE_NO_PAD)
    )
}

/// A token for subject `user-42` that expires in 2100.
fn signed_token() -> String {
    token(VALID_CLAIMS, &VALID_SIGNATURE)
}

#[test]
fn valid_token_forwards_identity() {
    let p = proxy(true, vec![route("/api", "backend:9000", None)]);
    let token = signed_token();
    let auth = format!("Bearer {}", token);
    let h = headers(&[("authorization", &auth), ("x-trace", "t1"), ("host", "edge")]);
    let plan = p.plan(Some("/api/me?full=1"), &h).ok().unwrap();
    let t = plan.token.clone().unwrap();
    assert_eq!(t, token);
    let doc = verify_token(&p.conf.auth, &t).ok().unwrap();
    let sub = doc["sub"].as_str().unwrap().to_string();
    let c = claims(&sub, &["user"]);
    let out = p.rewrite(&plan, "/api/me?full=1", &h, Some(c)).ok().unwrap();
    assert_eq!(out.target, "http://backend:9000/api/me?full=1");
    assert_eq!(out.uri.to_string(), "http://backend:9000/api/me?full=1");
    assert!(out.headers.get("authorization").is_none());
    assert!(out.headers.get("host").is_none());
    assert_eq!(out.headers.get("x-trace").unwrap(), "t1");
    let doc = decode_identity(out.headers.get("x-real-name").unwrap().to_str().unwrap());
    assert_eq!(doc["uuid"], "user-42");
}

#[test]
fn tampered_token_is_rejected() {
    let token = signed_token();
    let mut parts: Vec<String> = token.split('.').map(|s| s.to_string()).collect();
    parts[1] = base64::encode_config("{\"sub\":\"other\",\"exp\":4102444800}", base64::URL_SAFE_NO_PAD);
    let forged = parts.join(".");
    let p = proxy(true, vec![]);
    assert!(matches!(verify_token(&p.conf.auth, &forged), Err(ProxyError::AuthTokenError(_))));
    assert!(verify_token(&p.conf.auth, &token).is_ok());
}

#[test]
fn check_auth_outcomes() {
    let p = proxy(true, vec![]);
    let none = headers(&[("accept", "*/*")]);
    assert!(matches!(check_auth(&p.conf.auth, &none), Err(ProxyError::AuthMissingHeader(_))));
    let bad = headers(&[("authorization", "Bearer a.b.c")]);
    assert!(matches!(check_auth(&p.conf.auth, &bad), Err(ProxyError::AuthTokenError(_))));
    let auth = format!("Bearer {}", signed_token());
    let good = headers(&[("Authorization", &auth)]);
    let doc = check_auth(&p.conf.auth, &good).ok().unwrap();
    assert_eq!(doc["sub"], "user-42");
}

#[test]
fn unknown_algorithm_is_token_error() {
    let mut p = proxy(true, vec![]);
    p.conf.auth.alg = "XX999".to_string();
    let token = signed_token();
    assert!(matches!(verify_token(&p.conf.auth, &token), Err(ProxyError::AuthTokenError(_))));
}

#[test]
fn expired_token_is_token_error() {
    let token = token(EXPIRED_CLAIMS, &EXPIRED_SIGNATURE);
    let p = proxy(true, vec![]);
    assert!(matches!(verify_token(&p.conf.auth, &token), Err(ProxyError::AuthTokenError(_))));
}

#[test]
fn repeated_request_same_outcome() {
    let p = proxy(true, vec![route("/pub", "p:1", Some(false)), route("/", "r:1", None)]);
    let h = headers(&[("x-a", "1")]);
    let a = p.plan(Some("/pub/x?y=2"), &h).ok().unwrap();
    let b = p.plan(Some("/pub/x?y=2"), &h).ok().unwrap();
    assert_eq!(a.route, b.route);
    let oa = p.rewrite(&a, "/pub/x?y=2", &h, None).ok().unwrap();
    let ob = p.rewrite(&b, "/pub/x?y=2", &h, None).ok().unwrap();
    assert_eq!(oa.target, ob.target);
    assert_eq!(oa.uri, ob.uri);
    assert_eq!(oa.headers, ob.headers);
}

#[test]
fn rewrite_rejects_unknown_route() {
    let p = proxy(false, vec![route("/", "r:1", None)]);
    let plan = Plan { route: 5, token: None };
    assert!(matches!(
        p.rewrite(&plan, "/", &HeaderMap::new(), None),
        Err(ProxyError::Internal(_))
    ));
}

#[test]
fn requires_auth_rules() {
    let on = AuthConf { auth: true, alg: String::new(), rsa_modulus: String::new(), rsa_exponent: String::new() };
    let off = AuthConf { auth: false, alg: String::new(), rsa_modulus: String::new(), rsa_exponent: String::new() };
    assert!(requires_auth(&on, &route("/", "h", None)));
    assert!(requires_auth(&on, &route("/", "h", Some(true))));
    assert!(!requires_auth(&on, &route("/", "h", Some(false))));
    assert!(!requires_auth(&off, &route("/", "h", None)));
    assert!(!requires_auth(&off, &route("/", "h", Some(true))));
}

#[test]
fn strip_whitespaces_removes_all_kinds() {
    assert_eq!(strip_whitespaces(" ab c\n\td\r\u{00a0}e\u{3000}".to_string()), "abcde");
    assert_eq!(strip_whitespaces(String::new()), "");
    assert_eq!(strip_whitespaces("x\u{200b}y".to_string()), "x\u{200b}y");
}

#[test]
fn error_messages_fixed() {
    let p = proxy(true, vec![route("/", "a:1", None)]);
    match p.plan(None, &HeaderMap::new()) {
        Err(ProxyError::UriError(m)) => assert_eq!(m, "Path cannot be empty."),
        _ => panic!("expected a uri error"),
    }
    match extract_bearer_token(&HeaderMap::new()) {
        Err(ProxyError::AuthMissingHeader(m)) => assert_eq!(m, "Authorization header is absent."),
        _ => panic!("expected a missing header"),
    }
    let mut h = HeaderMap::new();
    h.append("authorization", HeaderValue::from_bytes(b"Bearer \xff").unwrap());
    match extract_bearer_token(&h) {
        Err(ProxyError::AuthCannotParseHeader(m)) => {
            assert_eq!(m, "Cannot parse authorization header.")
        }
        _ => panic!("expected an unreadable header"),
    }
}

#[test]
fn identity_value_is_base64() {
    let v = claims("ß-ü", &["ä"]).to_user_token().ok().unwrap();
    assert!(v.chars().all(|c| c.is_ascii_alphanumeric() || c == '+' || c == '/' || c == '='));
    assert_eq!(v.len() % 4, 0);
}

#[test]
fn identity_appended_after_existing_values() {
    let h = headers(&[("x-real-name", "earlier"), ("x-b", "1"), ("x-b", "2")]);
    let out = build_headers(&h, Some(claims("s", &[]))).ok().unwrap();
    let vals: Vec<_> = out.get_all("x-real-name").iter().map(|v| v.to_str().unwrap().to_string()).collect();
    assert_eq!(vals.len(), 2);
    assert_eq!(vals[0], "earlier");
    assert_eq!(decode_identity(&vals[1])["uuid"], "s");
    let xb: Vec<_> = out.get_all("x-b").iter().map(|v| v.to_str().unwrap().to_string()).collect();
    assert_eq!(xb, vec!["1", "2"]);
}

#[test]
fn room_for_headers() {
    assert!(reverse_proxy::headers::has_room(&HeaderMap::new()));
    let mut h = HeaderMap::new();
    for i in 0..4096 {
        h.append("x-many", HeaderValue::from_str(&i.to_string()).unwrap());
    }
    assert!(!reverse_proxy::headers::has_room(&h));
    let p = proxy(false, vec![route("/", "r:1", None)]);
    let plan = Plan { route: 0, token: None };
    assert!(matches!(p.rewrite(&plan, "/", &h, None), Err(ProxyError::Internal(_))));
}

