use vstd::prelude::*;
use vstd::multiset::Multiset;
use hyper::header::HeaderMap;
use crate::conf::AuthConf;
use crate::error::ProxyError;
use crate::headers::{
    entry_view,
    entry_views,
    eq_ignore_ascii_case,
    header_bag,
    header_entries,
    is_ascii_text_of,
    is_visible_ascii,
    is_visible_text,
    same_name,
    value_text,
};

verus! {

#[verifier::external_type_specification]
#[verifier::external_body]
pub struct ExJsonValue(serde_json::Value);

/// The claims of a verified token, as issued by a Keycloak server.
pub struct Claims {
    /// Issued at.
    pub iat: u32,
    /// Expires at.
    pub exp: u32,
    pub sub: String,
    pub email_verified: bool,
    pub name: String,
    pub preferred_username: String,
    pub given_name: String,
    pub family_name: String,
    pub email: String,
    pub realm_access: RealmAccess,
    pub resource_access: ResourceAccess,
}

/// The realm roles of a token.
pub struct RealmAccess {
    pub roles: Vec<String>,
}

/// The per-client roles of a token.
pub struct ResourceAccess {
    pub account: Account,
}

/// The roles of the `account` client.
pub struct Account {
    pub roles: Vec<String>,
}

/// The identity handed to backends: the part of the claims they need.
pub struct UserToken {
    pub uuid: String,
    pub username: String,
    pub email: String,
    pub first_name: String,
    pub last_name: String,
    pub roles: Vec<String>,
}

/// The fields of a [`UserToken`] as text.
pub struct UserTokenView {
    pub uuid: Seq<char>,
    pub username: Seq<char>,
    pub email: Seq<char>,
    pub first_name: Seq<char>,
    pub last_name: Seq<char>,
    pub roles: Seq<Seq<char>>,
}

pub open spec fn texts(v: Seq<String>) -> Seq<Seq<char>> {
    v.map_values(|s: String| s@)
}

impl View for UserToken {
    type V = UserTokenView;

    open spec fn view(&self) -> UserTokenView {
        UserTokenView {
            uuid: self.uuid@,
            username: self.username@,
            email: self.email@,
            first_name: self.first_name@,
            last_name: self.last_name@,
            roles: texts(self.roles@),
        }
    }
}

/// The identity that the claims `c` give a backend.
pub open spec fn projection(c: Claims) -> UserTokenView {
    UserTokenView {
        uuid: c.sub@,
        username: c.preferred_username@,
        email: c.email@,
        first_name: c.given_name@,
        last_name: c.family_name@,
        roles: texts(c.realm_access.roles@),
    }
}

/// What `serde_json` writes for the string `s`: a JSON string literal.
pub uninterp spec fn json_string_of(s: Seq<char>) -> Seq<char>;

/// What `base64` writes for the UTF-8 bytes of `s`, with the standard alphabet and padding.
pub uninterp spec fn base64_of(s: Seq<char>) -> Seq<char>;

/// Whether `c` belongs to the standard base64 alphabet or is its padding.
pub open spec fn is_base64_char(c: char) -> bool {
    ('A' <= c <= 'Z') || ('a' <= c <= 'z') || ('0' <= c <= '9') || c == '+' || c == '/' || c
        == '='
}

/// Relies on `serde_json::to_string` on a `str`: a JSON string literal. It
/// writes into a `Vec`, which never fails.
#[verifier::external_body]
fn json_string(s: &str) -> (r: Option<String>)
    ensures
        r is Some,
        r matches Some(t) ==> t@ == json_string_of(s@),
{
    serde_json::to_string(s).ok()
}

/// Relies on `base64::encode`: the standard alphabet with padding.
#[verifier::external_body]
fn base64_encode(s: &str) -> (r: String)
    ensures
        r@ == base64_of(s@),
        forall|i: int| 0 <= i < r@.len() ==> is_base64_char(#[trigger] r@[i]),
{
    base64::encode(s)
}

/// The roles as the items of a JSON array, comma separated.
pub open spec fn json_items(roles: Seq<Seq<char>>) -> Seq<char>
    decreases roles.len(),
{
    if roles.len() == 0 {
        Seq::empty()
    } else if roles.len() == 1 {
        json_string_of(roles[0])
    } else {
        json_items(roles.drop_last()) + ","@ + json_string_of(roles.last())
    }
}

/// The JSON document of an identity, fields in declaration order, no spaces.
pub open spec fn user_token_json(u: UserTokenView) -> Seq<char> {
    "{\"uuid\":"@ + json_string_of(u.uuid) + ",\"username\":"@ + json_string_of(u.username)
        + ",\"email\":"@ + json_string_of(u.email) + ",\"first_name\":"@ + json_string_of(
        u.first_name,
    ) + ",\"last_name\":"@ + json_string_of(u.last_name) + ",\"roles\":["@ + json_items(u.roles)
        + "]}"@
}

/// The identity header's value for the claims `c`.
pub open spec fn identity_header(c: Claims) -> Seq<char> {
    base64_of(user_token_json(projection(c)))
}

fn clone_texts(v: &Vec<String>) -> (r: Vec<String>)
    ensures
        texts(r@) == texts(v@),
{
    let mut r: Vec<String> = Vec::new();
    let mut i: usize = 0;
    while i < v.len()
        invariant
            i <= v@.len(),
            texts(r@) == texts(v@.subrange(0, i as int)),
        decreases v@.len() - i,
    {
        let s = v[i].clone();
        proof {
            assert(v@.subrange(0, i + 1) =~= v@.subrange(0, i as int).push(v@[i as int]));
            assert(texts(r@.push(s)) =~= texts(r@).push(s@));
            assert(texts(v@.subrange(0, i + 1)) =~= texts(v@.subrange(0, i as int)).push(
                v@[i as int]@,
            ));
        }
        r.push(s);
        i = i + 1;
    }
    proof {
        assert(v@.subrange(0, v@.len() as int) =~= v@);
    }
    r
}

impl UserToken {
    /// The identity document as JSON text.
    pub fn to_json(&self) -> (r: String)
        ensures
            r@ == user_token_json(self@),
    {
        let mut items = String::new();
        let mut i: usize = 0;
        while i < self.roles.len()
            invariant
                i <= self.roles@.len(),
                items@ == json_items(texts(self.roles@).subrange(0, i as int)),
            decreases self.roles@.len() - i,
        {
            let q = json_string(self.roles[i].as_str()).unwrap();
            proof {
                let all = texts(self.roles@);
                let pre = all.subrange(0, i as int);
                let next = all.subrange(0, i + 1);
                assert(next.drop_last() =~= pre);
                assert(next.last() == self.roles@[i as int]@);
                if i == 0 {
                    assert(pre =~= Seq::<Seq<char>>::empty());
                }
            }
            if i == 0 {
                items = q;
            } else {
                items = items.concat(",").concat(q.as_str());
            }
            i = i + 1;
        }
        proof {
            assert(texts(self.roles@).subrange(0, self.roles@.len() as int) =~= texts(self.roles@));
        }
        let uuid = json_string(self.uuid.as_str()).unwrap();
        let username = json_string(self.username.as_str()).unwrap();
        let email = json_string(self.email.as_str()).unwrap();
        let first = json_string(self.first_name.as_str()).unwrap();
        let last = json_string(self.last_name.as_str()).unwrap();
        String::from_str("{\"uuid\":").concat(uuid.as_str()).concat(",\"username\":").concat(
            username.as_str(),
        ).concat(",\"email\":").concat(email.as_str()).concat(",\"first_name\":").concat(
            first.as_str(),
        ).concat(",\"last_name\":").concat(last.as_str()).concat(",\"roles\":[").concat(
            items.as_str(),
        ).concat("]}")
    }
}

impl Claims {
    /// The identity that these claims give a backend.
    pub fn user_token(&self) -> (r: UserToken)
        ensures
            r@ == projection(*self),
    {
        UserToken {
            uuid: self.sub.clone(),
            username: self.preferred_username.clone(),
            email: self.email.clone(),
            first_name: self.given_name.clone(),
            last_name: self.family_name.clone(),
            roles: clone_texts(&self.realm_access.roles),
        }
    }

    /// The identity header's value: the identity as JSON, then base64.
    pub fn to_user_token(&self) -> (r: Result<String, ProxyError>)
        ensures
            r matches Ok(s) && s@ == identity_header(*self),
            r matches Ok(s) && is_visible_text(s@),
            r matches Ok(s) && forall|i: int| 0 <= i < s@.len() ==> is_base64_char(#[trigger] s@[i]),
    {
        let json = self.user_token().to_json();
        let encoded = base64_encode(json.as_str());
        proof {
            assert forall|i: int| 0 <= i < encoded@.len() implies 32 <= (#[trigger] encoded@[i]) as u32
                && (encoded@[i] as u32) < 127 by {
                assert(is_base64_char(encoded@[i]));
            }
        }
        Ok(encoded)
    }
}

/// Whether a header of this name carries credentials.
pub open spec fn is_authorization(n: Seq<char>) -> bool {
    eq_ignore_ascii_case(n, "authorization"@)
}

/// The token in an `authorization` value: the text after a leading
/// `Bearer ` (in any case), or the whole text when it has no such prefix.
pub open spec fn strip_bearer(t: Seq<char>) -> Seq<char> {
    if t.len() >= 7 && eq_ignore_ascii_case(t.subrange(0, 7), "bearer "@) {
        t.subrange(7, t.len() as int)
    } else {
        t
    }
}

/// Whether `b` holds an `authorization` header.
pub open spec fn has_authorization(b: Multiset<(Seq<char>, Seq<u8>)>) -> bool {
    exists|e: (Seq<char>, Seq<u8>)| #[trigger] b.count(e) > 0 && is_authorization(e.0)
}

/// Whether every byte of `v` is visible ASCII.
pub open spec fn is_text_value(v: Seq<u8>) -> bool {
    forall|i: int| 0 <= i < v.len() ==> is_visible_ascii(#[trigger] v[i])
}

/// The message of the error for a request without an `authorization` header.
pub open spec fn missing_header_message() -> Seq<char> {
    "Authorization header is absent."@
}

/// The message of the error for an `authorization` value that is not text.
pub open spec fn unreadable_header_message() -> Seq<char> {
    "Cannot parse authorization header."@
}

/// What the bearer-token lookup may answer on headers `b`.
pub open spec fn is_bearer_outcome(b: Multiset<(Seq<char>, Seq<u8>)>, r: Result<String, ProxyError>) -> bool {
    &&& (r matches Err(ProxyError::AuthMissingHeader(_)) <==> !has_authorization(b))
    &&& (r matches Err(ProxyError::AuthMissingHeader(m)) ==> m@ == missing_header_message())
    &&& (r matches Ok(t) ==> exists|e: (Seq<char>, Seq<u8>), raw: Seq<char>|
        #[trigger] b.count(e) > 0 && is_authorization(e.0) && is_text_value(e.1)
            && is_ascii_text_of(raw, e.1) && t@ == #[trigger] strip_bearer(raw))
    &&& (r matches Err(ProxyError::AuthCannotParseHeader(_)) ==> exists|e: (Seq<char>, Seq<u8>)|
        #[trigger] b.count(e) > 0 && is_authorization(e.0) && !is_text_value(e.1))
    &&& (r matches Err(ProxyError::AuthCannotParseHeader(m)) ==> m@ == unreadable_header_message())
    &&& ((has_authorization(b) && forall|e: (Seq<char>, Seq<u8>)|
        #[trigger] b.count(e) > 0 && is_authorization(e.0) ==> is_text_value(e.1)) ==> r is Ok)
    &&& (r is Ok || r matches Err(ProxyError::AuthMissingHeader(_)) || r matches Err(
        ProxyError::AuthCannotParseHeader(_),
    ))
}

/// Finds the bearer token in the `authorization` header, whose name is
/// compared without ASCII case. When several such headers come, the token
/// is taken from one of them.
pub fn extract_bearer_token(headers: &HeaderMap) -> (r: Result<String, ProxyError>)
    ensures
        is_bearer_outcome(header_bag(*headers), r),
{
    let ents = header_entries(headers);
    let ghost views = entry_views(ents@);
    proof {
        views.to_multiset_ensures();
    }
    let mut i: usize = 0;
    while i < ents.len()
        invariant
            i <= ents@.len(),
            views == entry_views(ents@),
            views.to_multiset() == header_bag(*headers),
            forall|k: int| 0 <= k < i ==> !is_authorization(#[trigger] views[k].0),
            forall|a: (Seq<char>, Seq<u8>)| views.contains(a) <==> #[trigger] views.to_multiset().count(a) > 0,
        decreases ents@.len() - i,
    {
        let name: &str = ents[i].0.as_str();
        if same_name(name, "authorization") {
            let ghost e = views[i as int];
            proof {
                assert(views.contains(e));
                assert(e == entry_view(ents@[i as int]));
            }
            match value_text(&ents[i].1) {
                Some(text) => {
                    let n: usize = text.unicode_len();
                    let token: &str = if n >= 7 && same_name(text.substring_char(0, 7), "bearer ") {
                        text.substring_char(7, n)
                    } else {
                        text
                    };
                    let t = String::from_str(token);
                    proof {
                        assert(header_bag(*headers).count(e) > 0);
                        assert(is_authorization(e.0));
                        assert(is_ascii_text_of(text@, e.1));
                        assert(t@ == strip_bearer(text@));
                        assert(has_authorization(header_bag(*headers)));
                    }
                    return Ok(t);
                },
                None => {
                    proof {
                        assert(header_bag(*headers).count(e) > 0);
                        assert(has_authorization(header_bag(*headers)));
                        assert(!is_text_value(e.1));
                    }
                    return Err(
                        ProxyError::AuthCannotParseHeader(
                            String::from_str("Cannot parse authorization header."),
                        ),
                    );
                },
            }
        }
        i = i + 1;
    }
    proof {
        assert forall|e: (Seq<char>, Seq<u8>)| #[trigger]
            header_bag(*headers).count(e) > 0 implies !is_authorization(e.0) by {
            assert(views.contains(e));
        }
    }
    Err(ProxyError::AuthMissingHeader(String::from_str("Authorization header is absent.")))
}

/// The algorithm names that `jsonwebtoken::Algorithm::from_str` accepts.
pub open spec fn is_algorithm_name(s: Seq<char>) -> bool {
    s == "HS256"@ || s == "HS384"@ || s == "HS512"@ || s == "ES256"@ || s == "ES384"@ || s
        == "RS256"@ || s == "RS384"@ || s == "RS512"@ || s == "PS256"@ || s == "PS384"@ || s
        == "PS512"@
}

/// Relies on `jsonwebtoken::decode`, with the algorithm named by the
/// configuration (`Algorithm::from_str`), the configured RSA key
/// (`DecodingKey::from_rsa_components`) and the default checks of
/// `Validation::new`: the signature, and the expiry against the clock. The
/// token's own header cannot choose another algorithm or key. What comes back
/// depends on the time.
#[verifier::external_body]
fn verify(conf: &AuthConf, token: &str) -> (r: Result<serde_json::Value, jsonwebtoken::errors::Error>)
    ensures
        !is_algorithm_name(conf.alg@) ==> r is Err,
{
    let alg = <jsonwebtoken::Algorithm as std::str::FromStr>::from_str(&conf.alg)?;
    let key = jsonwebtoken::DecodingKey::from_rsa_components(
        conf.rsa_modulus.as_str(),
        conf.rsa_exponent.as_str(),
    );
    let data = jsonwebtoken::decode::<serde_json::Value>(token, &key, &jsonwebtoken::Validation::new(alg))?;
    Ok(data.claims)
}

/// Checks a bearer token against the configured key and algorithm, and
/// gives back its claims as a JSON document.
pub fn verify_token(conf: &AuthConf, token: &str) -> (r: Result<serde_json::Value, ProxyError>)
    ensures
        r matches Err(e) ==> e is AuthTokenError,
        !is_algorithm_name(conf.alg@) ==> r is Err,
{
    match verify(conf, token) {
        Ok(claims) => Ok(claims),
        Err(e) => Err(ProxyError::AuthTokenError(e)),
    }
}

/// Checks that a request carries a valid bearer token, and gives back the
/// token's claims as a JSON document. A missing or unreadable header fails
/// as the bearer-token lookup says; a token that does not verify fails with
/// a token error.
pub fn check_auth(conf: &AuthConf, req_headers: &HeaderMap) -> (r: Result<serde_json::Value, ProxyError>)
    ensures
        exists|x: Result<String, ProxyError>|
            is_bearer_outcome(header_bag(*req_headers), x) && #[trigger] auth_step(*conf, x, r),
{
    let x = extract_bearer_token(req_headers);
    let ghost gx = x;
    let r = match x {
        Ok(jwt) => verify_token(conf, jwt.as_str()),
        Err(e) => Err(e),
    };
    assert(auth_step(*conf, gx, r));
    r
}

/// How checking a request's token follows from the bearer-token lookup `x`:
/// a lookup failure is the answer; a token found is then verified, which
/// fails whatever the token when `conf` names no known algorithm.
pub open spec fn auth_step(conf: AuthConf, x: Result<String, ProxyError>, r: Result<serde_json::Value, ProxyError>) -> bool {
    match x {
        Ok(_) => (r is Ok || r matches Err(ProxyError::AuthTokenError(_))) && (!is_algorithm_name(
            conf.alg@,
        ) ==> r is Err),
        Err(e) => r == Err::<serde_json::Value, ProxyError>(e),
    }
}

} // verus!
