use vstd::prelude::*;

verus! {

#[verifier::external_type_specification]
#[verifier::external_body]
pub struct ExJwtError(jsonwebtoken::errors::Error);

/// Why a request could not be forwarded.
pub enum ProxyError {
    /// The request has no path, or the outbound URI is malformed.
    UriError(String),
    /// No route matches the request path.
    UnknownPath(String),
    /// The backend could not be reached.
    ClientError(String),
    /// The request carries no `authorization` header.
    AuthMissingHeader(String),
    /// The `authorization` header is not visible ASCII text.
    AuthCannotParseHeader(String),
    /// The identity header could not be built.
    AuthCannotCreateHeader(String),
    /// The token was rejected: bad signature, malformed or expired.
    AuthTokenError(jsonwebtoken::errors::Error),
    /// Any other failure.
    Internal(String),
}

/// What the proxy answers in place of a backend response.
pub struct ErrorResponse {
    pub status: u16,
    pub body: String,
    /// The value of a `WWW-Authenticate` header, when one is sent.
    pub www_authenticate: Option<String>,
}

/// The HTTP status that answers `e`.
pub open spec fn status_of(e: ProxyError) -> u16 {
    match e {
        ProxyError::UriError(_) => 400,
        ProxyError::UnknownPath(_) => 404,
        ProxyError::ClientError(_) => 500,
        ProxyError::AuthMissingHeader(_) => 401,
        ProxyError::AuthCannotParseHeader(_) => 401,
        ProxyError::AuthTokenError(_) => 401,
        ProxyError::AuthCannotCreateHeader(_) => 500,
        ProxyError::Internal(_) => 500,
    }
}

/// The message that `e` carries, where it carries text.
pub open spec fn message_of(e: ProxyError) -> Option<Seq<char>> {
    match e {
        ProxyError::UriError(m) => Some(m@),
        ProxyError::UnknownPath(m) => Some(m@),
        ProxyError::ClientError(m) => Some(m@),
        ProxyError::AuthMissingHeader(m) => Some(m@),
        ProxyError::AuthCannotParseHeader(m) => Some(m@),
        ProxyError::AuthCannotCreateHeader(m) => Some(m@),
        ProxyError::Internal(m) => Some(m@),
        ProxyError::AuthTokenError(_) => None,
    }
}

/// The challenge sent with every 401 answer.
pub open spec fn bearer_challenge() -> Seq<char> {
    seq!['B', 'e', 'a', 'r', 'e', 'r', ' ', 'r', 'e', 'a', 'l', 'm', '=', '"', '"']
}

/// Relies on the `Debug` impl of `jsonwebtoken::errors::Error` to describe a rejected token.
#[verifier::external_body]
fn token_error_text(e: &jsonwebtoken::errors::Error) -> String {
    format!("{:?}", e)
}

/// Translates a failure into the answer sent to the client.
pub fn handle_error(err: ProxyError) -> (r: ErrorResponse)
    ensures
        r.status == status_of(err),
        r.www_authenticate is Some <==> r.status == 401,
        r.www_authenticate matches Some(v) ==> v@ == bearer_challenge(),
        message_of(err) matches Some(m) ==> r.body@ == m,
{
    let (status, body): (u16, String) = match err {
        ProxyError::UriError(msg) => (400, msg),
        ProxyError::UnknownPath(msg) => (404, msg),
        ProxyError::ClientError(msg) => (500, msg),
        ProxyError::AuthMissingHeader(msg) => (401, msg),
        ProxyError::AuthCannotParseHeader(msg) => (401, msg),
        ProxyError::AuthTokenError(e) => (401, token_error_text(&e)),
        ProxyError::AuthCannotCreateHeader(msg) => (500, msg),
        ProxyError::Internal(msg) => (500, msg),
    };
    let www_authenticate = if status == 401 {
        let v = String::from_str("Bearer realm=\"\"");
        proof {
            reveal_strlit("Bearer realm=\"\"");
            assert(v@ =~= bearer_challenge());
        }
        Some(v)
    } else {
        None
    };
    ErrorResponse { status, body, www_authenticate }
}

} // verus!
