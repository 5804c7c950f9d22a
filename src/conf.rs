use vstd::prelude::*;

verus! {

/// The whole configuration: the listening address and the proxy rules.
pub struct Conf {
    pub server: ServerConf,
    pub proxy: ProxyConf,
}

/// Where the proxy listens.
pub struct ServerConf {
    pub host: String,
    pub port: u16,
}

/// The proxy rules: the scheme of outbound requests, token checking, and
/// the routes in the order in which they are tried.
pub struct ProxyConf {
    pub scheme: String,
    pub auth: AuthConf,
    pub hosts: Vec<ProxyHost>,
}

/// Token checking. `auth` is the global switch; the other fields give the
/// signature algorithm's name and the RSA public key's components.
pub struct AuthConf {
    pub auth: bool,
    pub alg: String,
    pub rsa_modulus: String,
    pub rsa_exponent: String,
}

/// One route: requests whose path starts with `path` go to the backend
/// authority `host`. A route without `auth` requires a token.
pub struct ProxyHost {
    pub path: String,
    pub host: String,
    pub auth: Option<bool>,
}

/// Whether requests on `route` must carry a valid token: the route asks
/// for it (or says nothing) and the global switch is on.
pub open spec fn route_requires_auth(auth: AuthConf, route: ProxyHost) -> bool {
    auth.auth && match route.auth {
        Some(b) => b,
        None => true,
    }
}

/// Decides whether requests on `route` must be authenticated.
pub fn requires_auth(auth: &AuthConf, route: &ProxyHost) -> (r: bool)
    ensures
        r == route_requires_auth(*auth, *route),
{
    let wanted = match route.auth {
        Some(b) => b,
        None => true,
    };
    wanted && auth.auth
}

} // verus!
