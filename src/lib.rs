//! Decision core of an HTTP reverse proxy: route resolution by path prefix,
//! hop-by-hop header removal, bearer-token extraction, identity-header
//! encoding, outbound URI composition and the mapping of failures to responses.

pub mod utils;
pub mod conf;
pub mod error;
pub mod routes;
pub mod uri;
pub mod headers;
pub mod jwt;
pub mod proxy;
