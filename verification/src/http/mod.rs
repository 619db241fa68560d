//! The HTTP CONNECT side of the proxy.
//!
//! Only `CONNECT` is implemented: a client that sends another method gets
//! `501 Not Implemented`, a malformed request gets `400 Bad Request`, failed
//! or missing credentials get `407 Proxy Authentication Required`. Upstream
//! failures are answered `502 Bad Gateway`, banned targets `403 Forbidden`.

pub mod accept;
pub mod byte_lines;
pub mod connect;
pub mod header;
pub mod laws;
pub mod response;
pub mod session;
pub mod session_laws;
