//! A SOCKS5 / HTTP CONNECT proxy core: configuration, user accounts, the
//! authentication state, the HTTP handshake and the log policy.
//!
//! Everything here works on plain values. Sockets, files, prompts and the
//! async runtime stay outside the library and talk to it through the step
//! functions of each module.

pub mod auth;
pub mod cli;
pub mod config;
pub mod http;
pub mod logger;
pub mod text;
