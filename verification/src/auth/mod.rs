//! Argon2id user authentication with an in-memory cache of verified logins.
//!
//! Hashes are PHC strings, `$argon2id$v=19$m=5120,t=2,p=1$<salt>$<hash>`, with
//! a random salt each. A verified login is remembered as
//! `HMAC-SHA256(server_secret, name || 0x00 || password)` under its user name,
//! so that the next connection of the same client costs no Argon2 run. Failed
//! attempts are never remembered.

pub mod claim;
pub mod hash;
pub mod laws;
pub mod state;
