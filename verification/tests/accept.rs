use base64::engine::general_purpose;
use base64::Engine as _;

use resocks5::auth::hash::hash_with_salt;
use resocks5::auth::state::{AuthState, ClaimPersist};
use resocks5::config::main_config::AuthConfig;
use resocks5::config::users::{User, UsersConfig, INIT_HASH};
use resocks5::http::accept::accept_connect;
use resocks5::http::connect::{ConnectError, ConnectRequest};

fn user(name: &str, hash: String) -> User {
    User {
        name: name.to_string(),
        hash,
        is_enabled: true,
        direct: false,
    }
}

fn state(users: Vec<User>, allow_anonymous: bool) -> AuthState {
    AuthState::with_secret(
        &AuthConfig { allow_anonymous },
        &UsersConfig { users },
        "users.ktav".to_string(),
        [7u8; 32],
    )
}

fn head(credentials: Option<&str>) -> Vec<u8> {
    let mut head = b"CONNECT example.com:443 HTTP/1.1\r\nHost: example.com".to_vec();
    if let Some(c) = credentials {
        head.extend_from_slice(b"\r\nProxy-Authorization: Basic ");
        head.extend_from_slice(general_purpose::STANDARD.encode(c).as_bytes());
    }
    head
}

fn accept(
    auth: &mut AuthState,
    credentials: Option<&str>,
    persist: ClaimPersist,
) -> Result<ConnectRequest, ConnectError> {
    accept_connect(auth, &head(credentials), true, vec![22, 3, 1], persist)
}

fn not_written() -> ClaimPersist {
    ClaimPersist::Failed("read-only file system".to_string())
}

#[test]
fn known_user_is_accepted_under_the_name() {
    let hash = hash_with_salt("s3cret", &[1u8; 16]).unwrap();
    let mut auth = state(vec![user("alice", hash)], false);

    let request = accept(&mut auth, Some("alice:s3cret"), not_written()).unwrap();
    assert_eq!(request.target, "example.com:443");
    assert_eq!(request.client_user.as_deref(), Some("alice"));
    assert_eq!(request.pipelined, vec![22, 3, 1]);
    let tag = auth.login_tag("alice", "s3cret");
    assert!(auth.cache_matches("alice", &tag));

    assert!(accept(&mut auth, Some("alice:s3cret"), not_written()).is_ok());
}

#[test]
fn wrong_password_is_refused_though_anonymous_clients_are_not() {
    let hash = hash_with_salt("s3cret", &[1u8; 16]).unwrap();
    let mut auth = state(vec![user("alice", hash)], true);

    let e = accept(&mut auth, Some("alice:guess"), not_written()).err().unwrap();
    assert!(matches!(&e, ConnectError::AuthFailed(name) if name == "alice"));
    assert_eq!(e.message(), "HTTP auth failed for user \"alice\"");
    assert!(e.response().unwrap().text().starts_with("HTTP/1.1 407 "));
    let tag = auth.login_tag("alice", "guess");
    assert!(!auth.cache_matches("alice", &tag));

    let request = accept(&mut auth, None, not_written()).unwrap();
    assert_eq!(request.client_user, None);
}

#[test]
fn first_login_over_http_claims_the_account() {
    let mut auth = state(vec![user("alice", INIT_HASH.to_string())], false);

    assert!(accept(&mut auth, Some("alice:chosen"), not_written()).is_err());
    assert_eq!(auth.claimed_hash_if_any(0), None);

    let request = accept(&mut auth, Some("alice:chosen"), ClaimPersist::Written).unwrap();
    assert_eq!(request.client_user.as_deref(), Some("alice"));
    assert!(auth.claimed_hash_if_any(0).is_some());

    assert!(accept(&mut auth, Some("alice:other"), ClaimPersist::Written).is_err());
    assert!(accept(&mut auth, Some("alice:chosen"), not_written()).is_ok());
}

#[test]
fn server_without_users_takes_anonymous_clients_only() {
    let mut open = state(vec![], true);
    assert!(accept(&mut open, None, not_written()).is_ok());
    let e = accept(&mut open, Some("alice:s3cret"), not_written()).err().unwrap();
    assert!(matches!(e, ConnectError::NoUsersConfigured));

    let mut shut = state(vec![], false);
    let e = accept(&mut shut, None, not_written()).err().unwrap();
    assert!(matches!(e, ConnectError::AnonymousNotAllowed));
    assert!(!shut.allows_anonymous());
}

#[test]
fn bad_authority_is_refused_before_the_credentials_are_looked_at() {
    let mut auth = state(vec![user("alice", INIT_HASH.to_string())], false);
    let e = accept_connect(
        &mut auth,
        &head(Some("alice:chosen")),
        false,
        vec![],
        ClaimPersist::Written,
    )
    .err()
    .unwrap();
    assert!(matches!(&e, ConnectError::TargetNotAuthority(t) if t == "example.com:443"));
    assert!(e.response().unwrap().text().starts_with("HTTP/1.1 400 "));
    assert_eq!(auth.claimed_hash_if_any(0), None);
}
