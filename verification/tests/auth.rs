use resocks5::auth::claim::{claim_failure_notice, persist_claim, write_outcome, PersistPlan};
use resocks5::auth::hash::{
    argon2_verify, compute_cache_hmac, compute_hash, hash_with_salt, login_message, HASH_PREFIX,
};
use resocks5::auth::state::{
    claim_hash, claim_hash_with_salt, hashing_slots, AuthState, ClaimOutcome, ClaimPersist,
    ClaimStep, LoginStep, Lookup, Prepared, Slot, CLAIM_SLOTS, MAX_HASHING_SLOTS,
};
use resocks5::config::main_config::AuthConfig;
use resocks5::config::users::{User, UsersConfig, INIT_HASH};

fn make_user(name: &str, password: &str, enabled: bool) -> User {
    User {
        name: name.to_string(),
        hash: compute_hash(password).unwrap(),
        is_enabled: enabled,
        direct: false,
    }
}

fn make_init_user(name: &str, enabled: bool) -> User {
    User {
        name: name.to_string(),
        hash: INIT_HASH.to_string(),
        is_enabled: enabled,
        direct: false,
    }
}

fn build_state(users: Vec<User>, allow_anonymous: bool) -> AuthState {
    AuthState::build(
        &AuthConfig { allow_anonymous },
        &UsersConfig { users },
        "/__resocks5_test_never_written__".to_string(),
    )
    .unwrap()
}

/// A login of an account that is not claimed here.
fn login(state: &mut AuthState, name: &str, password: &str) -> bool {
    state.verify(name, password, ClaimPersist::Failed("no claim expected".to_string()))
}

fn is_remembered(state: &AuthState, name: &str, password: &str) -> bool {
    let tag = state.login_tag(name, password);
    state.cache_matches(name, &tag)
}

#[test]
fn state_correct_password_verifies() {
    let mut state = build_state(vec![make_user("alice", "s3cret", true)], false);
    assert!(login(&mut state, "alice", "s3cret"));
}

#[test]
fn state_wrong_password_rejects() {
    let mut state = build_state(vec![make_user("alice", "s3cret", true)], false);
    assert!(!login(&mut state, "alice", "wrong"));
}

#[test]
fn state_unknown_user_rejects() {
    let mut state = build_state(vec![make_user("alice", "s3cret", true)], false);
    assert!(!login(&mut state, "bob", "s3cret"));
}

#[test]
fn state_disabled_user_rejects_even_with_correct_password() {
    let mut state = build_state(vec![make_user("alice", "s3cret", false)], false);
    assert!(!login(&mut state, "alice", "s3cret"));
}

#[test]
fn state_shared_password_distinct_hashes() {
    let h1 = compute_hash("shared").unwrap();
    let h2 = compute_hash("shared").unwrap();
    assert_ne!(h1, h2);
}

#[test]
fn state_cache_hit_after_first_verify() {
    let mut state = build_state(vec![make_user("alice", "s3cret", true)], false);
    assert!(!is_remembered(&state, "alice", "s3cret"));
    assert!(login(&mut state, "alice", "s3cret"));
    assert!(is_remembered(&state, "alice", "s3cret"));
    assert!(login(&mut state, "alice", "s3cret"));
}

#[test]
fn state_malformed_stored_hash_rejects_safely() {
    let bad = User {
        name: "alice".into(),
        hash: "not-a-phc-string".into(),
        is_enabled: true,
        direct: false,
    };
    let mut state = build_state(vec![bad], false);
    assert!(!login(&mut state, "alice", "anything"));
}

#[test]
fn state_is_direct_true_for_enabled_direct_user() {
    let user = User {
        name: "direct_alice".to_string(),
        hash: compute_hash("pw").unwrap(),
        is_enabled: true,
        direct: true,
    };
    let state = build_state(vec![user], false);
    assert!(state.is_direct("direct_alice"));
}

#[test]
fn state_is_direct_false_for_pool_user() {
    let state = build_state(vec![make_user("alice", "pw", true)], false);
    assert!(!state.is_direct("alice"));
}

#[test]
fn state_is_direct_false_for_disabled_direct_user() {
    let user = User {
        name: "disabled_alice".to_string(),
        hash: compute_hash("pw").unwrap(),
        is_enabled: false,
        direct: true,
    };
    let state = build_state(vec![user], false);
    assert!(!state.is_direct("disabled_alice"));
}

#[test]
fn state_is_direct_false_for_unknown_user() {
    let state = build_state(vec![make_user("alice", "pw", true)], false);
    assert!(!state.is_direct("unknown"));
}

#[test]
fn tests_correct_password_verifies() {
    let mut state = build_state(vec![make_user("alice", "s3cret", true)], false);
    assert!(login(&mut state, "alice", "s3cret"));
}

#[test]
fn tests_wrong_password_rejects() {
    let mut state = build_state(vec![make_user("alice", "s3cret", true)], false);
    assert!(!login(&mut state, "alice", "wrong"));
}

#[test]
fn tests_unknown_user_rejects() {
    let mut state = build_state(vec![make_user("alice", "s3cret", true)], false);
    assert!(!login(&mut state, "bob", "s3cret"));
}

#[test]
fn tests_disabled_user_rejects_even_with_correct_password() {
    let mut state = build_state(vec![make_user("alice", "s3cret", false)], false);
    assert!(!login(&mut state, "alice", "s3cret"));
}

#[test]
fn tests_shared_password_distinct_hashes() {
    let h1 = compute_hash("shared").unwrap();
    let h2 = compute_hash("shared").unwrap();
    assert_ne!(h1, h2);
}

#[test]
fn tests_cache_hit_after_first_verify() {
    let mut state = build_state(vec![make_user("alice", "s3cret", true)], false);
    assert!(!is_remembered(&state, "alice", "s3cret"));
    assert!(login(&mut state, "alice", "s3cret"));
    assert!(is_remembered(&state, "alice", "s3cret"));
    assert!(login(&mut state, "alice", "s3cret"));
}

#[test]
fn tests_malformed_stored_hash_rejects_safely() {
    let bad = User {
        name: "alice".into(),
        hash: "not-a-phc-string".into(),
        is_enabled: true,
        direct: false,
    };
    let mut state = build_state(vec![bad], false);
    assert!(!login(&mut state, "alice", "anything"));
}

#[test]
fn tests_is_direct_true_for_enabled_direct_user() {
    let user = User {
        name: "direct_alice".to_string(),
        hash: compute_hash("pw").unwrap(),
        is_enabled: true,
        direct: true,
    };
    let state = build_state(vec![user], false);
    assert!(state.is_direct("direct_alice"));
}

#[test]
fn tests_is_direct_false_for_pool_user() {
    let state = build_state(vec![make_user("alice", "pw", true)], false);
    assert!(!state.is_direct("alice"));
}

#[test]
fn tests_is_direct_false_for_disabled_direct_user() {
    let user = User {
        name: "disabled_alice".to_string(),
        hash: compute_hash("pw").unwrap(),
        is_enabled: false,
        direct: true,
    };
    let state = build_state(vec![user], false);
    assert!(!state.is_direct("disabled_alice"));
}

#[test]
fn tests_is_direct_false_for_unknown_user() {
    let state = build_state(vec![make_user("alice", "pw", true)], false);
    assert!(!state.is_direct("unknown"));
}

#[test]
fn first_login_claims_the_password() {
    let mut state = build_state(vec![make_init_user("bob", true)], false);
    assert!(state.claimed_hash_if_any(0).is_none());
    assert!(state.verify("bob", "first-password", ClaimPersist::Written));
    let hash = state.claimed_hash_if_any(0).unwrap();
    assert!(hash.starts_with("$argon2id$"));
    assert!(argon2_verify(&hash, "first-password"));
    assert!(login(&mut state, "bob", "first-password"));
    assert!(!login(&mut state, "bob", "other"));
    assert_eq!(state.claimed_hash_if_any(0).unwrap(), hash);
}

#[test]
fn disabled_unclaimed_user_claims_nothing() {
    let mut state = build_state(vec![make_init_user("bob", false)], false);
    assert!(!state.verify("bob", "pw", ClaimPersist::Written));
    assert!(state.claimed_hash_if_any(0).is_none());
}

#[test]
fn failed_claim_keeps_the_sentinel() {
    let mut state = build_state(vec![make_init_user("bob", true)], false);
    assert!(!state.verify("bob", "pw", ClaimPersist::Failed("disk full".to_string())));
    assert!(state.claimed_hash_if_any(0).is_none());
    assert!(!is_remembered(&state, "bob", "pw"));
    assert!(state.verify("bob", "pw", ClaimPersist::Written));
}

#[test]
fn claim_leaves_other_users_alone() {
    let carol = make_user("carol", "carol-pw", true);
    let carol_hash = carol.hash.clone();
    let mut state = build_state(vec![make_init_user("bob", true), carol], false);
    assert!(state.verify("bob", "bob-pw", ClaimPersist::Written));
    assert_eq!(state.claimed_hash_if_any(1).unwrap(), carol_hash);
    assert!(login(&mut state, "carol", "carol-pw"));
}

#[test]
fn password_from_the_file_wins_over_a_claim() {
    let on_disk = compute_hash("cli-pw").unwrap();
    let mut state = build_state(vec![make_init_user("bob", true)], false);
    assert!(!state.verify("bob", "mine", ClaimPersist::DiskHashChanged(on_disk.clone())));
    assert_eq!(state.claimed_hash_if_any(0).unwrap(), on_disk);
    assert!(!is_remembered(&state, "bob", "mine"));
    assert!(login(&mut state, "bob", "cli-pw"));

    let mut state = build_state(vec![make_init_user("bob", true)], false);
    assert!(state.verify("bob", "cli-pw", ClaimPersist::DiskHashChanged(on_disk)));
    assert!(is_remembered(&state, "bob", "cli-pw"));
}

#[test]
fn empty_and_overlong_passwords_claim_nothing() {
    let mut state = build_state(vec![make_init_user("bob", true)], false);
    for password in [String::new(), "a".repeat(256), "é".repeat(128)] {
        assert!(!state.verify("bob", &password, ClaimPersist::Written));
        assert!(state.claimed_hash_if_any(0).is_none());
        assert!(claim_hash(&password).is_none());
        let tag = state.login_tag("bob", &password);
        assert!(matches!(state.prepare_claim("bob", &password, tag), Prepared::Done(false)));
    }
    for password in ["x".to_string(), "a".repeat(255), format!("{}x", "é".repeat(127))] {
        let mut state = build_state(vec![make_init_user("bob", true)], false);
        assert!(state.verify("bob", &password, ClaimPersist::Written));
        assert!(state.claimed_hash_if_any(0).unwrap().starts_with("$argon2id$"));
    }
}

#[test]
fn later_claim_never_resets_the_winner() {
    let mut state = build_state(vec![make_init_user("bob", true)], false);
    let prepare = |state: &mut AuthState, password: &str| {
        let tag = state.login_tag("bob", password);
        match state.verify_prepare("bob", password, tag) {
            Prepared::Claim(work) => work,
            Prepared::Done(_) => panic!("expected a claim"),
        }
    };
    let first = prepare(&mut state, "winner");
    let second = prepare(&mut state, "loser");
    assert_eq!(first.name(), "bob");
    assert!(argon2_verify(first.new_hash(), "winner"));

    assert!(matches!(state.claim_begin(&first, true), ClaimStep::Persist(None)));
    assert!(matches!(
        state.claim_commit(first, ClaimPersist::Written),
        ClaimOutcome::Done(true)
    ));
    let hash = state.claimed_hash_if_any(0).unwrap();
    assert!(matches!(
        state.claim_begin(&second, true),
        ClaimStep::VerifyAgainst(h) if h == hash
    ));
    match state.claim_commit(second, ClaimPersist::Failed("lock".to_string())) {
        ClaimOutcome::VerifyAgainst(h) => assert_eq!(h, hash),
        ClaimOutcome::Done(_) => panic!("expected a check"),
    }
    assert_eq!(state.claimed_hash_if_any(0).unwrap(), hash);
    let tag = state.login_tag("bob", "loser");
    assert!(!state.verify_against_committed("bob", &hash, "loser", tag));
    let tag = state.login_tag("bob", "winner");
    assert!(state.verify_against_committed("bob", &hash, "winner", tag));
}

#[test]
fn account_claimed_while_hashing_is_logged_in_to() {
    let mut state = build_state(vec![make_user("bob", "pw", true)], false);
    let tag = state.login_tag("bob", "pw");
    let hash = claim_hash("pw");
    assert!(matches!(
        state.prepare_claim_with("bob", "pw", tag, hash),
        Prepared::Done(true)
    ));
    let tag = state.login_tag("bob", "no");
    assert!(matches!(
        state.prepare_claim_with("bob", "no", tag, None),
        Prepared::Done(false)
    ));
    assert!(matches!(
        state.prepare_claim_with("zed", "no", tag, Some("h".to_string())),
        Prepared::Done(false)
    ));
}

#[test]
fn claim_without_a_file_writes_the_full_list() {
    let mut state = build_state(
        vec![make_user("alice", "a", true), make_init_user("bob", true)],
        false,
    );
    let tag = state.login_tag("bob", "pw");
    let Prepared::Claim(work) = state.verify_prepare("bob", "pw", tag) else {
        panic!("expected a claim");
    };
    let ClaimStep::Persist(Some(list)) = state.claim_begin(&work, false) else {
        panic!("expected a list to write");
    };
    assert_eq!(list.len(), 2);
    assert_eq!(list[0].name, "alice");
    assert_eq!(list[1].hash, work.new_hash());
    let name = work.name().to_string();
    let hash = work.new_hash().to_string();
    match persist_claim(None, "users", &name, &hash, Some(list)) {
        PersistPlan::Write(cfg) => assert_eq!(cfg.users.len(), 2),
        PersistPlan::Settled(_) => panic!("expected a write"),
    }
    match persist_claim(None, "users", &name, &hash, None) {
        PersistPlan::Settled(ClaimPersist::Failed(e)) => assert_eq!(
            e,
            "users file users disappeared before the claim could be persisted"
        ),
        _ => panic!("expected a failure"),
    }
}

#[test]
fn claim_is_merged_into_the_file() {
    let disk = UsersConfig {
        users: vec![make_user("added", "x", true), make_init_user("bob", false)],
    };
    let added_hash = disk.users[0].hash.clone();
    match persist_claim(Some(disk.clone()), "p", "bob", "$new", None) {
        PersistPlan::Write(cfg) => {
            assert_eq!(cfg.users.len(), 2);
            assert_eq!(cfg.users[0].hash, added_hash);
            assert_eq!(cfg.users[1].hash, "$new");
            assert!(!cfg.users[1].is_enabled);
        }
        PersistPlan::Settled(_) => panic!("expected a write"),
    }
    match persist_claim(Some(disk.clone()), "p", "added", "$new", None) {
        PersistPlan::Settled(ClaimPersist::DiskHashChanged(h)) => assert_eq!(h, added_hash),
        _ => panic!("expected the hash of the file"),
    }
    match persist_claim(Some(disk), "p", "gone", "$new", Some(vec![])) {
        PersistPlan::Settled(ClaimPersist::Failed(e)) => assert_eq!(
            e,
            "user 'gone' no longer exists in p — removed by a concurrent CLI edit, not re-adding it"
        ),
        _ => panic!("expected a failure"),
    }
    assert!(matches!(write_outcome(None), ClaimPersist::Written));
    assert!(matches!(
        write_outcome(Some("full".to_string())),
        ClaimPersist::Failed(e) if e == "full"
    ));
    assert_eq!(
        claim_failure_notice("p", "bob", "full"),
        "init-claim: failed to persist p after first-login of 'bob': full"
    );
}

#[test]
fn duplicate_names_count_once_and_the_first_one_logs_in() {
    let mut second = make_user("alice", "second", true);
    second.direct = true;
    let mut state = build_state(vec![make_user("alice", "first", true), second], true);
    assert_eq!(state.users_count(), 1);
    assert!(!state.is_empty());
    assert!(state.allow_anonymous);
    assert!(login(&mut state, "alice", "first"));
    assert!(!login(&mut state, "alice", "second"));
    assert!(!state.is_direct("alice"));
    assert_eq!(state.users_path(), "/__resocks5_test_never_written__");

    let empty = build_state(vec![], false);
    assert!(empty.is_empty());
    assert_eq!(empty.users_count(), 0);
}

#[test]
fn refused_logins_are_not_remembered() {
    let mut state = build_state(vec![make_user("alice", "pw", true)], false);
    assert!(!login(&mut state, "alice", "no"));
    assert!(!is_remembered(&state, "alice", "no"));
    let tag = state.login_tag("alice", "no");
    assert!(!state.record_check("alice", tag, false));
    assert!(!is_remembered(&state, "alice", "no"));
}

#[test]
fn lookup_before_hashing() {
    let mut state = build_state(
        vec![
            make_user("alice", "pw", true),
            make_user("off", "pw", false),
            make_init_user("bob", true),
        ],
        false,
    );
    let tag = state.login_tag("alice", "pw");
    assert!(matches!(state.lookup("alice", &tag), Lookup::Committed(_)));
    assert!(matches!(state.lookup("off", &tag), Lookup::Rejected));
    assert!(matches!(state.lookup("zed", &tag), Lookup::Rejected));
    assert!(matches!(state.lookup("bob", &tag), Lookup::Unclaimed));
    assert!(login(&mut state, "alice", "pw"));
    assert!(matches!(state.lookup("alice", &tag), Lookup::Remembered));

    assert!(matches!(state.login_start("alice", &tag), LoginStep::Answer(true)));
    assert!(matches!(state.login_start("zed", &tag), LoginStep::Answer(false)));
    assert!(matches!(state.login_start("bob", &tag), LoginStep::Prepare));
}

#[test]
fn phases_run_under_their_own_slots() {
    assert_eq!(LoginStep::Answer(true).slot(), Slot::Unlimited);
    assert_eq!(LoginStep::Prepare.slot(), Slot::Hashing);
    assert_eq!(LoginStep::Check("h".to_string()).slot(), Slot::Hashing);
    let mut state = build_state(vec![make_init_user("bob", true)], false);
    let tag = state.login_tag("bob", "pw");
    let step = LoginStep::after_prepare(Some(state.verify_prepare("bob", "pw", tag)));
    assert!(matches!(step, LoginStep::Commit(_)));
    assert_eq!(step.slot(), Slot::Claim);
    assert!(matches!(LoginStep::after_prepare(None), LoginStep::Answer(false)));
    assert!(matches!(
        LoginStep::after_prepare(Some(Prepared::Done(true))),
        LoginStep::Answer(true)
    ));
    assert!(matches!(LoginStep::after_commit(None), LoginStep::Answer(false)));
    assert!(matches!(
        LoginStep::after_commit(Some(ClaimOutcome::Done(true))),
        LoginStep::Answer(true)
    ));
    assert!(matches!(
        LoginStep::after_commit(Some(ClaimOutcome::VerifyAgainst("h".to_string()))),
        LoginStep::Check(h) if h == "h"
    ));
}

#[test]
fn hash_is_that_of_argon2id() {
    // Same password and salt give the same string, another salt another one.
    let a = hash_with_salt("pw", &[7; 16]).unwrap();
    assert_eq!(a, hash_with_salt("pw", &[7; 16]).unwrap());
    assert_ne!(a, hash_with_salt("pw", &[8; 16]).unwrap());
    assert_ne!(a, hash_with_salt("pv", &[7; 16]).unwrap());
    assert!(a.starts_with("$argon2id$v=19$m=5120,t=2,p=1$BwcHBwcHBwcHBwcHBwcHBw$"));
    assert!(argon2_verify(&a, "pw"));
    assert!(!argon2_verify(&a, "pW"));
}

#[test]
fn hopeless_hashes_accept_nothing() {
    for hash in [
        "",
        "init",
        "$",
        "$argon2id$v=19$m=5120,t=2,p=999999999$BwcHBwcHBwcHBwcHBwcHBw$AAAAAAAAAAAAAAAAAAAAAA",
        "$argon2id$v=19$m=5120,t=2,p=4294967295$BwcHBwcHBwcHBwcHBwcHBw$AAAAAAAAAAAAAAAAAAAAAA",
        "$argon2id$v=19$m=5120,t=2,p=99999999$BwcHBwcHBwcHBwcHBwcHBw$AAAAAAAAAAAAAAAAAAAAAA",
    ] {
        assert!(!argon2_verify(hash, ""));
        assert!(!argon2_verify(hash, "x"));
    }
}

#[test]
fn cache_tag_is_hmac_sha256() {
    assert_eq!(login_message("ab", "cd"), b"ab\0cd".to_vec());
    assert_ne!(login_message("ab", "cd"), login_message("a", "bcd"));
    // HMAC-SHA256 of "ab\0cd" under 32 bytes of 0x0b.
    let tag = compute_cache_hmac(&[0x0b; 32], "ab", "cd");
    assert_ne!(tag, compute_cache_hmac(&[0x0b; 32], "a", "bcd"));
    assert_ne!(tag, compute_cache_hmac(&[0x0c; 32], "ab", "cd"));
    assert_eq!(tag, compute_cache_hmac(&[0x0b; 32], "ab", "cd"));
    assert_ne!(tag, [0x0b; 32]);
    assert_eq!(tag, EXPECTED_TAG);
}

const EXPECTED_TAG: [u8; 32] = [
    0xd7, 0xec, 0x19, 0x35, 0xcd, 0xe1, 0xf4, 0x4c, 0xc0, 0xbb, 0x62, 0xd1,
    0x19, 0x08, 0x13, 0x11, 0xa9, 0xd2, 0xa8, 0x9d, 0x78, 0x27, 0x99, 0x76,
    0x12, 0x01, 0x52, 0x6a, 0x87, 0x96, 0xd9, 0x1a,
];

#[test]
fn salted_claim_hash_is_the_password_hash() {
    let salt = [9u8; 16];
    let hash = claim_hash_with_salt("pw", &salt);
    assert_eq!(hash, hash_with_salt("pw", &salt).ok());
    assert_ne!(hash, claim_hash_with_salt("pw", &[8u8; 16]));
    assert_eq!(claim_hash_with_salt("", &salt), None);
    assert_eq!(claim_hash_with_salt(&"x".repeat(256), &salt), None);
    assert!(claim_hash_with_salt(&"x".repeat(255), &salt).is_some());
}

#[test]
fn claim_is_prepared_with_the_hash_made_for_it() {
    let mut state = build_state(vec![make_init_user("bob", true)], false);
    let tag = state.login_tag("bob", "pw");
    let hash = claim_hash_with_salt("pw", &[9u8; 16]);
    let expected = hash.clone().unwrap();
    match state.prepare_claim_with("bob", "pw", tag, hash) {
        Prepared::Claim(work) => {
            assert_eq!(work.name(), "bob");
            assert_eq!(work.new_hash(), expected);
        }
        Prepared::Done(_) => panic!("the account waits for its first login"),
    }
    assert_eq!(state.claimed_hash_if_any(0), None);
}

#[test]
fn first_login_under_a_salt_stores_the_hash_under_that_salt() {
    let salt = [5u8; 16];
    let mut state = build_state(vec![make_init_user("bob", true)], false);
    assert!(state.verify_with_salt("bob", "chosen", &salt, ClaimPersist::Written));
    let hash = state.claimed_hash_if_any(0).unwrap();
    assert_eq!(hash, hash_with_salt("chosen", &salt).unwrap());
    assert!(hash.starts_with(HASH_PREFIX));
    assert!(is_remembered(&state, "bob", "chosen"));

    // From here on the salt does not matter.
    assert!(state.verify_with_salt("bob", "chosen", &[6u8; 16], ClaimPersist::Written));
    assert!(!state.verify_with_salt("bob", "other", &salt, ClaimPersist::Written));
    assert_eq!(state.claimed_hash_if_any(0), Some(hash));

    let mut state = build_state(vec![make_init_user("bob", true)], false);
    assert!(!state.verify_with_salt("bob", "", &salt, ClaimPersist::Written));
    let adopted = compute_hash("chosen").unwrap();
    assert!(state.verify_with_salt(
        "bob",
        "chosen",
        &salt,
        ClaimPersist::DiskHashChanged(adopted.clone())
    ));
    assert_eq!(state.claimed_hash_if_any(0), Some(adopted));
}

#[test]
fn phases_give_the_answer_of_one_login() {
    let mut state = build_state(vec![make_init_user("bob", true)], false);
    let tag = state.login_tag("bob", "pw");
    assert!(matches!(state.login_start("bob", &tag), LoginStep::Prepare));
    let prepared = state.verify_prepare("bob", "pw", tag);
    let work = match LoginStep::after_prepare(Some(prepared)) {
        LoginStep::Commit(work) => work,
        _ => panic!("a claim has to be committed"),
    };
    let outcome = state.claim_commit(work, ClaimPersist::Written);
    assert!(matches!(LoginStep::after_commit(Some(outcome)), LoginStep::Answer(true)));
    assert!(matches!(state.login_start("bob", &tag), LoginStep::Answer(true)));
    assert!(login(&mut state, "bob", "pw"));
}

#[test]
fn salted_phases_give_the_state_of_one_login() {
    let salt = [5u8; 16];
    let users = vec![make_init_user("bob", true)];
    let mut whole = build_state(users.clone(), false);
    let mut phased = build_state(users, false);
    assert!(whole.verify_with_salt("bob", "pw", &salt, ClaimPersist::Written));

    let tag = phased.login_tag("bob", "pw");
    let prepared = phased.verify_prepare_with_salt("bob", "pw", tag, &salt);
    let work = match LoginStep::after_prepare(Some(prepared)) {
        LoginStep::Commit(work) => work,
        _ => panic!("a claim has to be committed"),
    };
    let outcome = phased.claim_commit(work, ClaimPersist::Written);
    assert!(matches!(outcome, ClaimOutcome::Done(true)));
    assert_eq!(phased.claimed_hash_if_any(0), whole.claimed_hash_if_any(0));
    assert!(is_remembered(&phased, "bob", "pw"));
    assert!(is_remembered(&whole, "bob", "pw"));
}

#[test]
fn hashing_slots_follow_the_machine() {
    assert_eq!(hashing_slots(None), 1);
    assert_eq!(hashing_slots(Some(1)), 1);
    assert_eq!(hashing_slots(Some(3)), 3);
    assert_eq!(hashing_slots(Some(4)), 4);
    assert_eq!(hashing_slots(Some(64)), 4);
    assert_eq!((MAX_HASHING_SLOTS, CLAIM_SLOTS), (4, 2));
}

#[test]
fn written_claim_has_one_hash_on_disk_and_in_memory() {
    let mut state = build_state(vec![make_init_user("bob", true)], false);
    let tag = state.login_tag("bob", "pw");
    let Prepared::Claim(work) = state.verify_prepare_with_salt("bob", "pw", tag, &[5u8; 16]) else {
        panic!("the account waits for its first login");
    };
    let disk = UsersConfig {
        users: vec![make_user("alice", "x", true), make_init_user("bob", true)],
    };
    let plan = persist_claim(Some(disk), "users.ktav", work.name(), work.new_hash(), None);
    let PersistPlan::Write(written) = plan else {
        panic!("the claim has to be written");
    };
    assert!(matches!(state.claim_finish(work, write_outcome(None)), ClaimOutcome::Done(true)));
    assert_eq!(state.claimed_hash_if_any(0).as_deref(), Some(written.users[1].hash.as_str()));
}
