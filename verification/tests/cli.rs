use resocks5::cli::run_user_command::{
    add_init_user, add_user, build_added_user, confirm, list_users, read_new_password, remove_user,
    set_direct, set_enabled, set_password, validate_name, validate_password, CommandStep,
};
use resocks5::cli::user_op::{apply_op, find_user, user_position, UserError, UserOp};
use resocks5::cli::{run_user_command, UserAction};
use resocks5::config::users::{User, UsersConfig};

fn fresh() -> UsersConfig {
    UsersConfig { users: vec![] }
}

fn user_with_hash(name: &str, hash: &str) -> User {
    User {
        name: name.to_string(),
        hash: hash.to_string(),
        is_enabled: true,
        direct: false,
    }
}

fn message<T>(r: Result<T, UserError>) -> String {
    match r {
        Ok(_) => panic!("expected an error"),
        Err(e) => e.message(),
    }
}

fn op<T>(r: Result<T, UserError>) -> T {
    match r {
        Ok(op) => op,
        Err(e) => panic!("{}", e.message()),
    }
}

#[test]
fn add_init_creates_user_with_sentinel_hash() {
    let u = fresh();
    let UserOp::AddInit(added) = op(add_init_user(&u, "alice")) else {
        panic!("expected AddInit op");
    };
    assert_eq!(added.name, "alice");
    assert_eq!(added.hash, "init");
    assert!(added.is_enabled);
}

#[test]
fn add_init_rejects_duplicate_name() {
    let u = UsersConfig {
        users: vec![user_with_hash("alice", "init")],
    };
    let err = message(add_init_user(&u, "alice"));
    assert!(err.contains("already exists"));
}

#[test]
fn apply_add_init_rejects_duplicate_at_commit_time() {
    let mut u = fresh();
    let change = op(add_init_user(&fresh(), "alice"));
    apply_op(&change, &mut u).unwrap();
    assert_eq!(u.users.len(), 1);
    let err = message(apply_op(&change, &mut u));
    assert!(err.contains("already exists"));
    assert_eq!(u.users.len(), 1, "failed apply must not half-add");
}

#[test]
fn add_init_rejects_existing_user_regardless_of_hash() {
    let u = UsersConfig {
        users: vec![User {
            name: "bob".into(),
            hash: "$argon2id$v=19$m=5120,t=2,p=1$abc$def".into(),
            is_enabled: true,
            direct: false,
        }],
    };
    let err = message(add_init_user(&u, "bob"));
    assert!(err.contains("already exists"));
}

#[test]
fn add_init_validates_name() {
    let u = fresh();
    let err = message(add_init_user(&u, ""));
    assert!(err.contains("empty"));

    let err = message(add_init_user(&u, "has:colon"));
    assert!(err.contains("':'"));

    let long: String = "x".repeat(256);
    let err = message(add_init_user(&u, &long));
    assert!(err.contains("too long"));
}

#[test]
fn validate_password_enforces_socks5_length_bounds() {
    let err = message(validate_password(&"a".repeat(256)));
    assert!(err.contains("too long"));

    // Two bytes per character: the limit is in bytes.
    assert_eq!("é".repeat(128).len(), 256);
    let err = message(validate_password(&"é".repeat(128)));
    assert!(err.contains("too long"));

    assert!(validate_password("x").is_ok());
    assert!(validate_password(&"a".repeat(255)).is_ok());
    let mixed_255 = format!("{}x", "é".repeat(127));
    assert_eq!(mixed_255.len(), 255);
    assert!(validate_password(&mixed_255).is_ok());

    let err = message(validate_password(""));
    assert!(err.contains("empty"));
}

#[test]
fn add_init_independent_of_existing_real_users() {
    let u = UsersConfig {
        users: vec![User {
            name: "alice".into(),
            hash: "$argon2id$v=19$m=5120,t=2,p=1$abc$def".into(),
            is_enabled: true,
            direct: false,
        }],
    };
    let change = op(add_init_user(&u, "bob"));
    let mut after = u.clone();
    apply_op(&change, &mut after).unwrap();
    assert_eq!(after.users.len(), 2);
    assert_eq!(after.users[0].name, "alice");
    assert_eq!(after.users[1].name, "bob");
    assert_eq!(after.users[1].hash, "init");
    assert!(after.users[0].hash.starts_with("$argon2id$"));
}

#[test]
fn direct_command_flips_flag_in_users_config() {
    let mut u = UsersConfig {
        users: vec![User {
            name: "alice".into(),
            hash: "init".into(),
            is_enabled: true,
            direct: false,
        }],
    };
    let change = op(set_direct(&u, "alice", true));
    apply_op(&change, &mut u).unwrap();
    assert!(u.users[0].direct);
}

#[test]
fn pool_command_flips_flag_back_to_false() {
    let mut u = UsersConfig {
        users: vec![User {
            name: "alice".into(),
            hash: "init".into(),
            is_enabled: true,
            direct: true,
        }],
    };
    let change = op(set_direct(&u, "alice", false));
    apply_op(&change, &mut u).unwrap();
    assert!(!u.users[0].direct);
}

#[test]
fn direct_command_unknown_user_errors_without_mutating() {
    let mut u = fresh();
    let change = op(add_init_user(&fresh(), "alice"));
    apply_op(&change, &mut u).unwrap();

    let err = message(set_direct(&u, "nobody", true));
    assert!(err.contains("not found"));

    let change = UserOp::SetDirect {
        name: "nobody".into(),
        direct: true,
    };
    assert!(apply_op(&change, &mut u).is_err());
    assert!(!u.users[0].direct);
}

#[test]
fn set_enabled_op_flips_flag_at_apply_time() {
    let mut u = UsersConfig {
        users: vec![User {
            name: "alice".into(),
            hash: "init".into(),
            is_enabled: false,
            direct: false,
        }],
    };
    let change = op(set_enabled(&u, "alice", true));
    apply_op(&change, &mut u).unwrap();
    assert!(u.users[0].is_enabled);
}

#[test]
fn set_password_op_updates_hash_at_apply_time() {
    let mut u = UsersConfig {
        users: vec![User {
            name: "alice".into(),
            hash: "old".into(),
            is_enabled: true,
            direct: false,
        }],
    };
    let change = UserOp::SetPassword {
        name: "alice".into(),
        hash: "new".into(),
    };
    apply_op(&change, &mut u).unwrap();
    assert_eq!(u.users[0].hash, "new");
}

#[test]
fn remove_op_removes_only_named_user() {
    let mut u = UsersConfig {
        users: vec![user_with_hash("alice", "h1"), user_with_hash("bob", "h2")],
    };
    let change = UserOp::Remove {
        name: "alice".into(),
    };
    apply_op(&change, &mut u).unwrap();
    assert_eq!(u.users.len(), 1);
    assert_eq!(u.users[0].name, "bob");
}

#[test]
fn remove_op_built_for_existing_user() {
    let u = UsersConfig {
        users: vec![user_with_hash("alice", "h1")],
    };
    let change = op(remove_user(&u, "alice", true, None)).unwrap();
    let UserOp::Remove { name } = change else {
        panic!("expected Remove op");
    };
    assert_eq!(name, "alice");

    assert!(remove_user(&u, "nobody", true, None).is_err());
}

#[test]
fn add_init_user_defaults_to_pool_mode() {
    let u = fresh();
    let UserOp::AddInit(added) = op(add_init_user(&u, "carol")) else {
        panic!("expected AddInit op");
    };
    assert!(!added.direct);
}

#[test]
fn build_added_user_defaults_to_pool_mode() {
    let user = build_added_user("dave", "somehash".into());
    assert!(!user.direct);
    assert!(user.is_enabled);
    assert_eq!(user.name, "dave");
}

#[test]
fn removal_asks_only_on_a_terminal_and_without_yes() {
    let u = UsersConfig {
        users: vec![user_with_hash("alice", "h1")],
    };
    for answer in ["y\n", "Y", " yes ", "Yes\r\n"] {
        assert!(confirm(answer));
        assert!(op(remove_user(&u, "alice", false, Some(answer))).is_some());
    }
    for answer in ["", "n\n", "YES", "yess", "y es"] {
        assert!(!confirm(answer));
        assert!(op(remove_user(&u, "alice", false, Some(answer))).is_none());
        assert!(op(remove_user(&u, "alice", true, Some(answer))).is_some());
    }
    assert!(op(remove_user(&u, "alice", false, None)).is_some());

    let remove = |yes| UserAction::Remove { name: "alice".into(), yes };
    match op(run_user_command(remove(false), &u, true)) {
        CommandStep::AskRemoval { name, question } => {
            assert_eq!(name, "alice");
            assert_eq!(question, "Remove user 'alice'?");
        }
        _ => panic!("expected a question"),
    }
    assert!(matches!(op(run_user_command(remove(true), &u, true)), CommandStep::Commit(_)));
    assert!(matches!(op(run_user_command(remove(false), &u, false)), CommandStep::Commit(_)));
}

#[test]
fn every_action_leads_to_its_step() {
    let mut u = UsersConfig {
        users: vec![user_with_hash("alice", "h1"), user_with_hash("bob", "h2")],
    };
    let step = op(run_user_command(UserAction::Add { name: "carol".into() }, &u, true));
    assert!(matches!(step, CommandStep::AskPasswordForNew(name) if name == "carol"));
    let step = op(run_user_command(UserAction::SetPassword { name: "bob".into() }, &u, true));
    assert!(matches!(step, CommandStep::AskPasswordForExisting(name) if name == "bob"));
    assert_eq!(
        message(run_user_command(UserAction::Add { name: "bob".into() }, &u, true)),
        "user 'bob' already exists"
    );
    assert_eq!(
        message(run_user_command(UserAction::SetPassword { name: "zed".into() }, &u, true)),
        "user 'zed' not found"
    );

    let actions = [
        (UserAction::AddInit { name: "dora".into() }, "AddInit(dora)"),
        (UserAction::Disable { name: "alice".into() }, "SetEnabled(alice, false)"),
        (UserAction::Enable { name: "alice".into() }, "SetEnabled(alice, true)"),
        (UserAction::Direct { name: "bob".into() }, "SetDirect(bob, true)"),
        (UserAction::Pool { name: "bob".into() }, "SetDirect(bob, false)"),
    ];
    for (action, text) in actions {
        match op(run_user_command(action, &u, true)) {
            CommandStep::Commit(change) => {
                assert_eq!(change.debug_text(), text);
                apply_op(&change, &mut u).unwrap();
            }
            _ => panic!("expected a change"),
        }
    }
    assert_eq!(u.users.len(), 3);
    assert!(u.users[0].is_enabled);
    assert!(!u.users[1].direct);
}

#[test]
fn list_shows_names_and_flags_but_no_hash() {
    assert_eq!(
        list_users(&fresh()),
        vec!["(no users configured — server runs without authentication)".to_string()]
    );
    let mut bob = user_with_hash("bob", "$argon2id$secret");
    bob.is_enabled = false;
    bob.direct = true;
    let long = "n".repeat(30);
    let u = UsersConfig {
        users: vec![user_with_hash("alice", "init"), bob, user_with_hash(&long, "x")],
    };
    let lines = list_users(&u);
    assert_eq!(lines.len(), 4);
    assert_eq!(lines[0], format!("{:<24} {:<10} {:<6}", "NAME", "STATUS", "MODE"));
    assert_eq!(lines[1], format!("{:<24} {:<10} {:<6}", "alice", "enabled", "pool"));
    assert_eq!(lines[2], format!("{:<24} {:<10} {:<6}", "bob", "disabled", "direct"));
    assert_eq!(lines[3], format!("{:<24} {:<10} {:<6}", long, "enabled", "pool"));
    for line in &lines {
        assert!(!line.contains("argon2"));
    }
    match op(run_user_command(UserAction::List, &u, false)) {
        CommandStep::Print(printed) => assert_eq!(printed, lines),
        _ => panic!("expected lines"),
    }
}

#[test]
fn reports_and_renderings_never_show_a_hash() {
    let cases = [
        (
            UserOp::Add(user_with_hash("ann", "HASH")),
            "Add(ann)",
            "Added user 'ann'.",
        ),
        (
            UserOp::AddInit(user_with_hash("ann", "HASH")),
            "AddInit(ann)",
            "Added user 'ann' with placeholder hash. The first client to authenticate as this user claims the password.",
        ),
        (
            UserOp::SetPassword { name: "ann".into(), hash: "HASH".into() },
            "SetPassword(ann)",
            "Updated password for user 'ann'.",
        ),
        (UserOp::Remove { name: "ann".into() }, "Remove(ann)", "Removed user 'ann'."),
        (
            UserOp::SetEnabled { name: "ann".into(), enabled: true },
            "SetEnabled(ann, true)",
            "User 'ann' is now enabled.",
        ),
        (
            UserOp::SetEnabled { name: "ann".into(), enabled: false },
            "SetEnabled(ann, false)",
            "User 'ann' is now disabled.",
        ),
        (
            UserOp::SetDirect { name: "ann".into(), direct: true },
            "SetDirect(ann, true)",
            "User 'ann' is now direct.",
        ),
        (
            UserOp::SetDirect { name: "ann".into(), direct: false },
            "SetDirect(ann, false)",
            "User 'ann' is now pool-routed.",
        ),
    ];
    for (change, rendering, report) in cases {
        assert_eq!(change.debug_text(), rendering);
        assert_eq!(change.report(), report);
        assert!(!change.debug_text().contains("HASH"));
    }
}

#[test]
fn new_password_is_checked_and_confirmed() {
    assert!(read_new_password("pw", None).is_ok());
    assert!(read_new_password("pw", Some("pw")).is_ok());
    assert_eq!(message(read_new_password("pw", Some("PW"))), "passwords did not match");
    assert_eq!(message(read_new_password("", Some("x"))), "empty password");
    assert_eq!(
        message(read_new_password(&"a".repeat(256), None)),
        "password too long (max 255 bytes per RFC 1929)"
    );
}

#[test]
fn error_texts() {
    assert_eq!(message(validate_name("")), "username is empty");
    assert_eq!(
        message(validate_name(&"é".repeat(128))),
        "username too long (max 255 bytes per RFC 1929)"
    );
    assert_eq!(
        message(validate_name("a:b")),
        "username contains ':' — would collide with the SOCKS5 user/pass parser"
    );
    assert!(validate_name(&"x".repeat(255)).is_ok());
    assert_eq!(message(user_position(&fresh(), "zed")), "user 'zed' not found");
}

#[test]
fn added_and_changed_passwords_are_hashed() {
    let mut u = fresh();
    let change = op(add_user(&u, "alice", "s3cret"));
    apply_op(&change, &mut u).unwrap();
    let first = find_user(&u, "alice").unwrap().hash.clone();
    assert!(first.starts_with("$argon2id$v=19$m=5120,t=2,p=1$"));
    assert!(!first.contains("s3cret"));
    assert_eq!(message(add_user(&u, "alice", "x")), "user 'alice' already exists");
    assert_eq!(message(add_user(&u, "bob", "")), "empty password");

    let change = op(set_password(&u, "alice", "other"));
    apply_op(&change, &mut u).unwrap();
    assert_ne!(find_user(&u, "alice").unwrap().hash, first);
    assert_eq!(message(set_password(&u, "zed", "x")), "user 'zed' not found");
}

#[test]
fn removal_undoes_addition() {
    let mut u = UsersConfig {
        users: vec![user_with_hash("alice", "h1")],
    };
    apply_op(&UserOp::Add(user_with_hash("bob", "h2")), &mut u).unwrap();
    assert_eq!(u.users.len(), 2);
    apply_op(&UserOp::Remove { name: "bob".into() }, &mut u).unwrap();
    assert_eq!(u.users.len(), 1);
    assert_eq!(u.users[0].name, "alice");
    assert_eq!(u.users[0].hash, "h1");
}

#[test]
fn change_is_applied_to_the_current_content() {
    // The change was made from an empty list, the file has an account by now.
    let mut disk = UsersConfig {
        users: vec![user_with_hash("alice", "hash-a")],
    };
    let change = op(add_init_user(&fresh(), "carol"));
    apply_op(&change, &mut disk).unwrap();
    assert_eq!(disk.users.len(), 2);
    assert_eq!(find_user(&disk, "alice").unwrap().hash, "hash-a");
    assert_eq!(find_user(&disk, "carol").unwrap().hash, "init");

    let taken = UserOp::Add(user_with_hash("alice", "hash-new"));
    assert!(message(apply_op(&taken, &mut disk)).contains("already exists"));
    assert_eq!(find_user(&disk, "alice").unwrap().hash, "hash-a");
}
