//! One change to the users file.

use vstd::prelude::*;

use crate::auth::hash::AuthError;
use crate::config::users::{
    lemma_position_from, lemma_position_is, position, position_of, set_hash, stands_first, User,
    UserView, UsersConfig,
};
use crate::text::join;

verus! {

/// Why a command on the users was refused.
#[derive(Debug)]
pub enum UserError {
    AlreadyExists(String),
    NotFound(String),
    NameEmpty,
    NameTooLong,
    NameHasColon,
    PasswordEmpty,
    PasswordTooLong,
    PasswordMismatch,
    Hash(AuthError),
}

/// [`UserError`] over views.
pub enum UserErrorView {
    AlreadyExists(Seq<char>),
    NotFound(Seq<char>),
    NameEmpty,
    NameTooLong,
    NameHasColon,
    PasswordEmpty,
    PasswordTooLong,
    PasswordMismatch,
    Hash(Seq<char>),
}

impl View for UserError {
    type V = UserErrorView;

    open spec fn view(&self) -> UserErrorView {
        match self {
            UserError::AlreadyExists(name) => UserErrorView::AlreadyExists(name@),
            UserError::NotFound(name) => UserErrorView::NotFound(name@),
            UserError::NameEmpty => UserErrorView::NameEmpty,
            UserError::NameTooLong => UserErrorView::NameTooLong,
            UserError::NameHasColon => UserErrorView::NameHasColon,
            UserError::PasswordEmpty => UserErrorView::PasswordEmpty,
            UserError::PasswordTooLong => UserErrorView::PasswordTooLong,
            UserError::PasswordMismatch => UserErrorView::PasswordMismatch,
            UserError::Hash(e) => UserErrorView::Hash(e.text()),
        }
    }
}

/// The text of an error.
pub open spec fn user_error_text(e: UserErrorView) -> Seq<char> {
    match e {
        UserErrorView::AlreadyExists(name) => "user '"@ + name + "' already exists"@,
        UserErrorView::NotFound(name) => "user '"@ + name + "' not found"@,
        UserErrorView::NameEmpty => "username is empty"@,
        UserErrorView::NameTooLong => "username too long (max 255 bytes per RFC 1929)"@,
        UserErrorView::NameHasColon => "username contains ':' — would collide with the SOCKS5 user/pass parser"@,
        UserErrorView::PasswordEmpty => "empty password"@,
        UserErrorView::PasswordTooLong => "password too long (max 255 bytes per RFC 1929)"@,
        UserErrorView::PasswordMismatch => "passwords did not match"@,
        UserErrorView::Hash(text) => text,
    }
}

impl UserError {
    /// The text that describes the error.
    pub fn message(&self) -> (r: String)
        ensures
            r@ == user_error_text(self@),
    {
        match self {
            UserError::AlreadyExists(name) => join(&join("user '", name), "' already exists"),
            UserError::NotFound(name) => join(&join("user '", name), "' not found"),
            UserError::NameEmpty => "username is empty".to_owned(),
            UserError::NameTooLong => "username too long (max 255 bytes per RFC 1929)".to_owned(),
            UserError::NameHasColon => "username contains ':' — would collide with the SOCKS5 user/pass parser".to_owned(),
            UserError::PasswordEmpty => "empty password".to_owned(),
            UserError::PasswordTooLong => "password too long (max 255 bytes per RFC 1929)".to_owned(),
            UserError::PasswordMismatch => "passwords did not match".to_owned(),
            UserError::Hash(e) => e.message(),
        }
    }
}

/// One change to the users file. It is made from the state loaded at startup
/// and applied to what the file holds at commit time. There is no `Debug`
/// here, so that no hash is ever rendered: see [`UserOp::debug_text`].
pub enum UserOp {
    /// Add a user with a password.
    Add(User),
    /// Add a user whose password is set by the first login.
    AddInit(User),
    SetPassword { name: String, hash: String },
    Remove { name: String },
    SetEnabled { name: String, enabled: bool },
    SetDirect { name: String, direct: bool },
}

/// [`UserOp`] over views.
pub enum UserOpView {
    Add(UserView),
    AddInit(UserView),
    SetPassword { name: Seq<char>, hash: Seq<char> },
    Remove { name: Seq<char> },
    SetEnabled { name: Seq<char>, enabled: bool },
    SetDirect { name: Seq<char>, direct: bool },
}

impl View for UserOp {
    type V = UserOpView;

    open spec fn view(&self) -> UserOpView {
        match self {
            UserOp::Add(user) => UserOpView::Add(user@),
            UserOp::AddInit(user) => UserOpView::AddInit(user@),
            UserOp::SetPassword { name, hash } => UserOpView::SetPassword {
                name: name@,
                hash: hash@,
            },
            UserOp::Remove { name } => UserOpView::Remove { name: name@ },
            UserOp::SetEnabled { name, enabled } => UserOpView::SetEnabled {
                name: name@,
                enabled: *enabled,
            },
            UserOp::SetDirect { name, direct } => UserOpView::SetDirect {
                name: name@,
                direct: *direct,
            },
        }
    }
}

/// The account that a change is about.
pub open spec fn op_name(op: UserOpView) -> Seq<char> {
    match op {
        UserOpView::Add(user) => user.name,
        UserOpView::AddInit(user) => user.name,
        UserOpView::SetPassword { name, hash } => name,
        UserOpView::Remove { name } => name,
        UserOpView::SetEnabled { name, enabled } => name,
        UserOpView::SetDirect { name, direct } => name,
    }
}

/// The list after a change, or why the change is refused.
pub open spec fn applied(op: UserOpView, users: Seq<UserView>) -> Result<
    Seq<UserView>,
    UserErrorView,
> {
    let name = op_name(op);
    match op {
        UserOpView::Add(user) => if position_of(users, name) is Some {
            Err(UserErrorView::AlreadyExists(name))
        } else {
            Ok(users.push(user))
        },
        UserOpView::AddInit(user) => if position_of(users, name) is Some {
            Err(UserErrorView::AlreadyExists(name))
        } else {
            Ok(users.push(user))
        },
        _ => match position_of(users, name) {
            None => Err(UserErrorView::NotFound(name)),
            Some(i) => Ok(
                match op {
                    UserOpView::SetPassword { name, hash } => users.update(
                        i,
                        UserView { hash, ..users[i] },
                    ),
                    UserOpView::SetEnabled { name, enabled } => users.update(
                        i,
                        UserView { is_enabled: enabled, ..users[i] },
                    ),
                    UserOpView::SetDirect { name, direct } => users.update(
                        i,
                        UserView { direct, ..users[i] },
                    ),
                    _ => users.remove(i),
                },
            ),
        },
    }
}

/// The position of an account, or that it is not found.
pub fn user_position(users: &UsersConfig, name: &str) -> (r: Result<usize, UserError>)
    ensures
        match r {
            Ok(i) => position_of(users@, name@) == Some(i as int) && i < users.users@.len(),
            Err(e) => position_of(users@, name@) is None && e@ == UserErrorView::NotFound(name@),
        },
{
    match position(&users.users, name) {
        Some(i) => Ok(i),
        None => Err(UserError::NotFound(name.to_owned())),
    }
}

/// An account, or that it is not found.
pub fn find_user<'a>(users: &'a UsersConfig, name: &str) -> (r: Result<&'a User, UserError>)
    ensures
        match r {
            Ok(u) => position_of(users@, name@) matches Some(i) && u@ == users@[i],
            Err(e) => position_of(users@, name@) is None && e@ == UserErrorView::NotFound(name@),
        },
{
    match user_position(users, name) {
        Ok(i) => Ok(&users.users[i]),
        Err(e) => Err(e),
    }
}

/// Applies one change to a list of users, checked against that list. A change
/// that is refused leaves the list as it was.
pub fn apply_op(op: &UserOp, users: &mut UsersConfig) -> (r: Result<(), UserError>)
    ensures
        match applied(op@, old(users)@) {
            Ok(list) => r is Ok && final(users)@ == list,
            Err(e) => r matches Err(x) && x@ == e && final(users)@ == old(users)@,
        },
{
    let ghost before = users@;
    match op {
        UserOp::Add(user) => add_new(users, user),
        UserOp::AddInit(user) => add_new(users, user),
        UserOp::SetPassword { name, hash } => match user_position(users, name) {
            Ok(i) => {
                set_hash(&mut users.users, i, hash);
                Ok(())
            },
            Err(e) => Err(e),
        },
        UserOp::Remove { name } => match user_position(users, name) {
            Ok(i) => {
                users.users.remove(i);
                assert(users@ =~= before.remove(i as int));
                Ok(())
            },
            Err(e) => Err(e),
        },
        UserOp::SetEnabled { name, enabled } => match user_position(users, name) {
            Ok(i) => {
                users.users[i].is_enabled = *enabled;
                assert(users@ =~= before.update(
                    i as int,
                    UserView { is_enabled: *enabled, ..before[i as int] },
                ));
                Ok(())
            },
            Err(e) => Err(e),
        },
        UserOp::SetDirect { name, direct } => match user_position(users, name) {
            Ok(i) => {
                users.users[i].direct = *direct;
                assert(users@ =~= before.update(
                    i as int,
                    UserView { direct: *direct, ..before[i as int] },
                ));
                Ok(())
            },
            Err(e) => Err(e),
        },
    }
}

/// Adds an account under a name that is still free.
fn add_new(users: &mut UsersConfig, user: &User) -> (r: Result<(), UserError>)
    ensures
        if position_of(old(users)@, user@.name) is Some {
            r matches Err(x) && x@ == UserErrorView::AlreadyExists(user@.name) && final(users)@
                == old(users)@
        } else {
            r is Ok && final(users)@ == old(users)@.push(user@)
        },
{
    if position(&users.users, &user.name).is_some() {
        return Err(UserError::AlreadyExists(user.name.clone()));
    }
    users.users.push(user.clone());
    assert(users@ =~= old(users)@.push(user@));
    Ok(())
}

/// The text of a `bool`.
pub open spec fn bool_text(b: bool) -> Seq<char> {
    if b {
        "true"@
    } else {
        "false"@
    }
}

/// How a change is rendered for diagnosis: never with a hash.
pub open spec fn op_text(op: UserOpView) -> Seq<char> {
    match op {
        UserOpView::Add(user) => "Add("@ + user.name + ")"@,
        UserOpView::AddInit(user) => "AddInit("@ + user.name + ")"@,
        UserOpView::SetPassword { name, hash } => "SetPassword("@ + name + ")"@,
        UserOpView::Remove { name } => "Remove("@ + name + ")"@,
        UserOpView::SetEnabled { name, enabled } => "SetEnabled("@ + name + ", "@ + bool_text(
            enabled,
        ) + ")"@,
        UserOpView::SetDirect { name, direct } => "SetDirect("@ + name + ", "@ + bool_text(direct)
            + ")"@,
    }
}

/// What the operator is told once a change is on disk.
pub open spec fn report_text(op: UserOpView) -> Seq<char> {
    match op {
        UserOpView::Add(user) => "Added user '"@ + user.name + "'."@,
        UserOpView::AddInit(user) => "Added user '"@ + user.name
            + "' with placeholder hash. The first client to authenticate as this user claims the password."@,
        UserOpView::SetPassword { name, hash } => "Updated password for user '"@ + name + "'."@,
        UserOpView::Remove { name } => "Removed user '"@ + name + "'."@,
        UserOpView::SetEnabled { name, enabled } => "User '"@ + name + "' is now "@ + (if enabled {
            "enabled"@
        } else {
            "disabled"@
        }) + "."@,
        UserOpView::SetDirect { name, direct } => "User '"@ + name + "' is now "@ + (if direct {
            "direct"@
        } else {
            "pool-routed"@
        }) + "."@,
    }
}

/// `name` between `start` and `end`.
fn around(start: &str, name: &str, end: &str) -> (r: String)
    ensures
        r@ == start@ + name@ + end@,
{
    join(&join(start, name), end)
}

impl UserOp {
    /// Renders the change for diagnosis, without any hash.
    pub fn debug_text(&self) -> (r: String)
        ensures
            r@ == op_text(self@),
    {
        match self {
            UserOp::Add(user) => around("Add(", &user.name, ")"),
            UserOp::AddInit(user) => around("AddInit(", &user.name, ")"),
            UserOp::SetPassword { name, hash: _ } => around("SetPassword(", name, ")"),
            UserOp::Remove { name } => around("Remove(", name, ")"),
            UserOp::SetEnabled { name, enabled } => {
                let start = around("SetEnabled(", name, ", ");
                let value = if *enabled {
                    "true"
                } else {
                    "false"
                };
                around(&start, value, ")")
            },
            UserOp::SetDirect { name, direct } => {
                let start = around("SetDirect(", name, ", ");
                let value = if *direct {
                    "true"
                } else {
                    "false"
                };
                around(&start, value, ")")
            },
        }
    }

    /// What to tell the operator once the change is on disk.
    pub fn report(&self) -> (r: String)
        ensures
            r@ == report_text(self@),
    {
        match self {
            UserOp::Add(user) => around("Added user '", &user.name, "'."),
            UserOp::AddInit(user) => around(
                "Added user '",
                &user.name,
                "' with placeholder hash. The first client to authenticate as this user claims the password.",
            ),
            UserOp::SetPassword { name, hash: _ } => around(
                "Updated password for user '",
                name,
                "'.",
            ),
            UserOp::Remove { name } => around("Removed user '", name, "'."),
            UserOp::SetEnabled { name, enabled } => {
                let start = around("User '", name, "' is now ");
                let value = if *enabled {
                    "enabled"
                } else {
                    "disabled"
                };
                around(&start, value, ".")
            },
            UserOp::SetDirect { name, direct } => {
                let start = around("User '", name, "' is now ");
                let value = if *direct {
                    "direct"
                } else {
                    "pool-routed"
                };
                around(&start, value, ".")
            },
        }
    }
}

/// The account under a name.
pub open spec fn account_named(users: Seq<UserView>, name: Seq<char>) -> Option<UserView> {
    match position_of(users, name) {
        Some(i) => Some(users[i]),
        None => None,
    }
}

/// An account that stands at a position, with none of its name before it, is
/// the account under that name.
proof fn lemma_account_is(users: Seq<UserView>, i: int)
    requires
        0 <= i < users.len(),
        forall|j: int| 0 <= j < i ==> (#[trigger] users[j]).name != users[i].name,
    ensures
        account_named(users, users[i].name) == Some(users[i]),
{
    lemma_position_from(users, users[i].name, 0);
}

/// A change leaves the account under every other name as it was.
pub proof fn change_keeps_other_accounts(op: UserOpView, users: Seq<UserView>, name: Seq<char>)
    requires
        applied(op, users) is Ok,
        name != op_name(op),
    ensures
        account_named(applied(op, users)->Ok_0, name) == account_named(users, name),
{
    let after = applied(op, users)->Ok_0;
    lemma_position_from(users, name, 0);
    lemma_position_from(users, op_name(op), 0);
    lemma_position_from(after, name, 0);
    if op is Remove {
        let k = position_of(users, op_name(op))->0;
        match position_of(users, name) {
            Some(i) => {
                let p = if i < k {
                    i
                } else {
                    i - 1
                };
                assert(after[p] == users[i]);
                assert forall|j: int| 0 <= j < p implies (#[trigger] after[j]).name != name by {
                    if j < k {
                        assert(after[j] == users[j]);
                    } else {
                        assert(after[j] == users[j + 1]);
                    }
                }
                lemma_account_is(after, p);
            },
            None => {
                match position_of(after, name) {
                    Some(i) => {
                        if i < k {
                            assert(after[i] == users[i]);
                        } else {
                            assert(after[i] == users[i + 1]);
                        }
                    },
                    None => {},
                }
            },
        }
    } else {
        match position_of(users, name) {
            Some(i) => {
                assert(after[i] == users[i]);
                assert forall|j: int| 0 <= j < i implies (#[trigger] after[j]).name != name by {
                    assert(after[j].name == users[j].name);
                }
                lemma_account_is(after, i);
            },
            None => {
                match position_of(after, name) {
                    Some(i) => {
                        if i < users.len() {
                            assert(after[i].name == users[i].name);
                        }
                    },
                    None => {},
                }
            },
        }
    }
}

/// Whether no two accounts have one name.
pub open spec fn names_differ(users: Seq<UserView>) -> bool {
    forall|i: int, j: int|
        0 <= i < j < users.len() ==> (#[trigger] users[i]).name != (#[trigger] users[j]).name
}

/// No change gives two accounts one name.
pub proof fn change_keeps_names_different(op: UserOpView, users: Seq<UserView>)
    requires
        applied(op, users) is Ok,
        names_differ(users),
    ensures
        names_differ(applied(op, users)->Ok_0),
{
    let after = applied(op, users)->Ok_0;
    let name = op_name(op);
    lemma_position_from(users, name, 0);
    assert forall|i: int, j: int| 0 <= i < j < after.len() implies (#[trigger] after[i]).name != (
    #[trigger] after[j]).name by {
        if op is Remove {
            let k = position_of(users, name)->0;
            let a = if i < k {
                i
            } else {
                i + 1
            };
            let b = if j < k {
                j
            } else {
                j + 1
            };
            assert(after[i] == users[a]);
            assert(after[j] == users[b]);
        } else if op is Add || op is AddInit {
            assert(after[i] == users[i]);
            if j < users.len() {
                assert(after[j] == users[j]);
            }
        } else {
            assert(after[i].name == users[i].name);
            assert(after[j].name == users[j].name);
        }
    }
}

/// Removing a user that was just added gives back the list.
pub proof fn removal_undoes_addition(user: UserView, users: Seq<UserView>)
    requires
        applied(UserOpView::Add(user), users) is Ok,
    ensures
        applied(
            UserOpView::Remove { name: user.name },
            applied(UserOpView::Add(user), users)->Ok_0,
        ) == Ok::<Seq<UserView>, UserErrorView>(users),
        applied(
            UserOpView::Remove { name: user.name },
            applied(UserOpView::AddInit(user), users)->Ok_0,
        ) == Ok::<Seq<UserView>, UserErrorView>(users),
{
    let added = users.push(user);
    let i = users.len() as int;
    lemma_position_from(users, user.name, 0);
    assert forall|j: int| 0 <= j < i implies (#[trigger] added[j]).name != user.name by {
        assert(added[j] == users[j]);
    }
    lemma_position_is(added, user.name, i);
    assert(added.remove(i) =~= users);
}

/// Of two settings of one flag the last one counts.
pub proof fn last_setting_counts(name: Seq<char>, first: bool, second: bool, users: Seq<UserView>)
    requires
        position_of(users, name) is Some,
    ensures
        applied(
            UserOpView::SetEnabled { name, enabled: second },
            applied(UserOpView::SetEnabled { name, enabled: first }, users)->Ok_0,
        ) == applied(UserOpView::SetEnabled { name, enabled: second }, users),
        applied(
            UserOpView::SetDirect { name, direct: second },
            applied(UserOpView::SetDirect { name, direct: first }, users)->Ok_0,
        ) == applied(UserOpView::SetDirect { name, direct: second }, users),
{
    lemma_position_from(users, name, 0);
    let i = position_of(users, name)->0;
    let enabled = users.update(i, UserView { is_enabled: first, ..users[i] });
    let direct = users.update(i, UserView { direct: first, ..users[i] });
    assert forall|j: int| 0 <= j < i implies (#[trigger] enabled[j]).name != name by {
        assert(enabled[j] == users[j]);
    }
    assert forall|j: int| 0 <= j < i implies (#[trigger] direct[j]).name != name by {
        assert(direct[j] == users[j]);
    }
    lemma_position_is(enabled, name, i);
    lemma_position_is(direct, name, i);
    assert(enabled.update(i, UserView { is_enabled: second, ..enabled[i] }) =~= users.update(
        i,
        UserView { is_enabled: second, ..users[i] },
    ));
    assert(direct.update(i, UserView { direct: second, ..direct[i] }) =~= users.update(
        i,
        UserView { direct: second, ..users[i] },
    ));
}

/// No rendering or report of a change tells anything of a hash.
pub proof fn no_text_tells_the_hash(user: UserView, name: Seq<char>, hash1: Seq<char>, hash2: Seq<char>)
    ensures
        op_text(UserOpView::SetPassword { name, hash: hash1 }) == op_text(
            UserOpView::SetPassword { name, hash: hash2 },
        ),
        report_text(UserOpView::SetPassword { name, hash: hash1 }) == report_text(
            UserOpView::SetPassword { name, hash: hash2 },
        ),
        op_text(UserOpView::Add(UserView { hash: hash1, ..user })) == op_text(
            UserOpView::Add(UserView { hash: hash2, ..user }),
        ),
        report_text(UserOpView::Add(UserView { hash: hash1, ..user })) == report_text(
            UserOpView::Add(UserView { hash: hash2, ..user }),
        ),
        op_text(UserOpView::AddInit(UserView { hash: hash1, ..user })) == op_text(
            UserOpView::AddInit(UserView { hash: hash2, ..user }),
        ),
        report_text(UserOpView::AddInit(UserView { hash: hash1, ..user })) == report_text(
            UserOpView::AddInit(UserView { hash: hash2, ..user }),
        ),
{
}

/// Whether two lists differ at one position at most.
pub open spec fn same_but_at(a: Seq<UserView>, b: Seq<UserView>, i: int) -> bool {
    &&& a.len() == b.len()
    &&& forall|j: int| 0 <= j < a.len() && j != i ==> #[trigger] a[j] == b[j]
}

/// A new password leaves everything else as it is: the other accounts, and
/// whether this one is enabled and how it is routed.
pub proof fn new_password_changes_only_the_hash(
    users: Seq<UserView>,
    name: Seq<char>,
    hash: Seq<char>,
    i: int,
)
    requires
        stands_first(users, name, i),
    ensures
        applied(UserOpView::SetPassword { name, hash }, users) matches Ok(after) && same_but_at(
            users,
            after,
            i,
        ) && after[i].hash == hash && after[i].name == users[i].name && after[i].is_enabled
            == users[i].is_enabled && after[i].direct == users[i].direct,
{
    lemma_position_is(users, name, i);
}

/// Enabling or disabling changes that flag of that account alone.
pub proof fn enabling_changes_only_the_flag(
    users: Seq<UserView>,
    name: Seq<char>,
    enabled: bool,
    i: int,
)
    requires
        stands_first(users, name, i),
    ensures
        applied(UserOpView::SetEnabled { name, enabled }, users) matches Ok(after) && same_but_at(
            users,
            after,
            i,
        ) && after[i].is_enabled == enabled && after[i].name == users[i].name && after[i].hash
            == users[i].hash && after[i].direct == users[i].direct,
{
    lemma_position_is(users, name, i);
}

/// Routing changes that flag of that account alone.
pub proof fn routing_changes_only_the_flag(
    users: Seq<UserView>,
    name: Seq<char>,
    direct: bool,
    i: int,
)
    requires
        stands_first(users, name, i),
    ensures
        applied(UserOpView::SetDirect { name, direct }, users) matches Ok(after) && same_but_at(
            users,
            after,
            i,
        ) && after[i].direct == direct && after[i].name == users[i].name && after[i].hash
            == users[i].hash && after[i].is_enabled == users[i].is_enabled,
{
    lemma_position_is(users, name, i);
}

/// Removal takes out that account; the others stay, in their order.
pub proof fn removal_takes_out_one_account(users: Seq<UserView>, name: Seq<char>, i: int)
    requires
        stands_first(users, name, i),
    ensures
        applied(UserOpView::Remove { name }, users) == Ok::<Seq<UserView>, UserErrorView>(
            users.take(i) + users.skip(i + 1),
        ),
{
    lemma_position_is(users, name, i);
    assert(users.remove(i) =~= users.take(i) + users.skip(i + 1));
}

/// An addition puts the account behind the others, under a name that none of
/// them has; a name that one has is refused.
pub proof fn addition_needs_a_free_name(users: Seq<UserView>, user: UserView)
    ensures
        (exists|i: int| 0 <= i < users.len() && (#[trigger] users[i]).name == user.name) ==> {
            &&& applied(UserOpView::Add(user), users) == Err::<Seq<UserView>, UserErrorView>(
                UserErrorView::AlreadyExists(user.name),
            )
            &&& applied(UserOpView::AddInit(user), users) == Err::<Seq<UserView>, UserErrorView>(
                UserErrorView::AlreadyExists(user.name),
            )
        },
        (forall|i: int| 0 <= i < users.len() ==> (#[trigger] users[i]).name != user.name) ==> {
            &&& applied(UserOpView::Add(user), users) == Ok::<Seq<UserView>, UserErrorView>(
                users + seq![user],
            )
            &&& applied(UserOpView::AddInit(user), users) == Ok::<Seq<UserView>, UserErrorView>(
                users + seq![user],
            )
        },
{
    lemma_position_from(users, user.name, 0);
    assert(users.push(user) =~= users + seq![user]);
}

/// A change of an account that is not there is refused under its name.
pub proof fn change_needs_its_account(op: UserOpView, users: Seq<UserView>)
    requires
        !(op is Add),
        !(op is AddInit),
        forall|i: int| 0 <= i < users.len() ==> (#[trigger] users[i]).name != op_name(op),
    ensures
        applied(op, users) == Err::<Seq<UserView>, UserErrorView>(
            UserErrorView::NotFound(
                match op {
                    UserOpView::Add(user) => user.name,
                    UserOpView::AddInit(user) => user.name,
                    UserOpView::SetPassword { name, hash } => name,
                    UserOpView::Remove { name } => name,
                    UserOpView::SetEnabled { name, enabled } => name,
                    UserOpView::SetDirect { name, direct } => name,
                },
            ),
        ),
{
    lemma_position_from(users, op_name(op), 0);
}

/// Every report, rendering and refusal names the account in full.
pub proof fn texts_name_their_account(name: Seq<char>, hash: Seq<char>, flag: bool, user: UserView)
    ensures
        report_text(UserOpView::Add(user)) == "Added user '"@ + user.name + "'."@,
        report_text(UserOpView::AddInit(user)) == "Added user '"@ + user.name
            + "' with placeholder hash. The first client to authenticate as this user claims the password."@,
        report_text(UserOpView::SetPassword { name, hash }) == "Updated password for user '"@ + name
            + "'."@,
        report_text(UserOpView::Remove { name }) == "Removed user '"@ + name + "'."@,
        report_text(UserOpView::SetEnabled { name, enabled: true }) == "User '"@ + name
            + "' is now "@ + "enabled"@ + "."@,
        report_text(UserOpView::SetEnabled { name, enabled: false }) == "User '"@ + name
            + "' is now "@ + "disabled"@ + "."@,
        report_text(UserOpView::SetDirect { name, direct: true }) == "User '"@ + name
            + "' is now "@ + "direct"@ + "."@,
        report_text(UserOpView::SetDirect { name, direct: false }) == "User '"@ + name
            + "' is now "@ + "pool-routed"@ + "."@,
        op_text(UserOpView::Add(user)) == "Add("@ + user.name + ")"@,
        op_text(UserOpView::AddInit(user)) == "AddInit("@ + user.name + ")"@,
        op_text(UserOpView::SetPassword { name, hash }) == "SetPassword("@ + name + ")"@,
        op_text(UserOpView::Remove { name }) == "Remove("@ + name + ")"@,
        op_text(UserOpView::SetEnabled { name, enabled: flag }) == "SetEnabled("@ + name + ", "@ + (
        if flag {
            "true"@
        } else {
            "false"@
        }) + ")"@,
        op_text(UserOpView::SetDirect { name, direct: flag }) == "SetDirect("@ + name + ", "@ + (
        if flag {
            "true"@
        } else {
            "false"@
        }) + ")"@,
        user_error_text(UserErrorView::AlreadyExists(name)) == "user '"@ + name
            + "' already exists"@,
        user_error_text(UserErrorView::NotFound(name)) == "user '"@ + name + "' not found"@,
{
}

/// A refusal is seen as what it is.
pub proof fn refusal_is_seen_as_it_is(e: UserError)
    ensures
        match e {
            UserError::AlreadyExists(name) => e@ == UserErrorView::AlreadyExists(name@),
            UserError::NotFound(name) => e@ == UserErrorView::NotFound(name@),
            UserError::NameEmpty => e@ == UserErrorView::NameEmpty,
            UserError::NameTooLong => e@ == UserErrorView::NameTooLong,
            UserError::NameHasColon => e@ == UserErrorView::NameHasColon,
            UserError::PasswordEmpty => e@ == UserErrorView::PasswordEmpty,
            UserError::PasswordTooLong => e@ == UserErrorView::PasswordTooLong,
            UserError::PasswordMismatch => e@ == UserErrorView::PasswordMismatch,
            UserError::Hash(_) => e@ is Hash,
        },
{
}

} // verus!
