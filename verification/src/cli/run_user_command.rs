//! User management.

use vstd::prelude::*;
use vstd::utf8::encode_utf8;

use crate::auth::hash::{compute_hash, is_password_hash, no_random_bytes};
use crate::cli::app::UserAction;
use crate::cli::user_op::{applied, find_user, UserError, UserErrorView, UserOp, UserOpView};
use crate::config::proxy_list_config::texts;
use crate::config::users::{
    lemma_position_from, lemma_position_is, position, position_of, stands_first, User, UserView,
    UsersConfig, INIT_HASH,
};
use crate::text::{
    all_meet, chars_of, ends_fail, is_white_space, join, lemma_elem_from, same_text, split_once,
    trim, trim_gives_back_the_text, trimmed,
};

verus! {

/// The longest name or password that a SOCKS5 client can send, in bytes.
pub const MAX_FIELD_BYTES: usize = 255;

/// What is wrong with a user name.
pub open spec fn name_problem(name: Seq<char>) -> Option<UserErrorView> {
    if name.len() == 0 {
        Some(UserErrorView::NameEmpty)
    } else if encode_utf8(name).len() > MAX_FIELD_BYTES {
        Some(UserErrorView::NameTooLong)
    } else if name.contains(':') {
        Some(UserErrorView::NameHasColon)
    } else {
        None
    }
}

/// What is wrong with a password.
pub open spec fn password_problem(password: Seq<char>) -> Option<UserErrorView> {
    if password.len() == 0 {
        Some(UserErrorView::PasswordEmpty)
    } else if encode_utf8(password).len() > MAX_FIELD_BYTES {
        Some(UserErrorView::PasswordTooLong)
    } else {
        None
    }
}

/// Whether a check reports this problem, or none.
pub open spec fn reports(r: Result<(), UserError>, problem: Option<UserErrorView>) -> bool {
    match r {
        Ok(_) => problem is None,
        Err(e) => problem == Some(e@),
    }
}

/// Checks a user name: a colon in it would collide with the separator of name
/// and password.
pub fn validate_name(name: &str) -> (r: Result<(), UserError>)
    ensures
        reports(r, name_problem(name@)),
{
    if name.is_empty() {
        return Err(UserError::NameEmpty);
    }
    if name.as_bytes().len() > MAX_FIELD_BYTES {
        return Err(UserError::NameTooLong);
    }
    proof {
        lemma_elem_from(name@, ':', 0);
    }
    if split_once(name, ':').is_some() {
        return Err(UserError::NameHasColon);
    }
    Ok(())
}

/// Checks a password. The limit is in bytes, not in characters.
pub fn validate_password(password: &str) -> (r: Result<(), UserError>)
    ensures
        reports(r, password_problem(password@)),
{
    if password.is_empty() {
        return Err(UserError::PasswordEmpty);
    }
    if password.as_bytes().len() > MAX_FIELD_BYTES {
        return Err(UserError::PasswordTooLong);
    }
    Ok(())
}

/// Checks a password that was entered once, or twice where there is a terminal.
pub fn read_new_password(first: &str, again: Option<&str>) -> (r: Result<(), UserError>)
    ensures
        reports(
            r,
            if password_problem(first@) is Some {
                password_problem(first@)
            } else if again matches Some(second) && second@ != first@ {
                Some(UserErrorView::PasswordMismatch)
            } else {
                None
            },
        ),
{
    match validate_password(first) {
        Ok(()) => {},
        Err(e) => {
            return Err(e);
        },
    }
    match again {
        Some(second) => {
            if same_text(first, second) {
                Ok(())
            } else {
                Err(UserError::PasswordMismatch)
            }
        },
        None => Ok(()),
    }
}

/// What is wrong with adding a user of this name.
pub open spec fn add_problem(users: Seq<UserView>, name: Seq<char>) -> Option<UserErrorView> {
    if name_problem(name) is Some {
        name_problem(name)
    } else if position_of(users, name) is Some {
        Some(UserErrorView::AlreadyExists(name))
    } else {
        None
    }
}

/// Checks whether a user of this name can be added.
pub fn check_new_user(users: &UsersConfig, name: &str) -> (r: Result<(), UserError>)
    ensures
        reports(r, add_problem(users@, name@)),
{
    match validate_name(name) {
        Ok(()) => {},
        Err(e) => {
            return Err(e);
        },
    }
    if position(&users.users, name).is_some() {
        return Err(UserError::AlreadyExists(name.to_owned()));
    }
    Ok(())
}

/// A user as added: enabled, and routed through the pool.
pub open spec fn new_user(name: Seq<char>, hash: Seq<char>) -> UserView {
    UserView { name, hash, is_enabled: true, direct: false }
}

/// A user as added.
pub fn build_added_user(name: &str, hash: String) -> (r: User)
    ensures
        r@ == new_user(name@, hash@),
{
    User { name: name.to_owned(), hash, is_enabled: true, direct: false }
}

/// The change that adds a user with a password. The hash of the password is
/// salted at random; that there are no random bytes is the only failure besides
/// those of the name and the password.
pub fn add_user(users: &UsersConfig, name: &str, password: &str) -> (r: Result<UserOp, UserError>)
    ensures
        match r {
            Ok(op) => {
                &&& add_problem(users@, name@) is None
                &&& password_problem(password@) is None
                &&& op@ matches UserOpView::Add(user) && user == new_user(name@, user.hash)
                    && is_password_hash(user.hash, password@)
            },
            Err(e) => if add_problem(users@, name@) is Some {
                add_problem(users@, name@) == Some(e@)
            } else if password_problem(password@) is Some {
                password_problem(password@) == Some(e@)
            } else {
                e matches UserError::Hash(a) && a is Random && no_random_bytes::<16>()
            },
        },
{
    match check_new_user(users, name) {
        Ok(()) => {},
        Err(e) => {
            return Err(e);
        },
    }
    match validate_password(password) {
        Ok(()) => {},
        Err(e) => {
            return Err(e);
        },
    }
    match compute_hash(password) {
        Ok(hash) => Ok(UserOp::Add(build_added_user(name, hash))),
        Err(e) => Err(UserError::Hash(e)),
    }
}

/// Whether a result is this change or this error.
pub open spec fn gives(
    r: Result<UserOp, UserError>,
    expected: Result<UserOpView, UserErrorView>,
) -> bool {
    match r {
        Ok(op) => expected == Ok::<UserOpView, UserErrorView>(op@),
        Err(e) => expected == Err::<UserOpView, UserErrorView>(e@),
    }
}

/// The change that adds a user whose password is set by the first login.
pub open spec fn add_init_of(users: Seq<UserView>, name: Seq<char>) -> Result<
    UserOpView,
    UserErrorView,
> {
    match add_problem(users, name) {
        Some(e) => Err(e),
        None => Ok(UserOpView::AddInit(new_user(name, INIT_HASH@))),
    }
}

/// The change that adds a user whose password is set by the first login.
pub fn add_init_user(users: &UsersConfig, name: &str) -> (r: Result<UserOp, UserError>)
    ensures
        gives(r, add_init_of(users@, name@)),
{
    match check_new_user(users, name) {
        Ok(()) => Ok(UserOp::AddInit(build_added_user(name, INIT_HASH.to_owned()))),
        Err(e) => Err(e),
    }
}

/// A change of an account that has to exist.
pub open spec fn on_existing(users: Seq<UserView>, name: Seq<char>, op: UserOpView) -> Result<
    UserOpView,
    UserErrorView,
> {
    if position_of(users, name) is Some {
        Ok(op)
    } else {
        Err(UserErrorView::NotFound(name))
    }
}

/// The change that sets a password. As with [`add_user`], only the random bytes
/// may fail besides the name and the password.
pub fn set_password(users: &UsersConfig, name: &str, password: &str) -> (r: Result<
    UserOp,
    UserError,
>)
    ensures
        match r {
            Ok(op) => {
                &&& position_of(users@, name@) is Some
                &&& password_problem(password@) is None
                &&& op@ matches UserOpView::SetPassword { name: n, hash } && n == name@
                    && is_password_hash(hash, password@)
            },
            Err(e) => if position_of(users@, name@) is None {
                e@ == UserErrorView::NotFound(name@)
            } else if password_problem(password@) is Some {
                password_problem(password@) == Some(e@)
            } else {
                e matches UserError::Hash(a) && a is Random && no_random_bytes::<16>()
            },
        },
{
    match find_user(users, name) {
        Ok(_) => {},
        Err(e) => {
            return Err(e);
        },
    }
    match validate_password(password) {
        Ok(()) => {},
        Err(e) => {
            return Err(e);
        },
    }
    match compute_hash(password) {
        Ok(hash) => Ok(UserOp::SetPassword { name: name.to_owned(), hash }),
        Err(e) => Err(UserError::Hash(e)),
    }
}

/// The change that enables or disables a user.
pub fn set_enabled(users: &UsersConfig, name: &str, enabled: bool) -> (r: Result<
    UserOp,
    UserError,
>)
    ensures
        gives(
            r,
            on_existing(users@, name@, (UserOpView::SetEnabled { name: name@, enabled })),
        ),
{
    match find_user(users, name) {
        Ok(_) => Ok(UserOp::SetEnabled { name: name.to_owned(), enabled }),
        Err(e) => Err(e),
    }
}

/// The change that routes a user directly or through the pool.
pub fn set_direct(users: &UsersConfig, name: &str, direct: bool) -> (r: Result<UserOp, UserError>)
    ensures
        gives(r, on_existing(users@, name@, (UserOpView::SetDirect { name: name@, direct }))),
{
    match find_user(users, name) {
        Ok(_) => Ok(UserOp::SetDirect { name: name.to_owned(), direct }),
        Err(e) => Err(e),
    }
}

/// The answers that confirm.
pub open spec fn is_yes(answer: Seq<char>) -> bool {
    let t = trimmed(answer);
    t == "y"@ || t == "Y"@ || t == "yes"@ || t == "Yes"@
}

/// Whether an answer confirms.
pub fn confirm(answer: &str) -> (r: bool)
    ensures
        r == is_yes(answer@),
{
    let t = trim(answer);
    same_text(t, "y") || same_text(t, "Y") || same_text(t, "yes") || same_text(t, "Yes")
}

/// The change that removes a user; `None` if the operator, asked on a
/// terminal, did not confirm. `answer` is what was answered, `None` where
/// nobody can be asked.
pub fn remove_user(
    users: &UsersConfig,
    name: &str,
    skip_confirm: bool,
    answer: Option<&str>,
) -> (r: Result<Option<UserOp>, UserError>)
    ensures
        match r {
            Ok(Some(op)) => {
                &&& position_of(users@, name@) is Some
                &&& skip_confirm || answer is None || is_yes(answer->0@)
                &&& op@ == (UserOpView::Remove { name: name@ })
            },
            Ok(None) => {
                &&& position_of(users@, name@) is Some
                &&& !skip_confirm && answer is Some && !is_yes(answer->0@)
            },
            Err(e) => position_of(users@, name@) is None && e@ == UserErrorView::NotFound(name@),
        },
{
    match find_user(users, name) {
        Ok(_) => {},
        Err(e) => {
            return Err(e);
        },
    }
    if !skip_confirm {
        if let Some(a) = answer {
            if !confirm(a) {
                return Ok(None);
            }
        }
    }
    Ok(Some(UserOp::Remove { name: name.to_owned() }))
}

/// `s` with spaces behind it up to a width.
pub open spec fn padded(s: Seq<char>, width: nat) -> Seq<char> {
    s + Seq::new((if s.len() < width {
        width - s.len()
    } else {
        0
    }) as nat, |i: int| ' ')
}

/// Pads with spaces up to a width.
fn pad(s: &str, width: usize) -> (r: String)
    ensures
        r@ == padded(s@, width as nat),
{
    let v = chars_of(s);
    let mut out = s.to_owned();
    let mut n: usize = v.len();
    assert(out@ =~= s@ + Seq::new(0, |i: int| ' '));
    while n < width
        invariant
            v@ == s@,
            v@.len() <= n,
            n <= width || n == v@.len(),
            out@ == s@ + Seq::new((n - v@.len()) as nat, |i: int| ' '),
        decreases width - n,
    {
        out.push(' ');
        n += 1;
        assert(out@ =~= s@ + Seq::new((n - v@.len()) as nat, |i: int| ' '));
    }
    assert(out@ =~= padded(s@, width as nat));
    out
}

/// One row of the list of users.
pub open spec fn row(name: Seq<char>, status: Seq<char>, mode: Seq<char>) -> Seq<char> {
    padded(name, 24) + " "@ + padded(status, 10) + " "@ + padded(mode, 6)
}

/// One row of the list of users.
fn row_text(name: &str, status: &str, mode: &str) -> (r: String)
    ensures
        r@ == row(name@, status@, mode@),
{
    let left = join(&join(&pad(name, 24), " "), &pad(status, 10));
    join(&join(&left, " "), &pad(mode, 6))
}

/// The row of an account: never its hash.
pub open spec fn user_row(u: UserView) -> Seq<char> {
    row(
        u.name,
        if u.is_enabled {
            "enabled"@
        } else {
            "disabled"@
        },
        if u.direct {
            "direct"@
        } else {
            "pool"@
        },
    )
}

/// The lines of the list of users.
pub open spec fn user_lines(users: Seq<UserView>) -> Seq<Seq<char>> {
    if users.len() == 0 {
        seq!["(no users configured — server runs without authentication)"@]
    } else {
        seq![row("NAME"@, "STATUS"@, "MODE"@)] + Seq::new(users.len(), |i: int| user_row(users[i]))
    }
}

/// The lines of the list of users.
pub fn list_users(users: &UsersConfig) -> (r: Vec<String>)
    ensures
        texts(r@) == user_lines(users@),
{
    let mut lines: Vec<String> = Vec::new();
    if users.users.len() == 0 {
        lines.push("(no users configured — server runs without authentication)".to_owned());
        assert(texts(lines@) =~= user_lines(users@));
        return lines;
    }
    lines.push(row_text("NAME", "STATUS", "MODE"));
    let mut i: usize = 0;
    while i < users.users.len()
        invariant
            i <= users.users@.len(),
            users.users@.len() > 0,
            lines@.len() == i + 1,
            lines@[0]@ == row("NAME"@, "STATUS"@, "MODE"@),
            forall|j: int| 0 <= j < i ==> (#[trigger] lines@[j + 1])@ == user_row(users@[j]),
        decreases users.users@.len() - i,
    {
        let u = &users.users[i];
        let status = if u.is_enabled {
            "enabled"
        } else {
            "disabled"
        };
        let mode = if u.direct {
            "direct"
        } else {
            "pool"
        };
        assert(users@[i as int] == u@);
        lines.push(row_text(&u.name, status, mode));
        i += 1;
    }
    proof {
        assert(texts(lines@).len() == user_lines(users@).len());
        assert forall|k: int| 0 <= k < texts(lines@).len() implies texts(lines@)[k] == user_lines(
            users@,
        )[k] by {
            if k > 0 {
                assert(lines@[(k - 1) + 1]@ == user_row(users@[k - 1]));
            }
        }
        assert(texts(lines@) =~= user_lines(users@));
    }
    lines
}

/// What a command on the users needs next.
pub enum CommandStep {
    /// Print these lines; there is nothing to change.
    Print(Vec<String>),
    /// Read a password, then go on with [`add_user`].
    AskPasswordForNew(String),
    /// Read a password, then go on with [`set_password`].
    AskPasswordForExisting(String),
    /// Ask this question, then go on with [`remove_user`].
    AskRemoval { name: String, question: String },
    /// Apply this change to the users file.
    Commit(UserOp),
}

/// [`CommandStep`] over views.
pub enum CommandStepView {
    Print(Seq<Seq<char>>),
    AskPasswordForNew(Seq<char>),
    AskPasswordForExisting(Seq<char>),
    AskRemoval { name: Seq<char>, question: Seq<char> },
    Commit(UserOpView),
}

impl View for CommandStep {
    type V = CommandStepView;

    open spec fn view(&self) -> CommandStepView {
        match self {
            CommandStep::Print(lines) => CommandStepView::Print(texts(lines@)),
            CommandStep::AskPasswordForNew(name) => CommandStepView::AskPasswordForNew(name@),
            CommandStep::AskPasswordForExisting(name) => CommandStepView::AskPasswordForExisting(
                name@,
            ),
            CommandStep::AskRemoval { name, question } => CommandStepView::AskRemoval {
                name: name@,
                question: question@,
            },
            CommandStep::Commit(op) => CommandStepView::Commit(op@),
        }
    }
}

/// A change as a step.
pub open spec fn committed(r: Result<UserOpView, UserErrorView>) -> Result<
    CommandStepView,
    UserErrorView,
> {
    match r {
        Ok(op) => Ok(CommandStepView::Commit(op)),
        Err(e) => Err(e),
    }
}

/// What a command needs next, given the users as loaded and whether there is a
/// terminal to ask on.
pub open spec fn command_step(action: UserAction, users: Seq<UserView>, interactive: bool) -> Result<
    CommandStepView,
    UserErrorView,
> {
    match action {
        UserAction::Add { name } => match add_problem(users, name@) {
            Some(e) => Err(e),
            None => Ok(CommandStepView::AskPasswordForNew(name@)),
        },
        UserAction::AddInit { name } => committed(add_init_of(users, name@)),
        UserAction::SetPassword { name } => if position_of(users, name@) is Some {
            Ok(CommandStepView::AskPasswordForExisting(name@))
        } else {
            Err(UserErrorView::NotFound(name@))
        },
        UserAction::Remove { name, yes } => if position_of(users, name@) is None {
            Err(UserErrorView::NotFound(name@))
        } else if !yes && interactive {
            Ok(
                CommandStepView::AskRemoval {
                    name: name@,
                    question: "Remove user '"@ + name@ + "'?"@,
                },
            )
        } else {
            Ok(CommandStepView::Commit(UserOpView::Remove { name: name@ }))
        },
        UserAction::List => Ok(CommandStepView::Print(user_lines(users))),
        UserAction::Enable { name } => committed(
            on_existing(users, name@, UserOpView::SetEnabled { name: name@, enabled: true }),
        ),
        UserAction::Disable { name } => committed(
            on_existing(users, name@, UserOpView::SetEnabled { name: name@, enabled: false }),
        ),
        UserAction::Direct { name } => committed(
            on_existing(users, name@, UserOpView::SetDirect { name: name@, direct: true }),
        ),
        UserAction::Pool { name } => committed(
            on_existing(users, name@, UserOpView::SetDirect { name: name@, direct: false }),
        ),
    }
}

/// A step as taken, over views.
pub open spec fn command_result(r: Result<CommandStep, UserError>) -> Result<
    CommandStepView,
    UserErrorView,
> {
    match r {
        Ok(step) => Ok(step@),
        Err(e) => Err(e@),
    }
}

/// Turns a change into a step.
fn commit(r: Result<UserOp, UserError>) -> (s: Result<CommandStep, UserError>)
    ensures
        match r {
            Ok(op) => command_result(s) == Ok::<CommandStepView, UserErrorView>(
                CommandStepView::Commit(op@),
            ),
            Err(e) => command_result(s) == Err::<CommandStepView, UserErrorView>(e@),
        },
{
    match r {
        Ok(op) => Ok(CommandStep::Commit(op)),
        Err(e) => Err(e),
    }
}

/// Runs a command of user management up to the point where it needs the
/// operator or the users file. `users` is the content of that file,
/// `interactive` says whether there is a terminal.
pub fn run_user_command(action: UserAction, users: &UsersConfig, interactive: bool) -> (r: Result<
    CommandStep,
    UserError,
>)
    ensures
        command_result(r) == command_step(action, users@, interactive),
{
    match action {
        UserAction::Add { name } => match check_new_user(users, &name) {
            Ok(()) => Ok(CommandStep::AskPasswordForNew(name)),
            Err(e) => Err(e),
        },
        UserAction::AddInit { name } => commit(add_init_user(users, &name)),
        UserAction::SetPassword { name } => match find_user(users, &name) {
            Ok(_) => Ok(CommandStep::AskPasswordForExisting(name)),
            Err(e) => Err(e),
        },
        UserAction::Remove { name, yes } => match find_user(users, &name) {
            Ok(_) => {
                if !yes && interactive {
                    let question = join(&join("Remove user '", &name), "'?");
                    Ok(CommandStep::AskRemoval { name, question })
                } else {
                    Ok(CommandStep::Commit(UserOp::Remove { name }))
                }
            },
            Err(e) => Err(e),
        },
        UserAction::List => Ok(CommandStep::Print(list_users(users))),
        UserAction::Enable { name } => commit(set_enabled(users, &name, true)),
        UserAction::Disable { name } => commit(set_enabled(users, &name, false)),
        UserAction::Direct { name } => commit(set_direct(users, &name, true)),
        UserAction::Pool { name } => commit(set_direct(users, &name, false)),
    }
}

/// The list of users tells nothing of a hash.
pub proof fn list_tells_no_hash(users1: Seq<UserView>, users2: Seq<UserView>)
    requires
        users1.len() == users2.len(),
        forall|i: int|
            0 <= i < users1.len() ==> (#[trigger] users1[i]).name == users2[i].name
                && users1[i].is_enabled == users2[i].is_enabled && users1[i].direct
                == users2[i].direct,
    ensures
        user_lines(users1) == user_lines(users2),
{
    assert forall|i: int| 0 <= i < users1.len() implies user_row(#[trigger] users1[i]) == user_row(
        users2[i],
    ) by {}
    assert(user_lines(users1) =~= user_lines(users2));
}

/// A user can be added only under a name that every client can send and that
/// is still free. With a password or without, the new account stands at the
/// end of the list, enabled and routed through the pool.
pub proof fn added_user_starts_in_the_pool(users: Seq<UserView>, name: Seq<char>, hash: Seq<char>)
    requires
        add_problem(users, name) is None,
    ensures
        name.len() > 0,
        encode_utf8(name).len() <= MAX_FIELD_BYTES,
        !name.contains(':'),
        applied(UserOpView::Add(new_user(name, hash)), users) == Ok::<Seq<UserView>, UserErrorView>(
            users.push(UserView { name, hash, is_enabled: true, direct: false }),
        ),
        add_init_of(users, name) matches Ok(op) && applied(op, users) == Ok::<
            Seq<UserView>,
            UserErrorView,
        >(users.push(UserView { name, hash: INIT_HASH@, is_enabled: true, direct: false })),
{
}

/// A name is in order if it is not empty, at most 255 bytes long and without a
/// colon; a password if it is not empty and at most 255 bytes long. What is
/// wrong is told in this order.
pub proof fn names_and_passwords_in_order(s: Seq<char>)
    ensures
        name_problem(s) is None <==> s.len() > 0 && encode_utf8(s).len() <= 255 && !s.contains(':'),
        s.len() == 0 ==> name_problem(s) == Some(UserErrorView::NameEmpty),
        encode_utf8(s).len() > 255 && s.len() > 0 ==> name_problem(s) == Some(
            UserErrorView::NameTooLong,
        ),
        encode_utf8(s).len() <= 255 && s.contains(':') ==> name_problem(s) == Some(
            UserErrorView::NameHasColon,
        ),
        password_problem(s) is None <==> s.len() > 0 && encode_utf8(s).len() <= 255,
        s.len() == 0 ==> password_problem(s) == Some(UserErrorView::PasswordEmpty),
        encode_utf8(s).len() > 255 && s.len() > 0 ==> password_problem(s) == Some(
            UserErrorView::PasswordTooLong,
        ),
{
}

/// A user can be added under any name that is in order and that no account has.
pub proof fn free_name_can_be_added(users: Seq<UserView>, name: Seq<char>)
    requires
        name.len() > 0,
        encode_utf8(name).len() <= 255,
        !name.contains(':'),
    ensures
        (forall|i: int| 0 <= i < users.len() ==> (#[trigger] users[i]).name != name)
            ==> add_problem(users, name) is None,
        (exists|i: int| 0 <= i < users.len() && (#[trigger] users[i]).name == name) ==> add_problem(
            users,
            name,
        ) == Some(UserErrorView::AlreadyExists(name)),
{
    lemma_position_from(users, name, 0);
}

/// A result is told as it is.
pub proof fn results_are_told_as_they_are(
    e: UserError,
    op: UserOp,
    step: CommandStep,
    problem: Option<UserErrorView>,
    expected: Result<UserOpView, UserErrorView>,
)
    ensures
        reports(Ok(()), problem) <==> problem is None,
        reports(Err(e), problem) <==> problem == Some(e@),
        gives(Ok(op), expected) <==> expected == Ok::<UserOpView, UserErrorView>(op@),
        gives(Err(e), expected) <==> expected == Err::<UserOpView, UserErrorView>(e@),
        command_result(Ok(step)) == Ok::<CommandStepView, UserErrorView>(step@),
        command_result(Err(e)) == Err::<CommandStepView, UserErrorView>(e@),
        match op {
            UserOp::Add(user) => op@ == UserOpView::Add(user@),
            UserOp::AddInit(user) => op@ == UserOpView::AddInit(user@),
            UserOp::SetPassword { name, hash } => op@ == (UserOpView::SetPassword {
                name: name@,
                hash: hash@,
            }),
            UserOp::Remove { name } => op@ == (UserOpView::Remove { name: name@ }),
            UserOp::SetEnabled { name, enabled } => op@ == (UserOpView::SetEnabled {
                name: name@,
                enabled,
            }),
            UserOp::SetDirect { name, direct } => op@ == (UserOpView::SetDirect {
                name: name@,
                direct,
            }),
        },
        match step {
            CommandStep::Print(lines) => step@ == CommandStepView::Print(texts(lines@)),
            CommandStep::AskPasswordForNew(name) => step@ == CommandStepView::AskPasswordForNew(
                name@,
            ),
            CommandStep::AskPasswordForExisting(name) => step@
                == CommandStepView::AskPasswordForExisting(name@),
            CommandStep::AskRemoval { name, question } => step@ == (CommandStepView::AskRemoval {
                name: name@,
                question: question@,
            }),
            CommandStep::Commit(op) => step@ == CommandStepView::Commit(op@),
        },
{
}

/// What confirms: `y`, `Y`, `yes` or `Yes`, with any white space around it.
pub proof fn confirmation_is_yes(l: Seq<char>, answer: Seq<char>, r: Seq<char>)
    requires
        all_meet(l, |c: char| is_white_space(c)),
        all_meet(r, |c: char| is_white_space(c)),
        ends_fail(answer, |c: char| is_white_space(c)),
    ensures
        is_yes(l + answer + r) <==> answer == seq!['y'] || answer == seq!['Y'] || answer
            == seq!['y', 'e', 's'] || answer == seq!['Y', 'e', 's'],
{
    trim_gives_back_the_text(l, answer, r);
    reveal_strlit("y");
    reveal_strlit("Y");
    reveal_strlit("yes");
    reveal_strlit("Yes");
    assert("y"@ =~= seq!['y']);
    assert("Y"@ =~= seq!['Y']);
    assert("yes"@ =~= seq!['y', 'e', 's']);
    assert("Yes"@ =~= seq!['Y', 'e', 's']);
}

/// A text with spaces behind it up to a width, and nothing cut off.
pub proof fn padding_adds_only_spaces(s: Seq<char>, width: nat)
    ensures
        padded(s, width).len() == (if s.len() < width {
            width
        } else {
            s.len()
        }),
        padded(s, width).take(s.len() as int) == s,
        forall|i: int|
            s.len() <= i < padded(s, width).len() ==> #[trigger] padded(s, width)[i] == ' ',
{
    assert(padded(s, width).take(s.len() as int) =~= s);
}

/// The list has a line for every account, in their order, below a heading: the
/// whole name, whether it is enabled, and how it is routed.
pub proof fn list_shows_every_account(users: Seq<UserView>, i: int)
    requires
        0 <= i < users.len(),
    ensures
        user_lines(users).len() == users.len() + 1,
        user_lines(users)[i + 1] == padded(users[i].name, 24) + " "@ + padded(
            if users[i].is_enabled {
                "enabled"@
            } else {
                "disabled"@
            },
            10,
        ) + " "@ + padded(
            if users[i].direct {
                "direct"@
            } else {
                "pool"@
            },
            6,
        ),
        user_lines(users)[0] == padded("NAME"@, 24) + " "@ + padded("STATUS"@, 10) + " "@ + padded(
            "MODE"@,
            6,
        ),
{
}

/// A command on an account becomes the change of that account that it names.
pub proof fn command_becomes_its_change(
    users: Seq<UserView>,
    name: String,
    i: int,
    interactive: bool,
)
    requires
        stands_first(users, name@, i),
    ensures
        command_step(UserAction::Enable { name }, users, interactive) == Ok::<
            CommandStepView,
            UserErrorView,
        >(CommandStepView::Commit(UserOpView::SetEnabled { name: name@, enabled: true })),
        command_step(UserAction::Disable { name }, users, interactive) == Ok::<
            CommandStepView,
            UserErrorView,
        >(CommandStepView::Commit(UserOpView::SetEnabled { name: name@, enabled: false })),
        command_step(UserAction::Direct { name }, users, interactive) == Ok::<
            CommandStepView,
            UserErrorView,
        >(CommandStepView::Commit(UserOpView::SetDirect { name: name@, direct: true })),
        command_step(UserAction::Pool { name }, users, interactive) == Ok::<
            CommandStepView,
            UserErrorView,
        >(CommandStepView::Commit(UserOpView::SetDirect { name: name@, direct: false })),
        command_step(UserAction::SetPassword { name }, users, interactive) == Ok::<
            CommandStepView,
            UserErrorView,
        >(CommandStepView::AskPasswordForExisting(name@)),
        command_step(UserAction::Remove { name, yes: true }, users, interactive) == Ok::<
            CommandStepView,
            UserErrorView,
        >(CommandStepView::Commit(UserOpView::Remove { name: name@ })),
        command_step(UserAction::Remove { name, yes: false }, users, false) == Ok::<
            CommandStepView,
            UserErrorView,
        >(CommandStepView::Commit(UserOpView::Remove { name: name@ })),
        command_step(UserAction::Remove { name, yes: false }, users, true) == Ok::<
            CommandStepView,
            UserErrorView,
        >(
            CommandStepView::AskRemoval {
                name: name@,
                question: "Remove user '"@ + name@ + "'?"@,
            },
        ),
{
    lemma_position_is(users, name@, i);
}

/// A command on an account that is not there is refused; a new one needs a
/// name in order that is still free.
pub proof fn command_needs_its_account(
    users: Seq<UserView>,
    name: String,
    yes: bool,
    interactive: bool,
)
    requires
        forall|i: int| 0 <= i < users.len() ==> (#[trigger] users[i]).name != name@,
    ensures
        ({
            let missing = Err::<CommandStepView, UserErrorView>(UserErrorView::NotFound(name@));
            &&& command_step(UserAction::Enable { name }, users, interactive) == missing
            &&& command_step(UserAction::Disable { name }, users, interactive) == missing
            &&& command_step(UserAction::Direct { name }, users, interactive) == missing
            &&& command_step(UserAction::Pool { name }, users, interactive) == missing
            &&& command_step(UserAction::SetPassword { name }, users, interactive) == missing
            &&& command_step(UserAction::Remove { name, yes }, users, interactive) == missing
        }),
        name@.len() > 0 && encode_utf8(name@).len() <= 255 && !name@.contains(':') ==> {
            &&& command_step(UserAction::Add { name }, users, interactive) == Ok::<
                CommandStepView,
                UserErrorView,
            >(CommandStepView::AskPasswordForNew(name@))
            &&& command_step(UserAction::AddInit { name }, users, interactive) == Ok::<
                CommandStepView,
                UserErrorView,
            >(
                CommandStepView::Commit(
                    UserOpView::AddInit(
                        UserView { name: name@, hash: "init"@, is_enabled: true, direct: false },
                    ),
                ),
            )
        },
{
    lemma_position_from(users, name@, 0);
}

} // verus!
