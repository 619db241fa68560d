//! The user accounts.

use vstd::prelude::*;

use crate::text::same_text;

verus! {

/// The file that holds the users.
pub const USERS_PATH: &'static str = "resocks5.users.ktav";

/// The hash of an account whose password has not been chosen yet: the first
/// client that logs in sets it. Any other hash is an Argon2id PHC string.
pub const INIT_HASH: &'static str = "init";

/// One account.
#[derive(Debug)]
pub struct User {
    pub name: String,
    pub hash: String,
    pub is_enabled: bool,
    /// Traffic leaves from this server instead of an upstream proxy.
    pub direct: bool,
}

/// [`User`] over the views of its texts.
pub struct UserView {
    pub name: Seq<char>,
    pub hash: Seq<char>,
    pub is_enabled: bool,
    pub direct: bool,
}

impl View for User {
    type V = UserView;

    open spec fn view(&self) -> UserView {
        UserView {
            name: self.name@,
            hash: self.hash@,
            is_enabled: self.is_enabled,
            direct: self.direct,
        }
    }
}

impl Clone for User {
    fn clone(&self) -> (r: Self)
        ensures
            r@ == self@,
    {
        User {
            name: self.name.clone(),
            hash: self.hash.clone(),
            is_enabled: self.is_enabled,
            direct: self.direct,
        }
    }
}

/// A list of accounts over views.
pub open spec fn users_view(users: Seq<User>) -> Seq<UserView> {
    Seq::new(users.len(), |i: int| users[i]@)
}

/// The content of the users file.
#[derive(Debug)]
pub struct UsersConfig {
    pub users: Vec<User>,
}

impl View for UsersConfig {
    type V = Seq<UserView>;

    open spec fn view(&self) -> Seq<UserView> {
        users_view(self.users@)
    }
}

impl Default for UsersConfig {
    fn default() -> (r: Self)
        ensures
            r@ == Seq::<UserView>::empty(),
    {
        let r = UsersConfig { users: Vec::new() };
        assert(r@ =~= Seq::<UserView>::empty());
        r
    }
}

impl Clone for UsersConfig {
    fn clone(&self) -> (r: Self)
        ensures
            r@ == self@,
    {
        UsersConfig { users: clone_users(&self.users) }
    }
}

/// A copy of a list of accounts.
pub fn clone_users(users: &Vec<User>) -> (r: Vec<User>)
    ensures
        users_view(r@) == users_view(users@),
{
    let mut r: Vec<User> = Vec::new();
    let mut i: usize = 0;
    while i < users.len()
        invariant
            i <= users@.len(),
            r@.len() == i,
            forall|j: int| 0 <= j < i ==> (#[trigger] r@[j])@ == users@[j]@,
        decreases users@.len() - i,
    {
        r.push(users[i].clone());
        i += 1;
    }
    assert(users_view(r@) =~= users_view(users@));
    r
}

/// The first position from `from` on of an account with this name.
pub open spec fn position_from(users: Seq<UserView>, name: Seq<char>, from: int) -> Option<int>
    decreases users.len() - from,
{
    if from >= users.len() {
        None
    } else if users[from].name == name {
        Some(from)
    } else {
        position_from(users, name, from + 1)
    }
}

/// The first position of an account with this name.
pub open spec fn position_of(users: Seq<UserView>, name: Seq<char>) -> Option<int> {
    position_from(users, name, 0)
}

/// `position_from` is the least position from `from` on with the name.
pub proof fn lemma_position_from(users: Seq<UserView>, name: Seq<char>, from: int)
    requires
        0 <= from,
    ensures
        match position_from(users, name, from) {
            Some(i) => from <= i < users.len() && users[i].name == name && forall|j: int|
                from <= j < i ==> (#[trigger] users[j]).name != name,
            None => forall|j: int| from <= j < users.len() ==> (#[trigger] users[j]).name != name,
        },
    decreases users.len() - from,
{
    if from < users.len() && users[from].name != name {
        lemma_position_from(users, name, from + 1);
    }
}

/// The first position with a name is determined by being that.
pub proof fn lemma_position_is(users: Seq<UserView>, name: Seq<char>, i: int)
    requires
        0 <= i < users.len(),
        users[i].name == name,
        forall|j: int| 0 <= j < i ==> (#[trigger] users[j]).name != name,
    ensures
        position_of(users, name) == Some(i),
{
    lemma_position_from(users, name, 0);
}

/// Whether `i` is the first position of a name.
pub open spec fn stands_first(users: Seq<UserView>, name: Seq<char>, i: int) -> bool {
    &&& 0 <= i < users.len()
    &&& users[i].name == name
    &&& forall|j: int| 0 <= j < i ==> (#[trigger] users[j]).name != name
}

/// The first position of an account with this name.
pub fn position(users: &Vec<User>, name: &str) -> (r: Option<usize>)
    ensures
        match r {
            Some(i) => position_of(users_view(users@), name@) == Some(i as int) && i < users@.len(),
            None => position_of(users_view(users@), name@) is None,
        },
{
    let ghost view = users_view(users@);
    let mut i: usize = 0;
    while i < users.len()
        invariant
            i <= users@.len(),
            view == users_view(users@),
            position_of(view, name@) == position_from(view, name@, i as int),
        decreases users@.len() - i,
    {
        assert(view[i as int].name == users@[i as int].name@);
        if same_text(&users[i].name, name) {
            return Some(i);
        }
        i += 1;
    }
    None
}

/// Replaces the hash of one account.
pub fn set_hash(users: &mut Vec<User>, index: usize, hash: &str)
    requires
        index < old(users)@.len(),
    ensures
        users_view(final(users)@) == users_view(old(users)@).update(
            index as int,
            (UserView { hash: hash@, ..users_view(old(users)@)[index as int] }),
        ),
{
    users[index].hash = hash.to_owned();
    assert(users_view(users@) =~= users_view(old(users)@).update(
        index as int,
        UserView { hash: hash@, ..users_view(old(users)@)[index as int] },
    ));
}

/// A name belongs to the first account that has it.
pub proof fn name_belongs_to_its_first_account(users: Seq<UserView>, name: Seq<char>)
    ensures
        match position_of(users, name) {
            Some(i) => stands_first(users, name, i),
            None => forall|i: int| 0 <= i < users.len() ==> (#[trigger] users[i]).name != name,
        },
{
    lemma_position_from(users, name, 0);
}

/// What is known of an account and of a list is what they hold.
pub proof fn view_is_what_an_account_holds(user: User, list: UsersConfig, i: int)
    ensures
        user@.name == user.name@,
        user@.hash == user.hash@,
        user@.is_enabled == user.is_enabled,
        user@.direct == user.direct,
        list@.len() == list.users@.len(),
        0 <= i < list.users@.len() ==> list@[i] == list.users@[i]@,
        users_view(list.users@) == list@,
{
}

} // verus!
