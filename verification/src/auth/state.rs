//! The server-side authentication state.

use std::collections::hash_map::RandomState;

use dashmap::DashMap;
use vstd::hash_map::StringHashMap;
use vstd::prelude::*;
use vstd::utf8::encode_utf8;

use crate::auth::hash::{
    argon2_verify, argon2id_phc, cache_tag, compute_cache_hmac, draw_bytes, hash_accepts,
    hash_with_salt, is_password_hash, no_random_bytes, random_error_text, tags_equal, AuthError,
    M_KIB, P, T,
};
use crate::config::main_config::AuthConfig;
use crate::config::users::{
    clone_users, lemma_position_from, lemma_position_is, position_of, set_hash,
    users_view, User, UserView, UsersConfig, INIT_HASH,
};
use crate::text::same_text;

verus! {

/// `dashmap`'s concurrent map.
#[verifier::external_type_specification]
#[verifier::external_body]
#[verifier::reject_recursive_types(K)]
#[verifier::reject_recursive_types(V)]
#[verifier::reject_recursive_types(S)]
pub struct ExDashMap<K, V, S>(DashMap<K, V, S>);

/// The tags that a cache holds, by user name.
pub uninterp spec fn cached_tags(cache: DashMap<String, [u8; 32], RandomState>) -> Map<
    Seq<char>,
    Seq<u8>,
>;

/// Calls `DashMap::new`: an empty map.
#[verifier::external_body]
fn new_cache() -> (r: DashMap<String, [u8; 32], RandomState>)
    ensures
        cached_tags(r).dom() == Set::<Seq<char>>::empty(),
{
    DashMap::new()
}

/// Calls `DashMap::get` and copies the value: the tag under a name, if any.
#[verifier::external_body]
fn cached_tag(cache: &DashMap<String, [u8; 32], RandomState>, name: &str) -> (r: Option<[u8; 32]>)
    ensures
        match r {
            Some(tag) => cached_tags(*cache).contains_key(name@) && tag@ == cached_tags(
                *cache,
            )[name@],
            None => !cached_tags(*cache).contains_key(name@),
        },
{
    cache.get(name).map(|entry| *entry.value())
}

/// Calls `DashMap::insert`: sets the tag under a name. The map changes through
/// a shared reference there; it is taken as mutable here so that no reference
/// into it is alive.
#[verifier::external_body]
fn cache_login(cache: &mut DashMap<String, [u8; 32], RandomState>, name: String, tag: [u8; 32])
    ensures
        cached_tags(*final(cache)) == cached_tags(*old(cache)).insert(name@, tag@),
{
    cache.insert(name, tag);
}

/// What the lookup needs of an account, by name.
#[derive(Clone, Copy)]
struct UserEntry {
    index: usize,
    enabled: bool,
    direct: bool,
}

/// Server-side authentication: a snapshot of the users, the policy flag, the
/// secret of this process and the cache of verified logins.
///
/// Users are a snapshot. Only a claim, the first login of an account whose
/// hash is still [`INIT_HASH`], changes a hash at run time.
pub struct AuthState {
    users: Vec<User>,
    entries: StringHashMap<UserEntry>,
    /// Whether a client without credentials is accepted.
    pub allow_anonymous: bool,
    server_secret: [u8; 32],
    cache: DashMap<String, [u8; 32], RandomState>,
    users_path: String,
}

/// [`AuthState`] over views.
#[verifier::ext_equal]
pub struct AuthView {
    pub users: Seq<UserView>,
    pub allow_anonymous: bool,
    pub secret: Seq<u8>,
    pub cache: Map<Seq<char>, Seq<u8>>,
    pub users_path: Seq<char>,
}

impl View for AuthState {
    type V = AuthView;

    closed spec fn view(&self) -> AuthView {
        AuthView {
            users: users_view(self.users@),
            allow_anonymous: self.allow_anonymous,
            secret: self.server_secret@,
            cache: cached_tags(self.cache),
            users_path: self.users_path@,
        }
    }
}

/// The account that a name logs in to: the first one of that name.
pub open spec fn account(v: AuthView, name: Seq<char>) -> Option<UserView> {
    match position_of(v.users, name) {
        Some(i) => Some(v.users[i]),
        None => None,
    }
}

/// Whether a login of this name with this tag is remembered.
pub open spec fn remembered(v: AuthView, name: Seq<char>, tag: Seq<u8>) -> bool {
    v.cache.contains_key(name) && v.cache[name] == tag
}

/// The state in which a login is remembered.
pub open spec fn remember(v: AuthView, name: Seq<char>, tag: Seq<u8>) -> AuthView {
    AuthView { cache: v.cache.insert(name, tag), ..v }
}

/// The state in which the account at `index` has this hash.
pub open spec fn with_hash(v: AuthView, index: int, hash: Seq<char>) -> AuthView {
    AuthView { users: v.users.update(index, UserView { hash, ..v.users[index] }), ..v }
}

/// The names among the accounts.
pub open spec fn names_of(users: Seq<UserView>) -> Set<Seq<char>> {
    users.map_values(|u: UserView| u.name).to_set()
}

/// Whether the entries are exactly the first accounts of their names.
spec fn entries_match(entries: Map<Seq<char>, UserEntry>, users: Seq<UserView>) -> bool {
    &&& forall|name: Seq<char>| #[trigger]
        entries.contains_key(name) <==> position_of(users, name) is Some
    &&& forall|name: Seq<char>| #[trigger]
        entries.contains_key(name) ==> {
            let i = position_of(users, name)->0;
            &&& entries[name].index == i
            &&& entries[name].enabled == users[i].is_enabled
            &&& entries[name].direct == users[i].direct
        }
}

/// The entries of the first `n` accounts.
proof fn lemma_entries_push(
    entries: Map<Seq<char>, UserEntry>,
    users: Seq<UserView>,
    n: int,
    entry: UserEntry,
)
    requires
        0 <= n < users.len(),
        n <= usize::MAX,
        entries_match(entries, users.take(n)),
        entry.index == n,
        entry.enabled == users[n].is_enabled,
        entry.direct == users[n].direct,
    ensures
        entries.contains_key(users[n].name) ==> entries_match(entries, users.take(n + 1)),
        !entries.contains_key(users[n].name) ==> entries_match(
            entries.insert(users[n].name, entry),
            users.take(n + 1),
        ),
{
    let before = users.take(n);
    let after = users.take(n + 1);
    let added = users[n].name;
    assert forall|name: Seq<char>| name != added || entries.contains_key(added) implies position_of(
        after,
        name,
    ) == position_of(before, name) by {
        lemma_position_from(before, name, 0);
        lemma_position_from(after, name, 0);
        match position_of(before, name) {
            Some(i) => {
                assert(after[i] == before[i]);
                assert forall|j: int| 0 <= j < i implies (#[trigger] after[j]).name != name by {
                    assert(after[j] == before[j]);
                }
                lemma_position_is(after, name, i);
            },
            None => {
                match position_of(after, name) {
                    Some(i) => {
                        if i < n {
                            assert(after[i] == before[i]);
                        }
                    },
                    None => {},
                }
            },
        }
    }
    if !entries.contains_key(added) {
        lemma_position_from(before, added, 0);
        assert forall|j: int| 0 <= j < n implies (#[trigger] after[j]).name != added by {
            assert(after[j] == before[j]);
        }
        lemma_position_is(after, added, n);
    }
    assert forall|name: Seq<char>| position_of(before, name) is Some implies before[position_of(
        before,
        name,
    )->0] == after[position_of(before, name)->0] by {
        lemma_position_from(before, name, 0);
    }
}

/// A changed hash moves no account.
pub proof fn lemma_positions_keep(users: Seq<UserView>, index: int, hash: Seq<char>, name: Seq<char>)
    requires
        0 <= index < users.len(),
    ensures
        position_of(users.update(index, UserView { hash, ..users[index] }), name) == position_of(
            users,
            name,
        ),
{
    let changed = users.update(index, UserView { hash, ..users[index] });
    lemma_position_from(users, name, 0);
    lemma_position_from(changed, name, 0);
    match position_of(users, name) {
        Some(i) => {
            assert forall|j: int| 0 <= j < i implies (#[trigger] changed[j]).name != name by {
                assert(changed[j].name == users[j].name);
            }
            lemma_position_is(changed, name, i);
        },
        None => {
            match position_of(changed, name) {
                Some(i) => {
                    assert(users[i].name == changed[i].name);
                },
                None => {},
            }
        },
    }
}

/// A changed hash leaves the entries as they are.
proof fn lemma_entries_keep(
    entries: Map<Seq<char>, UserEntry>,
    users: Seq<UserView>,
    index: int,
    hash: Seq<char>,
)
    requires
        0 <= index < users.len(),
        entries_match(entries, users),
    ensures
        entries_match(entries, users.update(index, UserView { hash, ..users[index] })),
{
    let changed = users.update(index, UserView { hash, ..users[index] });
    assert forall|name: Seq<char>| #[trigger]
        entries.contains_key(name) <==> position_of(changed, name) is Some by {
        lemma_positions_keep(users, index, hash, name);
    }
    assert forall|name: Seq<char>| #[trigger] entries.contains_key(name) implies {
        let i = position_of(changed, name)->0;
        &&& entries[name].index == i
        &&& entries[name].enabled == changed[i].is_enabled
        &&& entries[name].direct == changed[i].direct
    } by {
        lemma_positions_keep(users, index, hash, name);
        lemma_position_from(users, name, 0);
    }
}

impl AuthState {
    /// Whether the lookup table agrees with the users.
    pub closed spec fn wf(self) -> bool {
        entries_match(self.entries@, users_view(self.users@))
    }

    /// Builds the state around a given secret.
    pub fn with_secret(
        auth_cfg: &AuthConfig,
        users: &UsersConfig,
        users_path: String,
        server_secret: [u8; 32],
    ) -> (r: Self)
        ensures
            r.wf(),
            r@ == (AuthView {
                users: users@,
                allow_anonymous: auth_cfg.allow_anonymous,
                secret: server_secret@,
                cache: Map::empty(),
                users_path: users_path@,
            }),
    {
        let mut entries: StringHashMap<UserEntry> = StringHashMap::with_capacity(
            users.users.len(),
        );
        let ghost all = users@;
        let mut i: usize = 0;
        assert(entries_match(entries@, all.take(0)));
        while i < users.users.len()
            invariant
                i <= users.users@.len(),
                all == users_view(users.users@),
                entries_match(entries@, all.take(i as int)),
            decreases users.users@.len() - i,
        {
            let user = &users.users[i];
            let entry = UserEntry { index: i, enabled: user.is_enabled, direct: user.direct };
            proof {
                assert(all[i as int] == user@);
                lemma_entries_push(entries@, all, i as int, entry);
            }
            if !entries.contains_key(&user.name) {
                entries.insert(user.name.clone(), entry);
            }
            i += 1;
        }
        assert(all.take(all.len() as int) =~= all);
        let cache = new_cache();
        assert(cached_tags(cache) =~= Map::<Seq<char>, Seq<u8>>::empty());
        AuthState {
            users: clone_users(&users.users),
            entries,
            allow_anonymous: auth_cfg.allow_anonymous,
            server_secret,
            cache,
            users_path,
        }
    }

    /// Builds the state with a fresh random secret. Fails only if the
    /// operating system has no random bytes.
    pub fn build(auth_cfg: &AuthConfig, users: &UsersConfig, users_path: String) -> (r: Result<
        Self,
        AuthError,
    >)
        ensures
            match r {
                Ok(s) => {
                    &&& s.wf()
                    &&& s@.secret.len() == 32
                    &&& s@ == (AuthView {
                        users: users@,
                        allow_anonymous: auth_cfg.allow_anonymous,
                        secret: s@.secret,
                        cache: Map::empty(),
                        users_path: users_path@,
                    })
                },
                Err(e) => e is Random && no_random_bytes::<32>(),
            },
    {
        match draw_bytes::<32>() {
            Ok(secret) => Ok(Self::with_secret(auth_cfg, users, users_path, secret)),
            Err(e) => Err(AuthError::Random(random_error_text(&e))),
        }
    }

    /// True when no users are configured.
    pub fn is_empty(&self) -> (r: bool)
        requires
            self.wf(),
        ensures
            r == (self@.users.len() == 0),
    {
        proof {
            let users = users_view(self.users@);
            if users.len() > 0 {
                lemma_position_from(users, users[0].name, 0);
                assert(self.entries@.contains_key(users[0].name));
            } else {
                assert forall|name: Seq<char>| !self.entries@.contains_key(name) by {
                    assert(position_of(users, name) is None);
                }
                assert(self.entries@ =~= Map::empty());
            }
        }
        self.entries.is_empty()
    }

    /// Whether a client without credentials is accepted.
    pub fn allows_anonymous(&self) -> (r: bool)
        ensures
            r == self@.allow_anonymous,
    {
        self.allow_anonymous
    }

    /// The number of configured users: accounts of one name count once,
    /// unclaimed ones count.
    pub fn users_count(&self) -> (r: usize)
        requires
            self.wf(),
        ensures
            r == names_of(self@.users).len(),
    {
        proof {
            let users = users_view(self.users@);
            let names = users.map_values(|u: UserView| u.name);
            assert forall|name: Seq<char>| self.entries@.dom().contains(name) <==> names_of(
                users,
            ).contains(name) by {
                lemma_position_from(users, name, 0);
                if self.entries@.contains_key(name) {
                    let i = position_of(users, name)->0;
                    assert(names[i] == name);
                }
                if names.to_set().contains(name) {
                    let i = choose|i: int| 0 <= i < names.len() && names[i] == name;
                    assert(users[i].name == name);
                }
            }
            assert(self.entries@.dom() =~= names_of(users));
        }
        self.entries.len()
    }

    /// Whether the named user exists, is enabled and bypasses the pool.
    pub fn is_direct(&self, name: &str) -> (r: bool)
        requires
            self.wf(),
        ensures
            r == (account(self@, name@) matches Some(u) && u.is_enabled && u.direct),
    {
        proof {
            lemma_position_from(users_view(self.users@), name@, 0);
        }
        match self.entries.get(name) {
            Some(u) => u.enabled && u.direct,
            None => false,
        }
    }
}

/// The longest password that a SOCKS5 client can send, in bytes: its length
/// field is one byte (RFC 1929).
pub const MAX_PASSWORD_BYTES: usize = 255;

/// Whether a password can claim an account: not empty, and short enough to be
/// sent in full by any client.
pub open spec fn claimable(password: Seq<char>) -> bool {
    password.len() > 0 && encode_utf8(password).len() <= MAX_PASSWORD_BYTES
}

/// What the state knows of a login before any hashing.
pub enum Lookup {
    /// Unknown or disabled user.
    Rejected,
    /// The same login was verified before.
    Remembered,
    /// The account has a password, with this hash.
    Committed(String),
    /// The account waits for its first login.
    Unclaimed,
}

/// [`Lookup`] over views.
pub enum LookupView {
    Rejected,
    Remembered,
    Committed(Seq<char>),
    Unclaimed,
}

impl View for Lookup {
    type V = LookupView;

    open spec fn view(&self) -> LookupView {
        match self {
            Lookup::Rejected => LookupView::Rejected,
            Lookup::Remembered => LookupView::Remembered,
            Lookup::Committed(h) => LookupView::Committed(h@),
            Lookup::Unclaimed => LookupView::Unclaimed,
        }
    }
}

/// What a state knows of a login.
pub open spec fn lookup_of(v: AuthView, name: Seq<char>, tag: Seq<u8>) -> LookupView {
    match account(v, name) {
        None => LookupView::Rejected,
        Some(u) => if !u.is_enabled {
            LookupView::Rejected
        } else if remembered(v, name, tag) {
            LookupView::Remembered
        } else if u.hash != INIT_HASH@ {
            LookupView::Committed(u.hash)
        } else {
            LookupView::Unclaimed
        },
    }
}

/// A claim that still has to be persisted and published. There is no `Debug`
/// here, nor on the types around it, so that no hash is ever rendered.
pub struct ClaimWork {
    name: String,
    candidate_hmac: [u8; 32],
    index: usize,
    new_hash: String,
}

/// [`ClaimWork`] over views.
pub struct ClaimWorkView {
    pub name: Seq<char>,
    pub tag: Seq<u8>,
    pub index: int,
    pub new_hash: Seq<char>,
}

impl View for ClaimWork {
    type V = ClaimWorkView;

    closed spec fn view(&self) -> ClaimWorkView {
        ClaimWorkView {
            name: self.name@,
            tag: self.candidate_hmac@,
            index: self.index as int,
            new_hash: self.new_hash@,
        }
    }
}

impl ClaimWork {
    /// The account that is claimed.
    pub fn name(&self) -> (r: &str)
        ensures
            r@ == self@.name,
    {
        &self.name
    }

    /// The hash to persist.
    pub fn new_hash(&self) -> (r: &str)
        ensures
            r@ == self@.new_hash,
    {
        &self.new_hash
    }
}

/// The end of the hashing phase: an answer, or a claim to commit.
pub enum Prepared {
    Done(bool),
    Claim(ClaimWork),
}

/// The end of the persistence phase: an answer, or a committed hash that the
/// password has to be checked against.
pub enum ClaimOutcome {
    Done(bool),
    VerifyAgainst(String),
}

/// What a claim has to do next.
pub enum ClaimStep {
    /// The account was claimed meanwhile; this login is an ordinary one.
    VerifyAgainst(String),
    /// Write the claim. The list is what to write where there is no users
    /// file to merge the claim into.
    Persist(Option<Vec<User>>),
}

/// What became of the attempt to persist a claim.
pub enum ClaimPersist {
    /// The claimed hash is in the users file.
    Written,
    /// The file has another hash for the account by now; nothing was written.
    DiskHashChanged(String),
    /// The write was not reported as done, for this reason. Mostly nothing was
    /// written; where the failure came after the file was replaced, the claim
    /// may be in the file all the same.
    Failed(String),
}

/// The state after a login was checked against the account's hash.
pub open spec fn after_check(
    v: AuthView,
    name: Seq<char>,
    tag: Seq<u8>,
    accepted: bool,
) -> AuthView {
    if accepted {
        remember(v, name, tag)
    } else {
        v
    }
}

/// The state after a claim was persisted, or was not.
pub open spec fn after_claim(v: AuthView, work: ClaimWorkView, persist: ClaimPersist) -> AuthView {
    match persist {
        ClaimPersist::Written => remember(
            with_hash(v, work.index, work.new_hash),
            work.name,
            work.tag,
        ),
        ClaimPersist::DiskHashChanged(h) => with_hash(v, work.index, h@),
        ClaimPersist::Failed(_) => with_hash(v, work.index, INIT_HASH@),
    }
}

/// Whether an outcome is the one that a persisted claim has.
pub open spec fn is_outcome(r: ClaimOutcome, persist: ClaimPersist) -> bool {
    match persist {
        ClaimPersist::Written => r == ClaimOutcome::Done(true),
        ClaimPersist::DiskHashChanged(h) => r matches ClaimOutcome::VerifyAgainst(s) && s@ == h@,
        ClaimPersist::Failed(_) => r == ClaimOutcome::Done(false),
    }
}

/// Whether a password can claim an account.
fn can_claim(password: &str) -> (r: bool)
    ensures
        r == claimable(password@),
{
    !password.is_empty() && password.as_bytes().len() <= MAX_PASSWORD_BYTES
}

/// The hash for a claim with this password under a salt; `None` for a password
/// that can claim nothing.
pub open spec fn claim_hash_of(password: Seq<char>, salt: Seq<u8>) -> Option<Seq<char>> {
    if claimable(password) {
        Some(argon2id_phc(encode_utf8(password), salt, M_KIB, T, P))
    } else {
        None
    }
}

/// An optional hash over its view.
pub open spec fn hash_view(h: Option<String>) -> Option<Seq<char>> {
    match h {
        Some(h) => Some(h@),
        None => None,
    }
}

/// Hashes the password of a claim under a given salt.
pub fn claim_hash_with_salt(password: &str, salt: &[u8; 16]) -> (r: Option<String>)
    ensures
        hash_view(r) == claim_hash_of(password@, salt@),
        r matches Some(h) ==> is_password_hash(h@, password@) && h@ != INIT_HASH@,
{
    if !can_claim(password) {
        return None;
    }
    match hash_with_salt(password, salt) {
        Ok(h) => {
            proof {
                reveal_strlit("init");
            }
            Some(h)
        },
        Err(_) => None,
    }
}

/// Whether `h` is a hash that a claim with this password can get: one under
/// some salt, or none where the operating system has no random bytes.
pub open spec fn is_claim_hash(h: Option<Seq<char>>, password: Seq<char>) -> bool {
    ||| h is None && (!claimable(password) || no_random_bytes::<16>())
    ||| exists|salt: Seq<u8>| salt.len() == 16 && h == #[trigger] claim_hash_of(password, salt)
}

/// Hashes the password of a claim under a random salt. `None` for a password
/// that can claim nothing, and where there are no random bytes.
pub fn claim_hash(password: &str) -> (r: Option<String>)
    ensures
        is_claim_hash(hash_view(r), password@),
        r matches Some(h) ==> claimable(password@) && is_password_hash(h@, password@) && h@
            != INIT_HASH@,
{
    if !can_claim(password) {
        return None;
    }
    match draw_bytes::<16>() {
        Ok(salt) => {
            let h = claim_hash_with_salt(password, &salt);
            assert(salt@.len() == 16 && hash_view(h) == claim_hash_of(password@, salt@));
            h
        },
        Err(_) => None,
    }
}

/// Whether `r` and `w` are the end of the hashing phase of a claim and the
/// state after it, in state `v`, with this hash made for the claim. An account
/// that was claimed meanwhile is logged in to as usual.
pub open spec fn is_prepared_claim(
    v: AuthView,
    name: Seq<char>,
    password: Seq<char>,
    tag: Seq<u8>,
    new_hash: Option<Seq<char>>,
    r: Prepared,
    w: AuthView,
) -> bool {
    match (new_hash, account(v, name)) {
        (Some(h), Some(u)) => if u.hash == INIT_HASH@ {
            &&& w == v
            &&& r matches Prepared::Claim(work) && work@ == (ClaimWorkView {
                name,
                tag,
                index: position_of(v.users, name)->0,
                new_hash: h,
            })
        } else {
            &&& r == Prepared::Done(hash_accepts(u.hash, password))
            &&& w == after_check(v, name, tag, hash_accepts(u.hash, password))
        },
        _ => r == Prepared::Done(false) && w == v,
    }
}

impl AuthState {
    /// The tag under which this process remembers a login.
    pub fn login_tag(&self, name: &str, password: &str) -> (r: [u8; 32])
        ensures
            r@ == cache_tag(self@.secret, name@, password@),
    {
        compute_cache_hmac(&self.server_secret, name, password)
    }

    /// The path of the users file.
    pub fn users_path(&self) -> (r: &str)
        ensures
            r@ == self@.users_path,
    {
        &self.users_path
    }

    /// Whether a login with this tag is remembered.
    pub fn cache_matches(&self, name: &str, candidate: &[u8; 32]) -> (r: bool)
        ensures
            r == remembered(self@, name@, candidate@),
    {
        match cached_tag(&self.cache, name) {
            Some(tag) => tags_equal(&tag, candidate),
            None => false,
        }
    }

    /// The committed hash of an account, `None` while it is unclaimed.
    pub fn claimed_hash_if_any(&self, index: usize) -> (r: Option<String>)
        requires
            index < self@.users.len(),
        ensures
            match r {
                Some(h) => h@ == self@.users[index as int].hash && h@ != INIT_HASH@,
                None => self@.users[index as int].hash == INIT_HASH@,
            },
    {
        let hash = &self.users[index].hash;
        assert(users_view(self.users@)[index as int].hash == hash@);
        if same_text(hash, INIT_HASH) {
            None
        } else {
            Some(hash.clone())
        }
    }

    /// What is known of a login before any hashing.
    pub fn lookup(&self, name: &str, candidate: &[u8; 32]) -> (r: Lookup)
        requires
            self.wf(),
        ensures
            r@ == lookup_of(self@, name@, candidate@),
    {
        proof {
            lemma_position_from(users_view(self.users@), name@, 0);
        }
        let index: usize = match self.entries.get(name) {
            Some(u) => {
                if !u.enabled {
                    return Lookup::Rejected;
                }
                u.index
            },
            None => {
                return Lookup::Rejected;
            },
        };
        if self.cache_matches(name, candidate) {
            return Lookup::Remembered;
        }
        match self.claimed_hash_if_any(index) {
            Some(h) => Lookup::Committed(h),
            None => Lookup::Unclaimed,
        }
    }

    /// Records the answer of a check against a committed hash: a success is
    /// remembered, a failure is not.
    pub fn record_check(&mut self, name: &str, candidate: [u8; 32], accepted: bool) -> (r: bool)
        requires
            old(self).wf(),
        ensures
            final(self).wf(),
            final(self)@ == after_check(old(self)@, name@, candidate@, accepted),
            r == accepted,
    {
        if accepted {
            cache_login(&mut self.cache, name.to_owned(), candidate);
        }
        accepted
    }

    /// An ordinary login against a committed hash.
    pub fn verify_against_committed(
        &mut self,
        name: &str,
        stored_hash: &str,
        password: &str,
        candidate_hmac: [u8; 32],
    ) -> (r: bool)
        requires
            old(self).wf(),
        ensures
            final(self).wf(),
            r == hash_accepts(stored_hash@, password@),
            final(self)@ == after_check(old(self)@, name@, candidate_hmac@, r),
    {
        let accepted = argon2_verify(stored_hash, password);
        self.record_check(name, candidate_hmac, accepted)
    }

    /// The end of the hashing phase of a claim, given the hash made for it.
    /// An account that was claimed meanwhile is logged in to as usual.
    pub fn prepare_claim_with(
        &mut self,
        name: &str,
        password: &str,
        candidate_hmac: [u8; 32],
        new_hash: Option<String>,
    ) -> (r: Prepared)
        requires
            old(self).wf(),
        ensures
            final(self).wf(),
            is_prepared_claim(
                old(self)@,
                name@,
                password@,
                candidate_hmac@,
                hash_view(new_hash),
                r,
                final(self)@,
            ),
    {
        proof {
            lemma_position_from(users_view(self.users@), name@, 0);
        }
        let new_hash = match new_hash {
            Some(h) => h,
            None => {
                return Prepared::Done(false);
            },
        };
        let index: usize = match self.entries.get(name) {
            Some(u) => u.index,
            None => {
                return Prepared::Done(false);
            },
        };
        match self.claimed_hash_if_any(index) {
            Some(claimed) => Prepared::Done(
                self.verify_against_committed(name, &claimed, password, candidate_hmac),
            ),
            None => Prepared::Claim(
                ClaimWork { name: name.to_owned(), candidate_hmac, index, new_hash },
            ),
        }
    }

    /// The hashing phase of a claim.
    pub fn prepare_claim(&mut self, name: &str, password: &str, candidate_hmac: [u8; 32]) -> (r:
        Prepared)
        requires
            old(self).wf(),
        ensures
            final(self).wf(),
            !claimable(password@) || account(old(self)@, name@) is None ==> r == Prepared::Done(
                false,
            ) && final(self)@ == old(self)@,
            exists|new_hash: Option<Seq<char>>|
                {
                    &&& is_claim_hash(new_hash, password@)
                    &&& #[trigger] is_prepared_claim(
                        old(self)@,
                        name@,
                        password@,
                        candidate_hmac@,
                        new_hash,
                        r,
                        final(self)@,
                    )
                },
            r matches Prepared::Claim(work) ==> {
                &&& claimable(password@)
                &&& is_claim_hash(Some(work@.new_hash), password@)
                &&& is_password_hash(work@.new_hash, password@)
                &&& work@.new_hash != INIT_HASH@
            },
    {
        let new_hash = claim_hash(password);
        self.prepare_claim_with(name, password, candidate_hmac, new_hash)
    }

    /// What a claim has to do once it is its turn: claims are committed one
    /// at a time, and a claim that comes after another is an ordinary login.
    pub fn claim_begin(&self, work: &ClaimWork, file_exists: bool) -> (r: ClaimStep)
        requires
            0 <= work@.index < self@.users.len(),
        ensures
            self@.users[work@.index].hash != INIT_HASH@ ==> (r matches ClaimStep::VerifyAgainst(h)
                && h@ == self@.users[work@.index].hash),
            self@.users[work@.index].hash == INIT_HASH@ ==> (r matches ClaimStep::Persist(fallback)
                && match fallback {
                Some(list) => !file_exists && users_view(list@) == with_hash(
                    self@,
                    work@.index,
                    work@.new_hash,
                ).users,
                None => file_exists,
            }),
    {
        if let Some(claimed) = self.claimed_hash_if_any(work.index) {
            return ClaimStep::VerifyAgainst(claimed);
        }
        if file_exists {
            return ClaimStep::Persist(None);
        }
        let mut snapshot = clone_users(&self.users);
        assert(users_view(snapshot@).len() == self@.users.len());
        set_hash(&mut snapshot, work.index, &work.new_hash);
        ClaimStep::Persist(Some(snapshot))
    }

    /// Publishes what became of a claim. The users file decides: a hash that
    /// it got meanwhile is adopted, and after a failed write the account is
    /// unclaimed here: a later login reads in the file how it ended.
    pub fn claim_finish(&mut self, work: ClaimWork, persist: ClaimPersist) -> (r: ClaimOutcome)
        requires
            old(self).wf(),
            0 <= work@.index < old(self)@.users.len(),
        ensures
            final(self).wf(),
            final(self)@ == after_claim(old(self)@, work@, persist),
            is_outcome(r, persist),
    {
        let index: usize = work.index;
        let ghost before = users_view(self.users@);
        match persist {
            ClaimPersist::Written => {
                proof {
                    lemma_entries_keep(self.entries@, before, index as int, work.new_hash@);
                }
                set_hash(&mut self.users, index, &work.new_hash);
                cache_login(&mut self.cache, work.name, work.candidate_hmac);
                ClaimOutcome::Done(true)
            },
            ClaimPersist::DiskHashChanged(disk_hash) => {
                proof {
                    lemma_entries_keep(self.entries@, before, index as int, disk_hash@);
                }
                set_hash(&mut self.users, index, &disk_hash);
                ClaimOutcome::VerifyAgainst(disk_hash)
            },
            ClaimPersist::Failed(_) => {
                proof {
                    lemma_entries_keep(self.entries@, before, index as int, INIT_HASH@);
                }
                set_hash(&mut self.users, index, INIT_HASH);
                ClaimOutcome::Done(false)
            },
        }
    }
}

/// Whether a claim is one that this state prepared for the login: of the
/// named account, with a hash of the password.
pub open spec fn is_claim_of(
    work: ClaimWorkView,
    v: AuthView,
    name: Seq<char>,
    password: Seq<char>,
    tag: Seq<u8>,
) -> bool {
    &&& position_of(v.users, name) == Some(work.index)
    &&& work.name == name
    &&& work.tag == tag
    &&& is_claim_hash(Some(work.new_hash), password)
    &&& is_password_hash(work.new_hash, password)
    &&& work.new_hash != INIT_HASH@
}

/// The state after the persistence of a claim, for an account that may have
/// been claimed meanwhile.
pub open spec fn after_commit(v: AuthView, work: ClaimWorkView, persist: ClaimPersist) -> AuthView {
    if v.users[work.index].hash == INIT_HASH@ {
        after_claim(v, work, persist)
    } else {
        v
    }
}

/// Whether `r` is the outcome of the persistence of a claim, for an account
/// that may have been claimed meanwhile: then the password has to be checked
/// against the hash that the account has.
pub open spec fn is_commit_outcome(
    v: AuthView,
    work: ClaimWorkView,
    persist: ClaimPersist,
    r: ClaimOutcome,
) -> bool {
    if v.users[work.index].hash == INIT_HASH@ {
        is_outcome(r, persist)
    } else {
        r matches ClaimOutcome::VerifyAgainst(h) && h@ == v.users[work.index].hash
    }
}

/// Whether `r` and `w` are the end of the hashing phase of a login and the
/// state after it, in state `v`.
pub open spec fn is_prepared_login(
    v: AuthView,
    name: Seq<char>,
    password: Seq<char>,
    tag: Seq<u8>,
    r: Prepared,
    w: AuthView,
) -> bool {
    match lookup_of(v, name, tag) {
        LookupView::Rejected => r == Prepared::Done(false) && w == v,
        LookupView::Remembered => r == Prepared::Done(true) && w == v,
        LookupView::Committed(h) => {
            &&& r == Prepared::Done(hash_accepts(h, password))
            &&& w == after_check(v, name, tag, hash_accepts(h, password))
        },
        LookupView::Unclaimed => {
            &&& w == v
            &&& match r {
                Prepared::Done(ok) => !ok && (!claimable(password) || no_random_bytes::<16>()),
                Prepared::Claim(work) => claimable(password) && is_claim_of(
                    work@,
                    v,
                    name,
                    password,
                    tag,
                ),
            }
        },
    }
}

/// Whether `r` and `w` are the end of the hashing phase of a login and the
/// state after it, in state `v`, where a claim is hashed under `salt`.
pub open spec fn is_salted_prepared(
    v: AuthView,
    name: Seq<char>,
    password: Seq<char>,
    tag: Seq<u8>,
    salt: Seq<u8>,
    r: Prepared,
    w: AuthView,
) -> bool {
    match lookup_of(v, name, tag) {
        LookupView::Rejected => r == Prepared::Done(false) && w == v,
        LookupView::Remembered => r == Prepared::Done(true) && w == v,
        LookupView::Committed(h) => {
            &&& r == Prepared::Done(hash_accepts(h, password))
            &&& w == after_check(v, name, tag, hash_accepts(h, password))
        },
        LookupView::Unclaimed => is_prepared_claim(
            v,
            name,
            password,
            tag,
            claim_hash_of(password, salt),
            r,
            w,
        ),
    }
}

/// The answer to a login and the state after it, in state `v`, where a claim
/// is hashed under `salt` and persisted as `persist` says.
pub open spec fn login_of(
    v: AuthView,
    name: Seq<char>,
    password: Seq<char>,
    salt: Seq<u8>,
    persist: ClaimPersist,
) -> (bool, AuthView) {
    let tag = cache_tag(v.secret, name, password);
    match lookup_of(v, name, tag) {
        LookupView::Rejected => (false, v),
        LookupView::Remembered => (true, v),
        LookupView::Committed(h) => {
            let ok = hash_accepts(h, password);
            (ok, after_check(v, name, tag, ok))
        },
        LookupView::Unclaimed => match claim_hash_of(password, salt) {
            None => (false, v),
            Some(new_hash) => {
                let index = position_of(v.users, name)->0;
                let w = after_claim(v, ClaimWorkView { name, tag, index, new_hash }, persist);
                match persist {
                    ClaimPersist::Written => (true, w),
                    ClaimPersist::DiskHashChanged(h) => {
                        let ok = hash_accepts(h@, password);
                        (ok, after_check(w, name, tag, ok))
                    },
                    ClaimPersist::Failed(_) => (false, w),
                }
            },
        },
    }
}

/// Whether `r` and `w` are the answer to the login of an unclaimed account and
/// the state after it, in state `v`, where this claim is prepared for it and
/// persisted as `persist` says.
pub open spec fn is_claiming_login(
    work: ClaimWorkView,
    v: AuthView,
    name: Seq<char>,
    password: Seq<char>,
    persist: ClaimPersist,
    r: bool,
    w: AuthView,
) -> bool {
    let tag = cache_tag(v.secret, name, password);
    &&& is_claim_of(work, v, name, password, tag)
    &&& match persist {
        ClaimPersist::Written => r && w == after_claim(v, work, persist),
        ClaimPersist::DiskHashChanged(h) => r == hash_accepts(h@, password) && w == after_check(
            after_claim(v, work, persist),
            name,
            tag,
            r,
        ),
        ClaimPersist::Failed(_) => !r && w == after_claim(v, work, persist),
    }
}

/// Whether `r` and `w` are an answer to a login and the state after it, in
/// state `v`, where a claim would be persisted as `persist` says. A claim that
/// finds no random bytes for its hash is refused.
pub open spec fn is_login(
    v: AuthView,
    name: Seq<char>,
    password: Seq<char>,
    persist: ClaimPersist,
    r: bool,
    w: AuthView,
) -> bool {
    let tag = cache_tag(v.secret, name, password);
    match lookup_of(v, name, tag) {
        LookupView::Rejected => !r && w == v,
        LookupView::Remembered => r && w == v,
        LookupView::Committed(h) => r == hash_accepts(h, password) && w == after_check(
            v,
            name,
            tag,
            r,
        ),
        LookupView::Unclaimed => {
            ||| !r && w == v && (!claimable(password) || no_random_bytes::<16>())
            ||| claimable(password) && exists|work: ClaimWorkView| #[trigger]
                is_claiming_login(work, v, name, password, persist, r, w)
        },
    }
}

impl AuthState {
    /// The hashing phase of a login: what is known already, an ordinary
    /// check, or the preparation of a claim.
    pub fn verify_prepare(&mut self, name: &str, password: &str, candidate_hmac: [u8; 32]) -> (r:
        Prepared)
        requires
            old(self).wf(),
        ensures
            final(self).wf(),
            is_prepared_login(
                old(self)@,
                name@,
                password@,
                candidate_hmac@,
                r,
                final(self)@,
            ),
    {
        match self.lookup(name, &candidate_hmac) {
            Lookup::Rejected => Prepared::Done(false),
            Lookup::Remembered => Prepared::Done(true),
            Lookup::Committed(hash) => Prepared::Done(
                self.verify_against_committed(name, &hash, password, candidate_hmac),
            ),
            Lookup::Unclaimed => self.prepare_claim(name, password, candidate_hmac),
        }
    }

    /// The persistence phase of a claim, given what became of the write. A
    /// claim that comes after another never touches the committed hash.
    pub fn claim_commit(&mut self, work: ClaimWork, persist: ClaimPersist) -> (r: ClaimOutcome)
        requires
            old(self).wf(),
            0 <= work@.index < old(self)@.users.len(),
        ensures
            final(self).wf(),
            final(self)@ == after_commit(old(self)@, work@, persist),
            is_commit_outcome(old(self)@, work@, persist, r),
    {
        if let Some(claimed) = self.claimed_hash_if_any(work.index) {
            return ClaimOutcome::VerifyAgainst(claimed);
        }
        self.claim_finish(work, persist)
    }

    /// Checks a user name and a password. `false` on any failure (unknown or
    /// disabled user, malformed hash, wrong password), so that a client
    /// cannot tell them apart. The first login of an unclaimed account sets
    /// its password, if `persist` says that the claim was written.
    pub fn verify(&mut self, name: &str, password: &str, persist: ClaimPersist) -> (r: bool)
        requires
            old(self).wf(),
        ensures
            final(self).wf(),
            is_login(old(self)@, name@, password@, persist, r, final(self)@),
    {
        let candidate_hmac = self.login_tag(name, password);
        let ghost v = self@;
        let prepared = self.verify_prepare(name, password, candidate_hmac);
        let ghost ended = prepared;
        let r = self.finish_login(name, password, candidate_hmac, prepared, persist);
        proof {
            if let Prepared::Claim(work) = ended {
                assert(is_claiming_login(work@, v, name@, password@, persist, r, self@));
            }
        }
        r
    }

    /// What is left of a login after its hashing phase.
    fn finish_login(
        &mut self,
        name: &str,
        password: &str,
        candidate_hmac: [u8; 32],
        prepared: Prepared,
        persist: ClaimPersist,
    ) -> (r: bool)
        requires
            old(self).wf(),
            prepared matches Prepared::Claim(work) ==> position_of(old(self)@.users, name@) == Some(
                work@.index,
            ) && old(self)@.users[work@.index].hash == INIT_HASH@,
        ensures
            final(self).wf(),
            match prepared {
                Prepared::Done(ok) => r == ok && final(self)@ == old(self)@,
                Prepared::Claim(work) => {
                    let w = after_claim(old(self)@, work@, persist);
                    match persist {
                        ClaimPersist::Written => r && final(self)@ == w,
                        ClaimPersist::DiskHashChanged(h) => r == hash_accepts(h@, password@)
                            && final(self)@ == after_check(w, name@, candidate_hmac@, r),
                        ClaimPersist::Failed(_) => !r && final(self)@ == w,
                    }
                },
            },
    {
        proof {
            lemma_position_from(self@.users, name@, 0);
        }
        match prepared {
            Prepared::Done(ok) => ok,
            Prepared::Claim(work) => match self.claim_commit(work, persist) {
                ClaimOutcome::Done(ok) => ok,
                ClaimOutcome::VerifyAgainst(stored_hash) => self.verify_against_committed(
                    name,
                    &stored_hash,
                    password,
                    candidate_hmac,
                ),
            },
        }
    }

    /// [`AuthState::verify`] with the salt that a claim is hashed under, which
    /// is random there.
    pub fn verify_with_salt(
        &mut self,
        name: &str,
        password: &str,
        salt: &[u8; 16],
        persist: ClaimPersist,
    ) -> (r: bool)
        requires
            old(self).wf(),
        ensures
            final(self).wf(),
            (r, final(self)@) == login_of(old(self)@, name@, password@, salt@, persist),
            is_login(old(self)@, name@, password@, persist, r, final(self)@),
    {
        let candidate_hmac = self.login_tag(name, password);
        let ghost v = self@;
        let prepared = self.verify_prepare_with_salt(name, password, candidate_hmac, salt);
        let ghost ended = prepared;
        let r = self.finish_login(name, password, candidate_hmac, prepared, persist);
        proof {
            if let Prepared::Claim(work) = ended {
                assert(is_claiming_login(work@, v, name@, password@, persist, r, self@));
            }
        }
        r
    }

    /// [`AuthState::verify_prepare`] with the salt that a claim is hashed
    /// under, which is random there.
    pub fn verify_prepare_with_salt(
        &mut self,
        name: &str,
        password: &str,
        candidate_hmac: [u8; 32],
        salt: &[u8; 16],
    ) -> (r: Prepared)
        requires
            old(self).wf(),
        ensures
            final(self).wf(),
            is_salted_prepared(
                old(self)@,
                name@,
                password@,
                candidate_hmac@,
                salt@,
                r,
                final(self)@,
            ),
            is_prepared_login(
                old(self)@,
                name@,
                password@,
                candidate_hmac@,
                r,
                final(self)@,
            ),
    {
        match self.lookup(name, &candidate_hmac) {
            Lookup::Rejected => Prepared::Done(false),
            Lookup::Remembered => Prepared::Done(true),
            Lookup::Committed(hash) => Prepared::Done(
                self.verify_against_committed(name, &hash, password, candidate_hmac),
            ),
            Lookup::Unclaimed => {
                let new_hash = claim_hash_with_salt(password, salt);
                assert(salt@.len() == 16 && hash_view(new_hash) == claim_hash_of(password@, salt@));
                self.prepare_claim_with(name, password, candidate_hmac, new_hash)
            },
        }
    }
}

/// The next step of a login that runs in phases: hashing under a hashing
/// slot, persistence under a claim slot and never under a hashing slot, so
/// that a claim which waits for the users file starves no other login.
pub enum LoginStep {
    /// The login is decided.
    Answer(bool),
    /// Run [`AuthState::verify_prepare`].
    Prepare,
    /// Persist the claim, then run [`AuthState::claim_finish`].
    Commit(ClaimWork),
    /// Run [`AuthState::verify_against_committed`] on this hash.
    Check(String),
}

/// How many passwords are hashed at once, at most.
pub const MAX_HASHING_SLOTS: usize = 4;

/// How many claims may wait for the users file at once.
pub const CLAIM_SLOTS: usize = 2;

/// The number of hashing slots of a machine that can run this many threads at
/// once, as far as that is known.
pub fn hashing_slots(parallelism: Option<usize>) -> (r: usize)
    ensures
        r == match parallelism {
            Some(n) => if n < MAX_HASHING_SLOTS {
                n
            } else {
                MAX_HASHING_SLOTS
            },
            None => 1,
        },
{
    match parallelism {
        Some(n) => {
            if n < MAX_HASHING_SLOTS {
                n
            } else {
                MAX_HASHING_SLOTS
            }
        },
        None => 1,
    }
}

/// The limited resource that a step runs under.
#[derive(Clone, Copy, Debug, PartialEq, Eq, Structural)]
pub enum Slot {
    Unlimited,
    Hashing,
    Claim,
}

/// The first step of a login.
pub open spec fn start_of(v: AuthView, name: Seq<char>, tag: Seq<u8>) -> LoginStep {
    match lookup_of(v, name, tag) {
        LookupView::Rejected => LoginStep::Answer(false),
        LookupView::Remembered => LoginStep::Answer(true),
        _ => LoginStep::Prepare,
    }
}

impl LoginStep {
    /// The step after the hashing phase.
    pub open spec fn prepared_step(prepared: Option<Prepared>) -> LoginStep {
        match prepared {
            Some(Prepared::Done(ok)) => LoginStep::Answer(ok),
            Some(Prepared::Claim(work)) => LoginStep::Commit(work),
            None => LoginStep::Answer(false),
        }
    }

    /// The step after the persistence phase.
    pub open spec fn committed_step(outcome: Option<ClaimOutcome>) -> LoginStep {
        match outcome {
            Some(ClaimOutcome::Done(ok)) => LoginStep::Answer(ok),
            Some(ClaimOutcome::VerifyAgainst(h)) => LoginStep::Check(h),
            None => LoginStep::Answer(false),
        }
    }

    /// The slot that a step runs under.
    pub open spec fn slot_of(self) -> Slot {
        match self {
            LoginStep::Answer(_) => Slot::Unlimited,
            LoginStep::Prepare => Slot::Hashing,
            LoginStep::Commit(_) => Slot::Claim,
            LoginStep::Check(_) => Slot::Hashing,
        }
    }

    /// The slot to wait for before this step.
    pub fn slot(&self) -> (r: Slot)
        ensures
            r == self.slot_of(),
    {
        match self {
            LoginStep::Answer(_) => Slot::Unlimited,
            LoginStep::Prepare => Slot::Hashing,
            LoginStep::Commit(_) => Slot::Claim,
            LoginStep::Check(_) => Slot::Hashing,
        }
    }

    /// The step after [`AuthState::verify_prepare`]; `None` if it did not come
    /// to an end.
    pub fn after_prepare(prepared: Option<Prepared>) -> (r: LoginStep)
        ensures
            r == Self::prepared_step(prepared),
    {
        match prepared {
            Some(Prepared::Done(ok)) => LoginStep::Answer(ok),
            Some(Prepared::Claim(work)) => LoginStep::Commit(work),
            None => LoginStep::Answer(false),
        }
    }

    /// The step after the persistence phase; `None` if it did not come to an
    /// end.
    pub fn after_commit(outcome: Option<ClaimOutcome>) -> (r: LoginStep)
        ensures
            r == Self::committed_step(outcome),
    {
        match outcome {
            Some(ClaimOutcome::Done(ok)) => LoginStep::Answer(ok),
            Some(ClaimOutcome::VerifyAgainst(h)) => LoginStep::Check(h),
            None => LoginStep::Answer(false),
        }
    }
}

impl AuthState {
    /// The first step of a login: rejections and remembered logins need no
    /// slot at all.
    pub fn login_start(&self, name: &str, candidate: &[u8; 32]) -> (r: LoginStep)
        requires
            self.wf(),
        ensures
            r == start_of(self@, name@, candidate@),
    {
        match self.lookup(name, candidate) {
            Lookup::Rejected => LoginStep::Answer(false),
            Lookup::Remembered => LoginStep::Answer(true),
            _ => LoginStep::Prepare,
        }
    }
}

} // verus!
