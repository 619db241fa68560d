//! What holds of every login.

use vstd::prelude::*;
use vstd::utf8::{encode_utf8, encode_utf8_decode_utf8};

use crate::auth::claim::{plan_of, PersistPlanView};
use crate::auth::hash::{
    argon2_accepts, argon2id_phc, cache_message, cache_tag, hash_accepts, hmac_sha256, is_digit,
    is_password_hash, long_lanes_at, no_random_bytes, AuthError,
};
use crate::auth::state::{
    account, after_check, after_claim, after_commit, claim_hash_of, claimable, hash_view,
    is_claim_hash, is_claiming_login, is_commit_outcome, is_login, is_outcome, is_prepared_claim,
    is_prepared_login, is_salted_prepared, lemma_positions_keep, login_of, lookup_of, names_of,
    remember, remembered, start_of, with_hash, AuthView, ClaimOutcome, ClaimPersist, ClaimWork,
    ClaimWorkView, LoginStep, Lookup, LookupView, Prepared, Slot,
};
use crate::config::users::{
    lemma_position_from, lemma_position_is, position_of, stands_first, UserView, INIT_HASH,
};

verus! {

/// Whether a password stands behind a remembered login: the account's hash
/// accepts it, and its tag is the remembered one.
pub open spec fn backed_by(v: AuthView, name: Seq<char>, password: Seq<char>) -> bool {
    &&& account(v, name) matches Some(u) && u.hash != INIT_HASH@ && hash_accepts(u.hash, password)
    &&& v.cache[name] == cache_tag(v.secret, name, password)
}

/// Whether every remembered login is one that the account's present hash
/// accepts.
pub open spec fn cache_sound(v: AuthView) -> bool {
    forall|name: Seq<char>| #[trigger]
        v.cache.contains_key(name) ==> exists|password: Seq<char>| backed_by(v, name, password)
}

/// A fresh state remembers no login.
pub proof fn fresh_cache_is_sound(v: AuthView)
    requires
        v.cache == Map::<Seq<char>, Seq<u8>>::empty(),
    ensures
        cache_sound(v),
{
}

/// Remembering a login that the account's hash accepts keeps the cache sound.
proof fn lemma_remember_sound(v: AuthView, name: Seq<char>, password: Seq<char>)
    requires
        cache_sound(v),
        account(v, name) matches Some(u) && u.hash != INIT_HASH@ && hash_accepts(u.hash, password),
    ensures
        cache_sound(remember(v, name, cache_tag(v.secret, name, password))),
{
    let w = remember(v, name, cache_tag(v.secret, name, password));
    assert forall|n: Seq<char>| #[trigger] w.cache.contains_key(n) implies exists|p: Seq<char>|
        backed_by(w, n, p) by {
        if n == name {
            assert(backed_by(w, name, password));
        } else {
            assert(v.cache.contains_key(n));
            let p = choose|p: Seq<char>| backed_by(v, n, p);
            assert(backed_by(w, n, p));
        }
    }
}

/// Giving an unclaimed account a hash keeps the cache sound.
proof fn lemma_claim_sound(v: AuthView, name: Seq<char>, index: int, hash: Seq<char>)
    requires
        cache_sound(v),
        position_of(v.users, name) == Some(index),
        v.users[index].hash == INIT_HASH@,
    ensures
        cache_sound(with_hash(v, index, hash)),
        account(with_hash(v, index, hash), name) == Some(
            UserView { hash, ..v.users[index] },
        ),
{
    let w = with_hash(v, index, hash);
    lemma_position_from(v.users, name, 0);
    lemma_positions_keep(v.users, index, hash, name);
    assert forall|n: Seq<char>| #[trigger] w.cache.contains_key(n) implies exists|p: Seq<char>|
        backed_by(w, n, p) by {
        assert(v.cache.contains_key(n));
        let p = choose|p: Seq<char>| backed_by(v, n, p);
        lemma_positions_keep(v.users, index, hash, n);
        lemma_position_from(v.users, n, 0);
        assert(position_of(v.users, n) != Some(index));
        assert(backed_by(w, n, p));
    }
}

/// Every login keeps the cache sound: what is remembered was accepted by the
/// hash that the account has now.
pub proof fn login_keeps_cache_sound(
    v: AuthView,
    name: Seq<char>,
    password: Seq<char>,
    persist: ClaimPersist,
    r: bool,
    w: AuthView,
)
    requires
        cache_sound(v),
        is_login(v, name, password, persist, r, w),
        persist matches ClaimPersist::DiskHashChanged(h) ==> h@ != INIT_HASH@,
    ensures
        cache_sound(w),
{
    let tag = cache_tag(v.secret, name, password);
    match lookup_of(v, name, tag) {
        LookupView::Committed(h) => {
            if r {
                lemma_remember_sound(v, name, password);
            }
        },
        LookupView::Unclaimed => {
            if !(!r && w == v) {
                let work = claim_behind(v, name, password, persist, r, w);
                match persist {
                    ClaimPersist::Written => {
                        lemma_claim_sound(v, name, work.index, work.new_hash);
                        lemma_remember_sound(
                            with_hash(v, work.index, work.new_hash),
                            name,
                            password,
                        );
                    },
                    ClaimPersist::DiskHashChanged(h) => {
                        lemma_claim_sound(v, name, work.index, h@);
                        if r {
                            lemma_remember_sound(with_hash(v, work.index, h@), name, password);
                        }
                    },
                    ClaimPersist::Failed(_) => {
                        lemma_claim_sound(v, name, work.index, INIT_HASH@);
                    },
                }
            }
        },
        _ => {},
    }
}

/// The claim that stands behind a login that changed an unclaimed account.
spec fn claim_behind(
    v: AuthView,
    name: Seq<char>,
    password: Seq<char>,
    persist: ClaimPersist,
    r: bool,
    w: AuthView,
) -> ClaimWorkView {
    choose|work: ClaimWorkView| #[trigger]
        is_claiming_login(work, v, name, password, persist, r, w)
}

/// A login of an unknown or disabled user is refused and changes nothing,
/// whatever the password and whatever is remembered.
pub proof fn unknown_or_disabled_is_refused(
    v: AuthView,
    name: Seq<char>,
    password: Seq<char>,
    persist: ClaimPersist,
    r: bool,
    w: AuthView,
)
    requires
        is_login(v, name, password, persist, r, w),
        match account(v, name) {
            Some(u) => !u.is_enabled,
            None => true,
        },
    ensures
        !r,
        w == v,
{
}

/// A refused login is not remembered.
pub proof fn refused_login_is_not_remembered(
    v: AuthView,
    name: Seq<char>,
    password: Seq<char>,
    persist: ClaimPersist,
    w: AuthView,
)
    requires
        is_login(v, name, password, persist, false, w),
    ensures
        w.cache == v.cache,
{
}

/// A login changes no account but an unclaimed one of its own name, and of
/// that only the hash. A committed hash stays for good.
pub proof fn login_touches_only_its_unclaimed_account(
    v: AuthView,
    name: Seq<char>,
    password: Seq<char>,
    persist: ClaimPersist,
    r: bool,
    w: AuthView,
    i: int,
)
    requires
        is_login(v, name, password, persist, r, w),
        0 <= i < v.users.len(),
    ensures
        w.users.len() == v.users.len(),
        w.users[i].name == v.users[i].name,
        w.users[i].is_enabled == v.users[i].is_enabled,
        w.users[i].direct == v.users[i].direct,
        position_of(v.users, name) != Some(i) ==> w.users[i] == v.users[i],
        v.users[i].hash != INIT_HASH@ ==> w.users[i] == v.users[i],
        w.secret == v.secret,
        w.allow_anonymous == v.allow_anonymous,
{
    lemma_position_from(v.users, name, 0);
}

/// What was accepted once is accepted again, without any change of state.
pub proof fn accepted_login_is_accepted_again(
    v: AuthView,
    name: Seq<char>,
    password: Seq<char>,
    persist: ClaimPersist,
    w: AuthView,
    persist2: ClaimPersist,
    r2: bool,
    w2: AuthView,
)
    requires
        is_login(v, name, password, persist, true, w),
        is_login(w, name, password, persist2, r2, w2),
    ensures
        r2,
        w2 == w,
{
    let tag = cache_tag(v.secret, name, password);
    lemma_position_from(v.users, name, 0);
    if lookup_of(v, name, tag) is Unclaimed {
        let work = claim_behind(v, name, password, persist, true, w);
        match persist {
            ClaimPersist::Written => {
                lemma_positions_keep(v.users, work.index, work.new_hash, name);
            },
            ClaimPersist::DiskHashChanged(h) => {
                lemma_positions_keep(v.users, work.index, h@, name);
            },
            ClaimPersist::Failed(_) => {},
        }
    }
}

/// A claim that was written leaves the account with a hash of the password,
/// and only a password can claim that every client can send.
pub proof fn written_claim_sets_the_password(
    v: AuthView,
    name: Seq<char>,
    password: Seq<char>,
    w: AuthView,
)
    requires
        is_login(v, name, password, ClaimPersist::Written, true, w),
        account(v, name) matches Some(u) && u.hash == INIT_HASH@,
        !remembered(v, name, cache_tag(v.secret, name, password)),
    ensures
        claimable(password),
        account(w, name) matches Some(u) && u.hash != INIT_HASH@ && is_password_hash(
            u.hash,
            password,
        ),
{
    lemma_position_from(v.users, name, 0);
    let work = claim_behind(v, name, password, ClaimPersist::Written, true, w);
    lemma_positions_keep(v.users, work.index, work.new_hash, name);
}

/// The first login of an enabled, unclaimed account is accepted whatever the
/// password, as long as every client can send it and the claim can be written:
/// the account then has the hash of that password under the salt, and the
/// login is remembered.
pub proof fn first_login_claims_the_account(
    v: AuthView,
    name: Seq<char>,
    password: Seq<char>,
    salt: Seq<u8>,
)
    requires
        cache_sound(v),
        account(v, name) matches Some(u) && u.is_enabled && u.hash == INIT_HASH@,
        claimable(password),
    ensures
        ({
            let (r, w) = login_of(v, name, password, salt, ClaimPersist::Written);
            &&& r
            &&& account(w, name) == Some(
                UserView { hash: claim_hash_of(password, salt)->0, ..account(v, name)->0 },
            )
            &&& remembered(w, name, cache_tag(v.secret, name, password))
        }),
{
    unclaimed_account_is_not_remembered(v, name);
    lemma_position_from(v.users, name, 0);
    let index = position_of(v.users, name)->0;
    let hash = claim_hash_of(password, salt)->0;
    lemma_positions_keep(v.users, index, hash, name);
}

/// What the end of the persistence phase leads to: an answer, or a check
/// against a committed hash.
pub open spec fn is_committed_login(
    v: AuthView,
    name: Seq<char>,
    password: Seq<char>,
    work: ClaimWorkView,
    persist: ClaimPersist,
    outcome: ClaimOutcome,
    r: bool,
    w: AuthView,
) -> bool {
    let committed = after_commit(v, work, persist);
    &&& is_commit_outcome(v, work, persist, outcome)
    &&& match LoginStep::committed_step(Some(outcome)) {
        LoginStep::Answer(ok) => r == ok && w == committed,
        LoginStep::Check(h) => r == hash_accepts(h@, password) && w == after_check(
            committed,
            name,
            cache_tag(v.secret, name, password),
            r,
        ),
        _ => false,
    }
}

/// Whether `r` and `w` are the answer to a login that runs in phases and the
/// state after it, with no other login in between and no phase lost.
pub open spec fn is_phased_login(
    v: AuthView,
    name: Seq<char>,
    password: Seq<char>,
    persist: ClaimPersist,
    r: bool,
    w: AuthView,
) -> bool {
    let tag = cache_tag(v.secret, name, password);
    match start_of(v, name, tag) {
        LoginStep::Answer(ok) => r == ok && w == v,
        LoginStep::Prepare => exists|prepared: Prepared, v1: AuthView|
            {
                &&& #[trigger] is_prepared_login(v, name, password, tag, prepared, v1)
                &&& match LoginStep::prepared_step(Some(prepared)) {
                    LoginStep::Answer(ok) => r == ok && w == v1,
                    LoginStep::Commit(work) => exists|outcome: ClaimOutcome| #[trigger]
                        is_committed_login(v1, name, password, work@, persist, outcome, r, w),
                    _ => false,
                }
            },
        _ => false,
    }
}

/// A login that runs in phases, each under its own slot, is one login: it has
/// an answer and an effect that the login in one piece can have.
pub proof fn phases_are_one_login(
    v: AuthView,
    name: Seq<char>,
    password: Seq<char>,
    persist: ClaimPersist,
    r: bool,
    w: AuthView,
)
    requires
        is_phased_login(v, name, password, persist, r, w),
    ensures
        is_login(v, name, password, persist, r, w),
{
    let tag = cache_tag(v.secret, name, password);
    lemma_position_from(v.users, name, 0);
    if start_of(v, name, tag) is Prepare {
        let (prepared, v1) = choose|prepared: Prepared, v1: AuthView|
            {
                &&& #[trigger] is_prepared_login(v, name, password, tag, prepared, v1)
                &&& match LoginStep::prepared_step(Some(prepared)) {
                    LoginStep::Answer(ok) => r == ok && w == v1,
                    LoginStep::Commit(work) => exists|outcome: ClaimOutcome| #[trigger]
                        is_committed_login(v1, name, password, work@, persist, outcome, r, w),
                    _ => false,
                }
            };
        if let Prepared::Claim(work) = prepared {
            let outcome = choose|outcome: ClaimOutcome| #[trigger]
                is_committed_login(v1, name, password, work@, persist, outcome, r, w);
            assert(is_claiming_login(work@, v, name, password, persist, r, w));
        }
    }
}

/// Whether `r` and `w` are the answer to a login that runs in phases and the
/// state after it, as in [`is_phased_login`], where a claim is hashed under
/// `salt`.
pub open spec fn is_salted_phased_login(
    v: AuthView,
    name: Seq<char>,
    password: Seq<char>,
    salt: Seq<u8>,
    persist: ClaimPersist,
    r: bool,
    w: AuthView,
) -> bool {
    let tag = cache_tag(v.secret, name, password);
    match start_of(v, name, tag) {
        LoginStep::Answer(ok) => r == ok && w == v,
        LoginStep::Prepare => exists|prepared: Prepared, v1: AuthView|
            {
                &&& #[trigger] is_salted_prepared(v, name, password, tag, salt, prepared, v1)
                &&& match LoginStep::prepared_step(Some(prepared)) {
                    LoginStep::Answer(ok) => r == ok && w == v1,
                    LoginStep::Commit(work) => exists|outcome: ClaimOutcome| #[trigger]
                        is_committed_login(v1, name, password, work@, persist, outcome, r, w),
                    _ => false,
                }
            },
        _ => false,
    }
}

/// Under one salt, a login that runs in phases has exactly the answer and the
/// effect of the login in one piece.
pub proof fn salted_phases_are_the_login(
    v: AuthView,
    name: Seq<char>,
    password: Seq<char>,
    salt: Seq<u8>,
    persist: ClaimPersist,
    r: bool,
    w: AuthView,
)
    requires
        is_salted_phased_login(v, name, password, salt, persist, r, w),
    ensures
        (r, w) == login_of(v, name, password, salt, persist),
{
    let tag = cache_tag(v.secret, name, password);
    lemma_position_from(v.users, name, 0);
    if start_of(v, name, tag) is Prepare {
        let (prepared, v1) = choose|prepared: Prepared, v1: AuthView|
            {
                &&& #[trigger] is_salted_prepared(v, name, password, tag, salt, prepared, v1)
                &&& match LoginStep::prepared_step(Some(prepared)) {
                    LoginStep::Answer(ok) => r == ok && w == v1,
                    LoginStep::Commit(work) => exists|outcome: ClaimOutcome| #[trigger]
                        is_committed_login(v1, name, password, work@, persist, outcome, r, w),
                    _ => false,
                }
            };
        if let Prepared::Claim(work) = prepared {
            let outcome = choose|outcome: ClaimOutcome| #[trigger]
                is_committed_login(v1, name, password, work@, persist, outcome, r, w);
            assert(is_commit_outcome(v, work@, persist, outcome));
        }
    }
}

/// The numbers of free slots.
#[verifier::ext_equal]
pub struct SlotsView {
    pub hashing: int,
    pub claim: int,
}

/// The free slots once a step has begun.
pub open spec fn slots_during(free: SlotsView, step: LoginStep) -> SlotsView {
    match step.slot_of() {
        Slot::Unlimited => free,
        Slot::Hashing => SlotsView { hashing: free.hashing - 1, ..free },
        Slot::Claim => SlotsView { claim: free.claim - 1, ..free },
    }
}

/// The free slots once a step is over: a step gives back what it waited for.
pub open spec fn slots_past(during: SlotsView, step: LoginStep) -> SlotsView {
    match step.slot_of() {
        Slot::Unlimited => during,
        Slot::Hashing => SlotsView { hashing: during.hashing + 1, ..during },
        Slot::Claim => SlotsView { claim: during.claim + 1, ..during },
    }
}

/// The free slots after a run of steps.
pub open spec fn slots_after(free: SlotsView, steps: Seq<LoginStep>) -> SlotsView
    decreases steps.len(),
{
    if steps.len() == 0 {
        free
    } else {
        slots_after(slots_past(slots_during(free, steps[0]), steps[0]), steps.skip(1))
    }
}

/// A login that is over has given back every slot that it had.
pub proof fn login_gives_its_slots_back(free: SlotsView, steps: Seq<LoginStep>)
    ensures
        slots_after(free, steps) == free,
    decreases steps.len(),
{
    if steps.len() > 0 {
        assert(slots_past(slots_during(free, steps[0]), steps[0]) =~= free);
        login_gives_its_slots_back(free, steps.skip(1));
    }
}

/// A claim that waits for the users file holds no hashing slot, and a login
/// that is decided before any hashing needs no slot at all.
pub proof fn waiting_claim_starves_no_login(free: SlotsView, work: ClaimWork, ok: bool)
    ensures
        slots_during(free, LoginStep::Commit(work)).hashing == free.hashing,
        slots_during(free, LoginStep::Answer(ok)) == free,
{
}

/// A claim that was written has one hash in the users file and in memory, and
/// where the file had a hash already, that one is in both.
pub proof fn file_and_memory_agree(
    v: AuthView,
    work: ClaimWorkView,
    on_disk: Option<Seq<UserView>>,
    path: Seq<char>,
    fallback: Option<Seq<UserView>>,
)
    requires
        position_of(v.users, work.name) == Some(work.index),
        fallback matches Some(list) ==> list == with_hash(v, work.index, work.new_hash).users,
    ensures
        match plan_of(on_disk, path, work.name, work.new_hash, fallback) {
            PersistPlanView::Write(written) => {
                let w = after_claim(v, work, ClaimPersist::Written);
                &&& account(w, work.name) matches Some(u) && u.hash == work.new_hash
                &&& position_of(written, work.name) matches Some(i) && written[i].hash
                    == work.new_hash
            },
            PersistPlanView::Adopt(h) => {
                &&& on_disk matches Some(users) && position_of(users, work.name) matches Some(i)
                    && users[i].hash == h
                &&& forall|s: String|
                    s@ == h ==> (#[trigger] account(
                        after_claim(v, work, ClaimPersist::DiskHashChanged(s)),
                        work.name,
                    ) matches Some(u) && u.hash == h)
            },
            PersistPlanView::Fail(_) => true,
        },
{
    lemma_position_from(v.users, work.name, 0);
    lemma_positions_keep(v.users, work.index, work.new_hash, work.name);
    match on_disk {
        Some(users) => {
            lemma_position_from(users, work.name, 0);
            if let Some(i) = position_of(users, work.name) {
                lemma_positions_keep(users, i, work.new_hash, work.name);
                lemma_positions_keep(v.users, work.index, users[i].hash, work.name);
            }
        },
        None => {},
    }
}

/// Every login is the login under some salt, but for a claim that is refused
/// for want of random bytes, which changes nothing.
pub proof fn login_is_salted_or_refused(
    v: AuthView,
    name: Seq<char>,
    password: Seq<char>,
    persist: ClaimPersist,
    r: bool,
    w: AuthView,
)
    requires
        is_login(v, name, password, persist, r, w),
    ensures
        ({
            ||| exists|salt: Seq<u8>|
                salt.len() == 16 && (r, w) == #[trigger] login_of(v, name, password, salt, persist)
            ||| {
                &&& lookup_of(v, name, cache_tag(v.secret, name, password)) is Unclaimed
                &&& no_random_bytes::<16>()
                &&& !r
                &&& w == v
            }
        }),
{
    let tag = cache_tag(v.secret, name, password);
    let any = Seq::new(16, |i: int| 0u8);
    if !(lookup_of(v, name, tag) is Unclaimed) || !claimable(password) {
        assert((r, w) == login_of(v, name, password, any, persist));
    } else if !(!r && w == v && no_random_bytes::<16>()) {
        let work = claim_behind(v, name, password, persist, r, w);
        let salt = choose|salt: Seq<u8>|
            salt.len() == 16 && Some(work.new_hash) == #[trigger] claim_hash_of(password, salt);
        assert((r, w) == login_of(v, name, password, salt, persist));
    }
}

/// The salt matters only for a claim: any other login has one answer and one
/// effect, whatever the salt.
pub proof fn salt_matters_only_for_claims(
    v: AuthView,
    name: Seq<char>,
    password: Seq<char>,
    persist: ClaimPersist,
    salt: Seq<u8>,
    r: bool,
    w: AuthView,
)
    requires
        is_login(v, name, password, persist, r, w),
        !(lookup_of(v, name, cache_tag(v.secret, name, password)) is Unclaimed) || !claimable(
            password,
        ),
    ensures
        (r, w) == login_of(v, name, password, salt, persist),
{
}

/// A claim whose write failed leaves the state of this process as it was.
pub proof fn failed_claim_changes_nothing(
    v: AuthView,
    name: Seq<char>,
    password: Seq<char>,
    persist: ClaimPersist,
    r: bool,
    w: AuthView,
)
    requires
        is_login(v, name, password, persist, r, w),
        persist is Failed,
        account(v, name) matches Some(u) && u.hash == INIT_HASH@,
        !remembered(v, name, cache_tag(v.secret, name, password)),
    ensures
        !r,
        w == v,
{
    lemma_position_from(v.users, name, 0);
    if w != v && account(v, name)->0.is_enabled {
        let work = claim_behind(v, name, password, persist, r, w);
        assert(w.users =~= v.users);
        assert(w =~= v);
    }
}

/// An account that waits for its first login has no remembered one.
pub proof fn unclaimed_account_is_not_remembered(v: AuthView, name: Seq<char>)
    requires
        cache_sound(v),
        account(v, name) matches Some(u) && u.hash == INIT_HASH@,
    ensures
        !v.cache.contains_key(name),
{
    if v.cache.contains_key(name) {
        let password = choose|password: Seq<char>| backed_by(v, name, password);
        assert(backed_by(v, name, password));
    }
}

/// Two logins of one user have the same cache message only if the passwords
/// are the same.
pub proof fn cache_message_tells_passwords_apart(
    name: Seq<char>,
    password1: Seq<char>,
    password2: Seq<char>,
)
    requires
        cache_message(name, password1) == cache_message(name, password2),
    ensures
        password1 == password2,
{
    let n = encode_utf8(name).len() as int + 1;
    let m1 = cache_message(name, password1);
    let m2 = cache_message(name, password2);
    assert(m1.skip(n) =~= encode_utf8(password1));
    assert(m2.skip(n) =~= encode_utf8(password2));
    encode_utf8_decode_utf8(password1);
    encode_utf8_decode_utf8(password2);
}

/// The zero byte in the cache message keeps user name and password apart
/// for names without a zero byte of their own.
pub proof fn cache_message_tells_logins_apart(
    name1: Seq<char>,
    password1: Seq<char>,
    name2: Seq<char>,
    password2: Seq<char>,
)
    requires
        cache_message(name1, password1) == cache_message(name2, password2),
        !encode_utf8(name1).contains(0u8),
        !encode_utf8(name2).contains(0u8),
    ensures
        name1 == name2,
        password1 == password2,
{
    let a = encode_utf8(name1);
    let b = encode_utf8(name2);
    let m = cache_message(name1, password1);
    assert(m == cache_message(name2, password2));
    assert(m[a.len() as int] == 0);
    assert(m[b.len() as int] == 0);
    if a.len() < b.len() {
        assert(b[a.len() as int] == 0);
    }
    if b.len() < a.len() {
        assert(a[b.len() as int] == 0);
    }
    assert(m.take(a.len() as int) =~= a);
    assert(m.take(b.len() as int) =~= b);
    encode_utf8_decode_utf8(name1);
    encode_utf8_decode_utf8(name2);
    cache_message_tells_passwords_apart(name1, password1, password2);
}

/// A password can claim an account if it is not empty and at most 255 bytes
/// long: what every client can send. Nothing else is asked of it.
pub proof fn claimable_is_what_every_client_can_send(password: Seq<char>)
    ensures
        claimable(password) <==> password.len() > 0 && encode_utf8(password).len() <= 255,
{
}

/// The hash for a claim under a salt is that of Argon2id with 5 MiB, two passes
/// and one lane.
pub proof fn claim_hash_has_the_costs(password: Seq<char>, salt: Seq<u8>)
    ensures
        claim_hash_of(password, salt) == (if password.len() > 0 && encode_utf8(password).len()
            <= 255 {
            Some(argon2id_phc(encode_utf8(password), salt, 5120, 2, 1))
        } else {
            None
        }),
{
}

/// There is no hash for a claim only where the password cannot claim or the
/// random source failed.
pub proof fn claim_hash_is_missing_only_without_random_bytes(
    password: Seq<char>,
    h: Option<Seq<char>>,
)
    requires
        is_claim_hash(h, password),
    ensures
        password.len() > 0 && encode_utf8(password).len() <= 255 && !no_random_bytes::<16>()
            ==> h is Some,
        h matches Some(hash) ==> {
            &&& password.len() > 0 && encode_utf8(password).len() <= 255
            &&& exists|salt: Seq<u8>|
                salt.len() == 16 && hash == #[trigger] argon2id_phc(
                    encode_utf8(password),
                    salt,
                    5120,
                    2,
                    1,
                )
        },
{
    if let Some(hash) = h {
        let salt = choose|salt: Seq<u8>|
            salt.len() == 16 && h == #[trigger] claim_hash_of(password, salt);
        assert(hash == argon2id_phc(encode_utf8(password), salt, 5120, 2, 1));
    }
}

/// Every hash that is stored has the costs and the prefix that the server
/// promises, and accepts its password.
pub proof fn stored_hash_has_the_costs(hash: Seq<char>, password: Seq<char>)
    requires
        is_password_hash(hash, password),
    ensures
        "$argon2id$v=19$m=5120,t=2,p=1$"@.is_prefix_of(hash),
        argon2_accepts(hash, encode_utf8(password)),
        exists|salt: Seq<u8>|
            salt.len() == 16 && hash == #[trigger] argon2id_phc(
                encode_utf8(password),
                salt,
                5120,
                2,
                1,
            ),
{
}

/// A stored hash decides alone, unless it asks for more than eight digits of
/// lanes, which no hash can have.
pub proof fn hash_decides_alone(hash: Seq<char>, password: Seq<char>)
    ensures
        hash_accepts(hash, password) ==> argon2_accepts(hash, encode_utf8(password)),
        argon2_accepts(hash, encode_utf8(password)) && !hash_accepts(hash, password) ==> exists|
            i: int,
        |
            {
                &&& 0 <= i
                &&& i + 11 <= hash.len()
                &&& #[trigger] hash[i] == 'p'
                &&& hash[i + 1] == '='
                &&& forall|k: int| i + 2 <= k < i + 11 ==> '0' <= #[trigger] hash[k] <= '9'
            },
{
    if argon2_accepts(hash, encode_utf8(password)) && !hash_accepts(hash, password) {
        let i = choose|i: int| #[trigger] long_lanes_at(hash, i);
        assert(hash[i] == 'p');
        assert forall|k: int| i + 2 <= k < i + 11 implies '0' <= #[trigger] hash[k] <= '9' by {
            assert(is_digit(hash[k]));
        }
    }
}

/// A login is remembered by name and password, with a zero byte between them,
/// under the secret of the process.
pub proof fn login_is_remembered_by_name_and_password(
    secret: Seq<u8>,
    name: Seq<char>,
    password: Seq<char>,
)
    ensures
        cache_tag(secret, name, password) == hmac_sha256(
            secret,
            encode_utf8(name) + seq![0u8] + encode_utf8(password),
        ),
{
}

/// Whether two states have the same settings.
pub open spec fn same_settings(v: AuthView, w: AuthView) -> bool {
    v.allow_anonymous == w.allow_anonymous && v.secret == w.secret && v.users_path == w.users_path
}

/// The first login of an enabled, unclaimed account with a password that every
/// client can send is refused only where the random source failed. Otherwise,
/// if the claim is written, it is accepted, the account has a hash of that
/// password with the promised costs, nothing else of any account changes, and
/// the login is remembered.
pub proof fn first_login_is_refused_only_without_random_bytes(
    v: AuthView,
    name: Seq<char>,
    password: Seq<char>,
    i: int,
    r: bool,
    w: AuthView,
)
    requires
        is_login(v, name, password, ClaimPersist::Written, r, w),
        stands_first(v.users, name, i),
        v.users[i].is_enabled,
        v.users[i].hash == "init"@,
        !v.cache.contains_key(name),
        password.len() > 0,
        encode_utf8(password).len() <= 255,
        !no_random_bytes::<16>(),
    ensures
        r,
        is_password_hash(w.users[i].hash, password),
        w.users[i].hash != "init"@,
        w.users == v.users.update(i, UserView { hash: w.users[i].hash, ..v.users[i] }),
        w.cache == v.cache.insert(
            name,
            hmac_sha256(v.secret, encode_utf8(name) + seq![0u8] + encode_utf8(password)),
        ),
        same_settings(v, w),
{
    lemma_position_is(v.users, name, i);
    let work = claim_behind(v, name, password, ClaimPersist::Written, r, w);
    assert(w.users =~= v.users.update(i, UserView { hash: w.users[i].hash, ..v.users[i] }));
}

/// A password that no client can send in full, or none at all, claims nothing.
pub proof fn unsendable_password_claims_nothing(
    v: AuthView,
    name: Seq<char>,
    password: Seq<char>,
    persist: ClaimPersist,
    i: int,
    r: bool,
    w: AuthView,
)
    requires
        is_login(v, name, password, persist, r, w),
        stands_first(v.users, name, i),
        v.users[i].hash == "init"@,
        !v.cache.contains_key(name),
        password.len() == 0 || encode_utf8(password).len() > 255,
    ensures
        !r,
        w == v,
{
    lemma_position_is(v.users, name, i);
}

/// Where the file had a hash already, the first login is one against that hash,
/// which the account then has.
pub proof fn hash_in_the_file_decides(
    v: AuthView,
    name: Seq<char>,
    password: Seq<char>,
    disk: String,
    i: int,
    r: bool,
    w: AuthView,
)
    requires
        is_login(v, name, password, ClaimPersist::DiskHashChanged(disk), r, w),
        stands_first(v.users, name, i),
        v.users[i].is_enabled,
        v.users[i].hash == "init"@,
        !v.cache.contains_key(name),
        password.len() > 0,
        encode_utf8(password).len() <= 255,
        !no_random_bytes::<16>(),
    ensures
        r == hash_accepts(disk@, password),
        w.users == v.users.update(i, UserView { hash: disk@, ..v.users[i] }),
        w.cache == (if r {
            v.cache.insert(
                name,
                hmac_sha256(v.secret, encode_utf8(name) + seq![0u8] + encode_utf8(password)),
            )
        } else {
            v.cache
        }),
        same_settings(v, w),
{
    lemma_position_is(v.users, name, i);
    let work = claim_behind(v, name, password, ClaimPersist::DiskHashChanged(disk), r, w);
}

/// A claim that was not written is refused, and the account is still unclaimed.
pub proof fn unwritten_claim_is_refused(
    v: AuthView,
    name: Seq<char>,
    password: Seq<char>,
    reason: String,
    i: int,
    r: bool,
    w: AuthView,
)
    requires
        is_login(v, name, password, ClaimPersist::Failed(reason), r, w),
        stands_first(v.users, name, i),
        v.users[i].hash == "init"@,
        !v.cache.contains_key(name),
    ensures
        !r,
        w.users[i].hash == "init"@,
        w.cache == v.cache,
{
    lemma_position_is(v.users, name, i);
    if v.users[i].is_enabled && w != v {
        let work = claim_behind(v, name, password, ClaimPersist::Failed(reason), r, w);
    }
}

/// A login to an enabled account that has a password is accepted exactly if the
/// account's hash accepts it, or if it is the remembered one. No account
/// changes, and an accepted login is remembered.
pub proof fn password_is_checked_against_the_hash(
    v: AuthView,
    name: Seq<char>,
    password: Seq<char>,
    persist: ClaimPersist,
    i: int,
    r: bool,
    w: AuthView,
)
    requires
        is_login(v, name, password, persist, r, w),
        stands_first(v.users, name, i),
        v.users[i].is_enabled,
        v.users[i].hash != "init"@,
    ensures
        ({
            let tag = hmac_sha256(
                v.secret,
                encode_utf8(name) + seq![0u8] + encode_utf8(password),
            );
            let known = v.cache.contains_key(name) && v.cache[name] == tag;
            &&& r == (known || hash_accepts(v.users[i].hash, password))
            &&& w.users == v.users
            &&& w.cache == (if r {
                v.cache.insert(name, tag)
            } else {
                v.cache
            })
            &&& same_settings(v, w)
        }),
{
    lemma_position_is(v.users, name, i);
    let tag = cache_tag(v.secret, name, password);
    if v.cache.contains_key(name) && v.cache[name] == tag {
        assert(v.cache.insert(name, tag) =~= v.cache);
    }
}

/// A name that no account has, or whose account is disabled, logs in to
/// nothing.
pub proof fn name_without_an_account_is_refused(
    v: AuthView,
    name: Seq<char>,
    password: Seq<char>,
    persist: ClaimPersist,
    r: bool,
    w: AuthView,
)
    requires
        is_login(v, name, password, persist, r, w),
        (forall|i: int| 0 <= i < v.users.len() ==> (#[trigger] v.users[i]).name != name) || exists|
            i: int,
        |
            #[trigger] stands_first(v.users, name, i) && !v.users[i].is_enabled,
    ensures
        !r,
        w == v,
{
    lemma_position_from(v.users, name, 0);
    if exists|i: int| #[trigger] stands_first(v.users, name, i) && !v.users[i].is_enabled {
        let i = choose|i: int| #[trigger]
            stands_first(v.users, name, i) && !v.users[i].is_enabled;
        lemma_position_is(v.users, name, i);
    }
}

/// The account of a name is the first one that has it.
pub proof fn account_is_the_first_of_its_name(v: AuthView, name: Seq<char>, i: int)
    ensures
        stands_first(v.users, name, i) ==> account(v, name) == Some(v.users[i]),
        (forall|j: int| 0 <= j < v.users.len() ==> (#[trigger] v.users[j]).name != name)
            ==> account(v, name) is None,
{
    lemma_position_from(v.users, name, 0);
    if stands_first(v.users, name, i) {
        lemma_position_is(v.users, name, i);
    }
}

/// The names that are counted are those of the accounts.
pub proof fn counted_names_are_those_of_the_accounts(users: Seq<UserView>, name: Seq<char>)
    ensures
        names_of(users).contains(name) <==> exists|i: int|
            0 <= i < users.len() && (#[trigger] users[i]).name == name,
{
    let names = users.map_values(|u: UserView| u.name);
    if names_of(users).contains(name) {
        let i = choose|i: int| 0 <= i < names.len() && names[i] == name;
        assert(users[i].name == name);
    }
    if exists|i: int| 0 <= i < users.len() && (#[trigger] users[i]).name == name {
        let i = choose|i: int| 0 <= i < users.len() && (#[trigger] users[i]).name == name;
        assert(names[i] == name);
    }
}

/// A login is decided at once only where nothing has to be hashed: for a name
/// without an enabled account, and for the remembered login.
pub proof fn only_known_logins_are_decided_at_once(
    v: AuthView,
    name: Seq<char>,
    tag: Seq<u8>,
    i: int,
)
    requires
        stands_first(v.users, name, i),
    ensures
        start_of(v, name, tag) == (if !v.users[i].is_enabled {
            LoginStep::Answer(false)
        } else if v.cache.contains_key(name) && v.cache[name] == tag {
            LoginStep::Answer(true)
        } else {
            LoginStep::Prepare
        }),
{
    lemma_position_is(v.users, name, i);
}

/// A claim that comes too late touches nothing: the account keeps its hash, and
/// the password is checked against it.
pub proof fn late_claim_is_an_ordinary_login(
    v: AuthView,
    work: ClaimWorkView,
    persist: ClaimPersist,
    outcome: ClaimOutcome,
)
    requires
        v.users[work.index].hash != "init"@,
        is_commit_outcome(v, work, persist, outcome),
    ensures
        outcome matches ClaimOutcome::VerifyAgainst(h) && h@ == v.users[work.index].hash,
        after_commit(v, work, persist) == v,
{
}

/// A new hash changes the hash of one account and nothing else.
pub proof fn new_hash_changes_one_account(v: AuthView, index: int, hash: Seq<char>, j: int)
    requires
        0 <= index < v.users.len(),
        0 <= j < v.users.len(),
    ensures
        with_hash(v, index, hash).users.len() == v.users.len(),
        with_hash(v, index, hash).cache == v.cache,
        same_settings(v, with_hash(v, index, hash)),
        with_hash(v, index, hash).users[j].name == v.users[j].name,
        with_hash(v, index, hash).users[j].is_enabled == v.users[j].is_enabled,
        with_hash(v, index, hash).users[j].direct == v.users[j].direct,
        with_hash(v, index, hash).users[j].hash == (if j == index {
            hash
        } else {
            v.users[j].hash
        }),
{
}

/// What is known of a login and of a claim is seen as it is.
pub proof fn logins_are_seen_as_they_are(hash: String)
    ensures
        hash_view(Some(hash)) == Some(hash@),
        hash_view(None) is None,
        Lookup::Rejected@ == LookupView::Rejected,
        Lookup::Remembered@ == LookupView::Remembered,
        Lookup::Committed(hash)@ == LookupView::Committed(hash@),
        Lookup::Unclaimed@ == LookupView::Unclaimed,
{
}

/// What is known of a login before any hashing is told by the first account of
/// its name.
pub proof fn lookup_is_told_by_the_account(v: AuthView, name: Seq<char>, tag: Seq<u8>, i: int)
    requires
        stands_first(v.users, name, i),
    ensures
        lookup_of(v, name, tag) == (if !v.users[i].is_enabled {
            LookupView::Rejected
        } else if v.cache.contains_key(name) && v.cache[name] == tag {
            LookupView::Remembered
        } else if v.users[i].hash != "init"@ {
            LookupView::Committed(v.users[i].hash)
        } else {
            LookupView::Unclaimed
        }),
{
    lemma_position_is(v.users, name, i);
}

/// The hashing phase prepares a claim for the first account of the name, with
/// the hash that was made for it, and changes nothing; without a hash it
/// refuses.
pub proof fn claim_is_prepared_for_its_account(
    v: AuthView,
    name: Seq<char>,
    password: Seq<char>,
    tag: Seq<u8>,
    h: Seq<char>,
    i: int,
    r: Prepared,
    w: AuthView,
)
    requires
        stands_first(v.users, name, i),
    ensures
        is_prepared_claim(v, name, password, tag, None, r, w) ==> r == Prepared::Done(false) && w
            == v,
        is_prepared_claim(v, name, password, tag, Some(h), r, w) && v.users[i].hash == "init"@ ==> w
            == v && (r matches Prepared::Claim(work) && work@.name == name && work@.tag == tag
            && work@.index == i && work@.new_hash == h),
        is_prepared_claim(v, name, password, tag, Some(h), r, w) && v.users[i].hash != "init"@ ==> r
            == Prepared::Done(hash_accepts(v.users[i].hash, password)) && w.users == v.users,
{
    lemma_position_is(v.users, name, i);
}

/// A check against a hash is remembered under its own name alone, and only if
/// it was passed; it changes nothing else.
pub proof fn passed_check_is_remembered(
    v: AuthView,
    name: Seq<char>,
    tag: Seq<u8>,
    accepted: bool,
    other: Seq<char>,
)
    ensures
        after_check(v, name, tag, false) == v,
        after_check(v, name, tag, true).cache.contains_key(name),
        after_check(v, name, tag, true).cache[name] == tag,
        after_check(v, name, tag, accepted).users == v.users,
        after_check(v, name, tag, accepted).secret == v.secret,
        after_check(v, name, tag, accepted).allow_anonymous == v.allow_anonymous,
        after_check(v, name, tag, accepted).users_path == v.users_path,
        other != name ==> {
            let w = after_check(v, name, tag, accepted);
            &&& w.cache.contains_key(other) <==> v.cache.contains_key(other)
            &&& v.cache.contains_key(other) ==> w.cache[other] == v.cache[other]
        },
{
}

/// A claim is remembered under its own name alone, and only if it was written.
pub proof fn written_claim_is_remembered(
    v: AuthView,
    work: ClaimWorkView,
    persist: ClaimPersist,
    other: Seq<char>,
)
    ensures
        persist is Written ==> after_claim(v, work, persist).cache.contains_key(work.name)
            && after_claim(v, work, persist).cache[work.name] == work.tag,
        persist !is Written ==> after_claim(v, work, persist).cache == v.cache,
        other != work.name ==> {
            let w = after_claim(v, work, persist);
            &&& w.cache.contains_key(other) <==> v.cache.contains_key(other)
            &&& v.cache.contains_key(other) ==> w.cache[other] == v.cache[other]
        },
        after_claim(v, work, persist).secret == v.secret,
        after_claim(v, work, persist).allow_anonymous == v.allow_anonymous,
        after_claim(v, work, persist).users_path == v.users_path,
{
}

/// A phase that came to an end hands on what it found, and one that did not
/// refuses the login.
pub proof fn phases_hand_on_what_they_found(
    prepared: Prepared,
    outcome: ClaimOutcome,
    persist: ClaimPersist,
)
    ensures
        match prepared {
            Prepared::Done(ok) => LoginStep::prepared_step(Some(prepared)) == LoginStep::Answer(ok),
            Prepared::Claim(work) => LoginStep::prepared_step(Some(prepared)) == LoginStep::Commit(
                work,
            ),
        },
        LoginStep::prepared_step(None) == LoginStep::Answer(false),
        match outcome {
            ClaimOutcome::Done(ok) => LoginStep::committed_step(Some(outcome)) == LoginStep::Answer(
                ok,
            ),
            ClaimOutcome::VerifyAgainst(h) => LoginStep::committed_step(Some(outcome))
                == LoginStep::Check(h),
        },
        LoginStep::committed_step(None) == LoginStep::Answer(false),
        is_outcome(outcome, persist) <==> match persist {
            ClaimPersist::Written => outcome == ClaimOutcome::Done(true),
            ClaimPersist::DiskHashChanged(h) => outcome matches ClaimOutcome::VerifyAgainst(s)
                && s@ == h@,
            ClaimPersist::Failed(_) => outcome == ClaimOutcome::Done(false),
        },
{
}

/// Passwords are hashed under a hashing slot, claims are written under a claim
/// slot, and an answer waits for nothing.
pub proof fn steps_wait_for_their_slot(ok: bool, work: ClaimWork, hash: String)
    ensures
        LoginStep::Answer(ok).slot_of() == Slot::Unlimited,
        LoginStep::Prepare.slot_of() == Slot::Hashing,
        LoginStep::Commit(work).slot_of() == Slot::Claim,
        LoginStep::Check(hash).slot_of() == Slot::Hashing,
{
}

/// A stored text that names its lanes in nine or more digits accepts no
/// password.
pub proof fn too_many_lanes_accept_nothing(hash: Seq<char>, password: Seq<char>, i: int)
    requires
        0 <= i,
        i + 11 <= hash.len(),
        hash[i] == 'p',
        hash[i + 1] == '=',
        forall|k: int| i + 2 <= k < i + 11 ==> '0' <= #[trigger] hash[k] <= '9',
    ensures
        !hash_accepts(hash, password),
{
    assert(long_lanes_at(hash, i));
}

/// An error is told with what the random source or Argon2 said of it.
pub proof fn hash_errors_tell_their_reason(reason: String)
    ensures
        AuthError::Random(reason).text() == "OS random source unavailable: "@ + reason@,
        AuthError::Argon2(reason).text() == "Argon2 hash failed: "@ + reason@,
{
}

} // verus!
