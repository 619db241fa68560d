//! Merging a claim into the users file.

use vstd::prelude::*;

use crate::auth::state::ClaimPersist;
use crate::config::users::{
    lemma_position_from, position, position_of, set_hash, users_view, User, UserView, UsersConfig,
    INIT_HASH,
};
use crate::text::{join, same_text};

verus! {

/// What to do with the users file for a claim.
pub enum PersistPlan {
    /// Replace the file with this content; the claim is written once that
    /// has succeeded.
    Write(UsersConfig),
    /// Write nothing.
    Settled(ClaimPersist),
}

/// [`PersistPlan`] over views.
pub enum PersistPlanView {
    Write(Seq<UserView>),
    Adopt(Seq<char>),
    Fail(Seq<char>),
}

/// The plan over views.
pub open spec fn plan_view(p: PersistPlan) -> Option<PersistPlanView> {
    match p {
        PersistPlan::Write(c) => Some(PersistPlanView::Write(c@)),
        PersistPlan::Settled(ClaimPersist::DiskHashChanged(h)) => Some(PersistPlanView::Adopt(h@)),
        PersistPlan::Settled(ClaimPersist::Failed(e)) => Some(PersistPlanView::Fail(e@)),
        PersistPlan::Settled(ClaimPersist::Written) => None,
    }
}

/// Why a claim fails when the users file has gone.
pub open spec fn vanished_text(path: Seq<char>) -> Seq<char> {
    "users file "@ + path + " disappeared before the claim could be persisted"@
}

/// Why a claim fails when the account has gone from the users file.
pub open spec fn removed_text(name: Seq<char>, path: Seq<char>) -> Seq<char> {
    "user '"@ + name + "' no longer exists in "@ + path
        + " — removed by a concurrent CLI edit, not re-adding it"@
}

/// What to do for a claim, given the content of the file under its lock. The
/// claim goes into what the file holds now: a removed account is not added
/// again, and a hash that the file got meanwhile wins. Without a file, the
/// snapshot is written, if there is one.
pub open spec fn plan_of(
    on_disk: Option<Seq<UserView>>,
    path: Seq<char>,
    name: Seq<char>,
    new_hash: Seq<char>,
    fallback: Option<Seq<UserView>>,
) -> PersistPlanView {
    match on_disk {
        None => match fallback {
            Some(users) => PersistPlanView::Write(users),
            None => PersistPlanView::Fail(vanished_text(path)),
        },
        Some(users) => match position_of(users, name) {
            None => PersistPlanView::Fail(removed_text(name, path)),
            Some(i) => if users[i].hash != INIT_HASH@ {
                PersistPlanView::Adopt(users[i].hash)
            } else {
                PersistPlanView::Write(
                    users.update(i, UserView { hash: new_hash, ..users[i] }),
                )
            },
        },
    }
}

/// An optional configuration over views.
pub open spec fn config_view(c: Option<UsersConfig>) -> Option<Seq<UserView>> {
    match c {
        Some(c) => Some(c@),
        None => None,
    }
}

/// An optional list of accounts over views.
pub open spec fn list_view(l: Option<Vec<User>>) -> Option<Seq<UserView>> {
    match l {
        Some(l) => Some(users_view(l@)),
        None => None,
    }
}

/// Plans the write of one claim. `on_disk` is the content of the users file,
/// read under its lock, `None` where there is no file.
pub fn persist_claim(
    on_disk: Option<UsersConfig>,
    path: &str,
    name: &str,
    new_hash: &str,
    fallback_users: Option<Vec<User>>,
) -> (r: PersistPlan)
    ensures
        plan_view(r) == Some(
            plan_of(config_view(on_disk), path@, name@, new_hash@, list_view(fallback_users)),
        ),
{
    let mut disk = match on_disk {
        Some(disk) => disk,
        None => {
            return match fallback_users {
                Some(users) => PersistPlan::Write(UsersConfig { users }),
                None => PersistPlan::Settled(
                    ClaimPersist::Failed(
                        join(
                            &join("users file ", path),
                            " disappeared before the claim could be persisted",
                        ),
                    ),
                ),
            };
        },
    };
    match position(&disk.users, name) {
        None => PersistPlan::Settled(
            ClaimPersist::Failed(
                join(
                    &join(&join(&join("user '", name), "' no longer exists in "), path),
                    " — removed by a concurrent CLI edit, not re-adding it",
                ),
            ),
        ),
        Some(i) => {
            let hash = disk.users[i].hash.clone();
            assert(disk@[i as int].hash == hash@);
            if !same_text(&hash, INIT_HASH) {
                return PersistPlan::Settled(ClaimPersist::DiskHashChanged(hash));
            }
            set_hash(&mut disk.users, i, new_hash);
            PersistPlan::Write(disk)
        },
    }
}

/// What became of the write that a plan asked for.
pub fn write_outcome(error: Option<String>) -> (r: ClaimPersist)
    ensures
        match error {
            None => r == ClaimPersist::Written,
            Some(e) => r matches ClaimPersist::Failed(t) && t@ == e@,
        },
{
    match error {
        None => ClaimPersist::Written,
        Some(e) => ClaimPersist::Failed(e),
    }
}

/// The notice for the operator about a claim that was not persisted.
pub fn claim_failure_notice(path: &str, name: &str, error: &str) -> (r: String)
    ensures
        r@ == "init-claim: failed to persist "@ + path@ + " after first-login of '"@ + name@
            + "': "@ + error@,
{
    join(
        &join(
            &join(
                &join(&join("init-claim: failed to persist ", path), " after first-login of '"),
                name,
            ),
            "': ",
        ),
        error,
    )
}

/// A claim that is merged into the file changes the hash of its own account
/// there and nothing else: what another process wrote stays.
pub proof fn merged_claim_keeps_other_accounts(
    disk: Seq<UserView>,
    path: Seq<char>,
    name: Seq<char>,
    new_hash: Seq<char>,
    fallback: Option<Seq<UserView>>,
    written: Seq<UserView>,
    i: int,
)
    requires
        plan_of(Some(disk), path, name, new_hash, fallback) == PersistPlanView::Write(written),
        0 <= i < disk.len(),
    ensures
        written.len() == disk.len(),
        position_of(disk, name) is Some,
        disk[position_of(disk, name)->0].hash == INIT_HASH@,
        written[i] == (if position_of(disk, name) == Some(i) {
            UserView { hash: new_hash, ..disk[i] }
        } else {
            disk[i]
        }),
{
    lemma_position_from(disk, name, 0);
}

/// An account that is not in the file is not added to it by a claim.
pub proof fn removed_account_is_not_readded(
    disk: Seq<UserView>,
    path: Seq<char>,
    name: Seq<char>,
    new_hash: Seq<char>,
    fallback: Option<Seq<UserView>>,
)
    requires
        forall|i: int| 0 <= i < disk.len() ==> (#[trigger] disk[i]).name != name,
    ensures
        plan_of(Some(disk), path, name, new_hash, fallback) is Fail,
{
    lemma_position_from(disk, name, 0);
}

/// A password that reached the file before the claim is never overwritten.
pub proof fn committed_hash_on_disk_wins(
    disk: Seq<UserView>,
    path: Seq<char>,
    name: Seq<char>,
    new_hash: Seq<char>,
    fallback: Option<Seq<UserView>>,
    i: int,
)
    requires
        position_of(disk, name) == Some(i),
        disk[i].hash != INIT_HASH@,
    ensures
        plan_of(Some(disk), path, name, new_hash, fallback) == PersistPlanView::Adopt(disk[i].hash),
{
}

/// Without a file the whole list is written, if there is one to write; a file
/// that was there and has gone is not made anew.
pub proof fn missing_file_gets_the_list(
    path: Seq<char>,
    name: Seq<char>,
    new_hash: Seq<char>,
    list: Seq<UserView>,
)
    ensures
        plan_of(None, path, name, new_hash, Some(list)) == PersistPlanView::Write(list),
        plan_of(None, path, name, new_hash, None) == PersistPlanView::Fail(
            "users file "@ + path + " disappeared before the claim could be persisted"@,
        ),
{
}

/// A plan, and what it is made from, is seen as it is.
pub proof fn plans_are_seen_as_they_are(c: UsersConfig, list: Vec<User>, text: String)
    ensures
        plan_view(PersistPlan::Write(c)) == Some(PersistPlanView::Write(c@)),
        plan_view(PersistPlan::Settled(ClaimPersist::DiskHashChanged(text))) == Some(
            PersistPlanView::Adopt(text@),
        ),
        plan_view(PersistPlan::Settled(ClaimPersist::Failed(text))) == Some(
            PersistPlanView::Fail(text@),
        ),
        plan_view(PersistPlan::Settled(ClaimPersist::Written)) is None,
        config_view(Some(c)) == Some(c@),
        config_view(None) is None,
        list_view(Some(list)) == Some(users_view(list@)),
        list_view(None) is None,
{
}

} // verus!
