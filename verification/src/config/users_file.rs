//! Atomic, cross-process-safe persistence of the configuration files.
//!
//! A write goes to `<target>.tmp` in the same directory, is flushed, and is
//! then committed over the target in one name-space operation. Writers hold an
//! advisory lock on `<target>.lock` and read the file again under it, so that
//! a change is merged into what is on disk. The operating system releases the
//! lock when its holder dies.
//!
//! The steps are decided here; the operations themselves are carried out by
//! the caller, which reports each result back.

use vstd::prelude::*;

use crate::text::{join, number_text, push_number, signed_decimal, signed_text};

verus! {

/// How long to wait for the lock of a file.
pub const LOCK_TIMEOUT_MS: u64 = 10000;

/// How long to wait between two attempts to take a lock.
pub const LOCK_POLL_MS: u64 = 10;

/// The suffix of the file that a write goes to first.
pub const TMP_SUFFIX: &'static str = ".tmp";

/// The suffix of the file that the lock is on.
pub const LOCK_SUFFIX: &'static str = ".lock";

/// The path beside `path` with `suffix` at its end.
pub fn sibling_path(path: &str, suffix: &str) -> (r: String)
    ensures
        r@ == path@ + suffix@,
{
    join(path, suffix)
}

/// The families of operating systems that differ in how a file is committed
/// and locked.
#[derive(Clone, Copy, Debug, PartialEq, Eq, Structural)]
pub enum Platform {
    Unix,
    Windows,
    Other,
}

/// The Windows error code of a lock that another process holds.
pub const ERROR_LOCK_VIOLATION: i32 = 33;

/// Whether a failed attempt to take a lock means that the lock is held by
/// another process: on unix, that the call would have blocked.
pub fn is_lock_busy(platform: Platform, would_block: bool, os_code: Option<i32>) -> (r: bool)
    ensures
        r == match platform {
            Platform::Unix => would_block,
            Platform::Windows => os_code == Some(ERROR_LOCK_VIOLATION),
            Platform::Other => false,
        },
{
    match platform {
        Platform::Unix => would_block,
        Platform::Windows => match os_code {
            Some(code) => code == ERROR_LOCK_VIOLATION,
            None => false,
        },
        Platform::Other => false,
    }
}

/// The result of one attempt to take a lock.
#[derive(Clone, Copy, Debug, PartialEq, Eq, Structural)]
pub enum LockAttempt {
    Taken,
    Busy,
    Failed,
}

/// What to do after an attempt to take a lock.
#[derive(Clone, Copy, Debug, PartialEq, Eq, Structural)]
pub enum LockStep {
    /// The lock is held.
    Hold,
    /// Wait this many milliseconds and try again.
    Wait(u64),
    /// Give up: the lock is held by a live process.
    TimedOut,
    /// Give up: the lock cannot be taken at all.
    Fail,
}

/// What to do after an attempt to take a lock, at a time, with a deadline.
pub open spec fn lock_step(attempt: LockAttempt, now_ms: u64, deadline_ms: u64) -> LockStep {
    match attempt {
        LockAttempt::Taken => LockStep::Hold,
        LockAttempt::Failed => LockStep::Fail,
        LockAttempt::Busy => if now_ms >= deadline_ms {
            LockStep::TimedOut
        } else {
            LockStep::Wait(LOCK_POLL_MS)
        },
    }
}

/// Decides what to do after an attempt to take a lock.
pub fn next_lock_step(attempt: LockAttempt, now_ms: u64, deadline_ms: u64) -> (r: LockStep)
    ensures
        r == lock_step(attempt, now_ms, deadline_ms),
{
    match attempt {
        LockAttempt::Taken => LockStep::Hold,
        LockAttempt::Failed => LockStep::Fail,
        LockAttempt::Busy => {
            if now_ms >= deadline_ms {
                LockStep::TimedOut
            } else {
                LockStep::Wait(LOCK_POLL_MS)
            }
        },
    }
}

/// One attempt to take a lock, and when it was made.
pub struct LockTry {
    pub attempt: LockAttempt,
    pub now_ms: u64,
}

/// How the wait for a lock ends, given the attempts in their order: with the
/// first step that is not another wait. `None` while the wait goes on.
pub open spec fn lock_outcome(tries: Seq<LockTry>, deadline_ms: u64) -> Option<LockStep>
    decreases tries.len(),
{
    if tries.len() == 0 {
        None
    } else {
        let step = lock_step(tries[0].attempt, tries[0].now_ms, deadline_ms);
        if step is Wait {
            lock_outcome(tries.skip(1), deadline_ms)
        } else {
            Some(step)
        }
    }
}

/// A lock that stays busy is never had: the wait for it goes on before the
/// deadline and is given up at the first attempt past it.
pub proof fn held_lock_times_out(tries: Seq<LockTry>, deadline_ms: u64)
    requires
        forall|i: int| 0 <= i < tries.len() ==> (#[trigger] tries[i]).attempt == LockAttempt::Busy,
    ensures
        lock_outcome(tries, deadline_ms) == (if exists|i: int|
            0 <= i < tries.len() && (#[trigger] tries[i]).now_ms >= deadline_ms {
            Some(LockStep::TimedOut)
        } else {
            None
        }),
    decreases tries.len(),
{
    if tries.len() > 0 {
        assert(tries[0].attempt == LockAttempt::Busy);
        let rest = tries.skip(1);
        assert forall|i: int| 0 <= i < rest.len() implies (#[trigger] rest[i]).attempt
            == LockAttempt::Busy by {
            assert(rest[i] == tries[i + 1]);
        }
        held_lock_times_out(rest, deadline_ms);
        if tries[0].now_ms < deadline_ms {
            if exists|i: int| 0 <= i < tries.len() && (#[trigger] tries[i]).now_ms >= deadline_ms {
                let i = choose|i: int|
                    0 <= i < tries.len() && (#[trigger] tries[i]).now_ms >= deadline_ms;
                assert(rest[i - 1] == tries[i]);
            }
            if exists|i: int| 0 <= i < rest.len() && (#[trigger] rest[i]).now_ms >= deadline_ms {
                let i = choose|i: int|
                    0 <= i < rest.len() && (#[trigger] rest[i]).now_ms >= deadline_ms;
                assert(tries[i + 1] == rest[i]);
            }
        }
    }
}

/// A lock that comes free before the deadline is had at the next attempt.
pub proof fn released_lock_is_had(tries: Seq<LockTry>, deadline_ms: u64)
    requires
        tries.len() > 0,
        tries.last().attempt == LockAttempt::Taken,
        forall|i: int|
            0 <= i < tries.len() - 1 ==> (#[trigger] tries[i]).attempt == LockAttempt::Busy
                && tries[i].now_ms < deadline_ms,
    ensures
        lock_outcome(tries, deadline_ms) == Some(LockStep::Hold),
    decreases tries.len(),
{
    if tries.len() > 1 {
        assert(tries[0].attempt == LockAttempt::Busy);
        let rest = tries.skip(1);
        assert forall|i: int| 0 <= i < rest.len() - 1 implies (#[trigger] rest[i]).attempt
            == LockAttempt::Busy && rest[i].now_ms < deadline_ms by {
            assert(rest[i] == tries[i + 1]);
        }
        released_lock_is_had(rest, deadline_ms);
    }
}

/// Whoever holds a lock took it: no wait ends in holding it without an attempt
/// that the operating system granted, and it grants none while another holds
/// the lock.
pub proof fn lock_is_had_only_when_granted(tries: Seq<LockTry>, deadline_ms: u64)
    requires
        lock_outcome(tries, deadline_ms) == Some(LockStep::Hold),
    ensures
        exists|i: int| 0 <= i < tries.len() && (#[trigger] tries[i]).attempt == LockAttempt::Taken,
    decreases tries.len(),
{
    if tries[0].attempt != LockAttempt::Taken {
        let rest = tries.skip(1);
        lock_is_had_only_when_granted(rest, deadline_ms);
        let i = choose|i: int|
            0 <= i < rest.len() && (#[trigger] rest[i]).attempt == LockAttempt::Taken;
        assert(tries[i + 1] == rest[i]);
    }
}

/// The text about a lock that could not be had in time.
pub fn lock_timeout_text(lock_path: &str) -> (r: String)
    ensures
        r@ == "timed out waiting for users-file lock "@ + lock_path@
            + " — another resocks5 process is holding it (the OS releases the lock automatically if that process dies)"@,
{
    join(
        &join("timed out waiting for users-file lock ", lock_path),
        " — another resocks5 process is holding it (the OS releases the lock automatically if that process dies)",
    )
}

/// The mode of a file that replaces none, on systems where files have modes:
/// for its owner alone.
pub const NEW_FILE_MODE: u32 = 0o600;

/// The operation that a write waits for.
#[derive(Clone, Copy, Debug, PartialEq, Eq, Structural)]
pub enum WriteAction {
    /// Ask for the mode of the target.
    StatTarget,
    /// Create the temporary file, private to its owner: with this mode where
    /// files have modes. It must not exist.
    CreateTmp(u32),
    /// Give the temporary file the mode of the target.
    Chmod(u32),
    /// Write the content.
    WriteContent,
    /// Flush the content to disk.
    SyncContent,
    /// Rename the temporary file over the target.
    Rename,
    /// Flush the directory.
    SyncDir,
    /// Replace the target by the temporary file, keeping its access rights.
    Replace,
    /// Rename the temporary file to a target that does not exist.
    RenameFirst,
    /// Remove the temporary file, then fail.
    RemoveTmp(WriteFailure),
    /// The write is done.
    Done,
    /// The write has failed.
    Fail(WriteFailure),
}

/// Why a write failed.
#[derive(Clone, Copy, Debug, PartialEq, Eq, Structural)]
pub enum WriteFailure {
    Stat,
    Create,
    Chmod(u32),
    Write,
    Flush,
    Rename,
    SyncDir,
    RenameFirst,
    /// The replacement started and did not end; the temporary file holds the
    /// only copy of the new content.
    ReplaceUndetermined(i32),
    /// Nothing was replaced.
    ReplaceRefused(i32),
}

/// The result of an operation.
#[derive(Clone, Copy, Debug, PartialEq, Eq, Structural)]
pub enum WriteEvent {
    Succeeded,
    /// The mode of the target; `None` where there is no target.
    Mode(Option<u32>),
    NotFound,
    /// Any other failure, with the code of the operating system.
    Failed(i32),
}

/// The codes of a Windows replacement that started and did not end.
pub const ERROR_UNABLE_TO_MOVE_REPLACEMENT: i32 = 1176;

/// As above, with both files under changed names.
pub const ERROR_UNABLE_TO_MOVE_REPLACEMENT_2: i32 = 1177;

/// The first operation of a write.
pub open spec fn first_action(platform: Platform) -> WriteAction {
    if platform == Platform::Unix {
        WriteAction::StatTarget
    } else {
        WriteAction::CreateTmp(NEW_FILE_MODE)
    }
}

/// The operation after the one that has had this result. `mode` is the mode
/// that the replaced file had.
pub open spec fn action_after(
    platform: Platform,
    mode: Option<u32>,
    pending: WriteAction,
    event: WriteEvent,
) -> WriteAction {
    let ok = event == WriteEvent::Succeeded;
    match pending {
        WriteAction::StatTarget => if event is Mode {
            WriteAction::CreateTmp(NEW_FILE_MODE)
        } else {
            WriteAction::Fail(WriteFailure::Stat)
        },
        WriteAction::CreateTmp(_) => if !ok {
            WriteAction::Fail(WriteFailure::Create)
        } else {
            match mode {
                Some(m) => WriteAction::Chmod(m),
                None => WriteAction::WriteContent,
            }
        },
        WriteAction::Chmod(m) => if ok {
            WriteAction::WriteContent
        } else {
            WriteAction::RemoveTmp(WriteFailure::Chmod(m))
        },
        WriteAction::WriteContent => if ok {
            WriteAction::SyncContent
        } else {
            WriteAction::RemoveTmp(WriteFailure::Write)
        },
        WriteAction::SyncContent => if !ok {
            WriteAction::RemoveTmp(WriteFailure::Flush)
        } else if platform == Platform::Windows {
            WriteAction::Replace
        } else {
            WriteAction::Rename
        },
        WriteAction::Rename => if !ok {
            WriteAction::RemoveTmp(WriteFailure::Rename)
        } else if platform == Platform::Unix {
            WriteAction::SyncDir
        } else {
            WriteAction::Done
        },
        WriteAction::SyncDir => if ok {
            WriteAction::Done
        } else {
            WriteAction::Fail(WriteFailure::SyncDir)
        },
        WriteAction::Replace => match event {
            WriteEvent::Succeeded => WriteAction::Done,
            WriteEvent::NotFound => WriteAction::RenameFirst,
            WriteEvent::Mode(_) => WriteAction::RemoveTmp(WriteFailure::ReplaceRefused(0)),
            WriteEvent::Failed(code) => if code == ERROR_UNABLE_TO_MOVE_REPLACEMENT || code
                == ERROR_UNABLE_TO_MOVE_REPLACEMENT_2 {
                WriteAction::Fail(WriteFailure::ReplaceUndetermined(code))
            } else {
                WriteAction::RemoveTmp(WriteFailure::ReplaceRefused(code))
            },
        },
        WriteAction::RenameFirst => if ok {
            WriteAction::Done
        } else {
            WriteAction::Fail(WriteFailure::RenameFirst)
        },
        WriteAction::RemoveTmp(f) => WriteAction::Fail(f),
        WriteAction::Done => WriteAction::Done,
        WriteAction::Fail(f) => WriteAction::Fail(f),
    }
}

/// One atomic write.
#[derive(Debug)]
pub struct AtomicWrite {
    platform: Platform,
    mode: Option<u32>,
    pending: WriteAction,
}

/// [`AtomicWrite`] as plain values.
pub struct AtomicWriteView {
    pub platform: Platform,
    pub mode: Option<u32>,
    pub pending: WriteAction,
}

impl View for AtomicWrite {
    type V = AtomicWriteView;

    closed spec fn view(&self) -> AtomicWriteView {
        AtomicWriteView { platform: self.platform, mode: self.mode, pending: self.pending }
    }
}

/// A write that starts.
pub open spec fn write_begun(platform: Platform) -> AtomicWriteView {
    AtomicWriteView { platform, mode: None, pending: first_action(platform) }
}

/// A write after the pending operation has had this result.
pub open spec fn write_after(v: AtomicWriteView, event: WriteEvent) -> AtomicWriteView {
    AtomicWriteView {
        platform: v.platform,
        mode: match (v.pending, event) {
            (WriteAction::StatTarget, WriteEvent::Mode(m)) => m,
            _ => v.mode,
        },
        pending: action_after(v.platform, v.mode, v.pending, event),
    }
}

impl AtomicWrite {
    /// Starts a write.
    pub fn begin(platform: Platform) -> (r: Self)
        ensures
            r@ == write_begun(platform),
    {
        let pending = match platform {
            Platform::Unix => WriteAction::StatTarget,
            _ => WriteAction::CreateTmp(NEW_FILE_MODE),
        };
        AtomicWrite { platform, mode: None, pending }
    }

    /// The operation to carry out now.
    pub fn pending(&self) -> (r: WriteAction)
        ensures
            r == self@.pending,
    {
        self.pending
    }

    /// Reports the result of the pending operation.
    pub fn report(&mut self, event: WriteEvent)
        ensures
            final(self)@ == write_after(old(self)@, event),
    {
        let ok = match event {
            WriteEvent::Succeeded => true,
            _ => false,
        };
        let next = match self.pending {
            WriteAction::StatTarget => match event {
                WriteEvent::Mode(m) => {
                    self.mode = m;
                    WriteAction::CreateTmp(NEW_FILE_MODE)
                },
                _ => WriteAction::Fail(WriteFailure::Stat),
            },
            WriteAction::CreateTmp(_) => {
                if !ok {
                    WriteAction::Fail(WriteFailure::Create)
                } else {
                    match self.mode {
                        Some(m) => WriteAction::Chmod(m),
                        None => WriteAction::WriteContent,
                    }
                }
            },
            WriteAction::Chmod(m) => {
                if ok {
                    WriteAction::WriteContent
                } else {
                    WriteAction::RemoveTmp(WriteFailure::Chmod(m))
                }
            },
            WriteAction::WriteContent => {
                if ok {
                    WriteAction::SyncContent
                } else {
                    WriteAction::RemoveTmp(WriteFailure::Write)
                }
            },
            WriteAction::SyncContent => {
                if !ok {
                    WriteAction::RemoveTmp(WriteFailure::Flush)
                } else {
                    match self.platform {
                        Platform::Windows => WriteAction::Replace,
                        _ => WriteAction::Rename,
                    }
                }
            },
            WriteAction::Rename => {
                if !ok {
                    WriteAction::RemoveTmp(WriteFailure::Rename)
                } else {
                    match self.platform {
                        Platform::Unix => WriteAction::SyncDir,
                        _ => WriteAction::Done,
                    }
                }
            },
            WriteAction::SyncDir => {
                if ok {
                    WriteAction::Done
                } else {
                    WriteAction::Fail(WriteFailure::SyncDir)
                }
            },
            WriteAction::Replace => match event {
                WriteEvent::Succeeded => WriteAction::Done,
                WriteEvent::NotFound => WriteAction::RenameFirst,
                WriteEvent::Mode(_) => WriteAction::RemoveTmp(WriteFailure::ReplaceRefused(0)),
                WriteEvent::Failed(code) => {
                    if code == ERROR_UNABLE_TO_MOVE_REPLACEMENT || code
                        == ERROR_UNABLE_TO_MOVE_REPLACEMENT_2 {
                        WriteAction::Fail(WriteFailure::ReplaceUndetermined(code))
                    } else {
                        WriteAction::RemoveTmp(WriteFailure::ReplaceRefused(code))
                    }
                },
            },
            WriteAction::RenameFirst => {
                if ok {
                    WriteAction::Done
                } else {
                    WriteAction::Fail(WriteFailure::RenameFirst)
                }
            },
            WriteAction::RemoveTmp(f) => WriteAction::Fail(f),
            WriteAction::Done => WriteAction::Done,
            WriteAction::Fail(f) => WriteAction::Fail(f),
        };
        self.pending = next;
    }
}

/// The context of a failed write for the operator; `None` where the error of
/// the operating system says it all.
pub open spec fn failure_text(f: WriteFailure, tmp: Seq<char>, path: Seq<char>) -> Option<
    Seq<char>,
> {
    match f {
        WriteFailure::Stat => None,
        WriteFailure::Create => Some(
            "create "@ + tmp + "; any existing recovery file was preserved"@,
        ),
        WriteFailure::Chmod(mode) => Some("chmod "@ + tmp + " to "@ + number_text(mode as nat, 8)),
        WriteFailure::Write => Some("write "@ + tmp),
        WriteFailure::Flush => Some("flush "@ + tmp),
        WriteFailure::Rename => Some("replace "@ + path + " with "@ + tmp),
        WriteFailure::SyncDir => Some(
            "sync parent directory after replacing "@ + path + " with "@ + tmp
                + " — the replacement itself has already taken effect, the commit outcome is undetermined"@,
        ),
        WriteFailure::RenameFirst => Some("create "@ + path + " from "@ + tmp),
        WriteFailure::ReplaceUndetermined(code) => Some(
            "replace "@ + path + " with "@ + tmp + " failed after the commit started (os error "@
                + signed_text(code as int)
                + "): the target may no longer contain the old content and the commit outcome is undetermined; the new content is preserved at "@
                + tmp,
        ),
        WriteFailure::ReplaceRefused(code) => Some(
            "replace "@ + path + " with "@ + tmp + " failed (os error "@ + signed_text(code as int)
                + "): the original file was left intact and no backup file exists (lpBackupFileName is NULL)"@,
        ),
    }
}

/// `first` and `second` with `word` between them, behind `verb`.
fn phrase(verb: &str, first: &str, word: &str, second: &str) -> (r: String)
    ensures
        r@ == verb@ + first@ + word@ + second@,
{
    join(&join(&join(verb, first), word), second)
}

impl WriteFailure {
    /// The context of a failed write for the operator.
    pub fn context(&self, tmp: &str, path: &str) -> (r: Option<String>)
        ensures
            match r {
                Some(s) => failure_text(*self, tmp@, path@) == Some(s@),
                None => failure_text(*self, tmp@, path@) is None,
            },
    {
        match self {
            WriteFailure::Stat => None,
            WriteFailure::Create => Some(
                join(&join("create ", tmp), "; any existing recovery file was preserved"),
            ),
            WriteFailure::Chmod(mode) => {
                let mut s = join(&join("chmod ", tmp), " to ");
                push_number(&mut s, *mode as u64, 8);
                Some(s)
            },
            WriteFailure::Write => Some(join("write ", tmp)),
            WriteFailure::Flush => Some(join("flush ", tmp)),
            WriteFailure::Rename => Some(phrase("replace ", path, " with ", tmp)),
            WriteFailure::SyncDir => Some(
                join(
                    &phrase("sync parent directory after replacing ", path, " with ", tmp),
                    " — the replacement itself has already taken effect, the commit outcome is undetermined",
                ),
            ),
            WriteFailure::RenameFirst => Some(phrase("create ", path, " from ", tmp)),
            WriteFailure::ReplaceUndetermined(code) => {
                let start = join(
                    &phrase("replace ", path, " with ", tmp),
                    " failed after the commit started (os error ",
                );
                let middle = join(
                    &join(&start, &signed_decimal(*code)),
                    "): the target may no longer contain the old content and the commit outcome is undetermined; the new content is preserved at ",
                );
                Some(join(&middle, tmp))
            },
            WriteFailure::ReplaceRefused(code) => {
                let start = join(
                    &phrase("replace ", path, " with ", tmp),
                    " failed (os error ",
                );
                Some(
                    join(
                        &join(&start, &signed_decimal(*code)),
                        "): the original file was left intact and no backup file exists (lpBackupFileName is NULL)",
                    ),
                )
            },
        }
    }
}

/// The two files that a write works on.
pub struct FilesView {
    /// The content of the target, if it exists.
    pub target: Option<Seq<u8>>,
    /// The content of the temporary file, if it exists.
    pub tmp: Option<Seq<u8>>,
}

/// Whether an operation with this result can turn `a` into `b`, when `content`
/// is to be written. A failed operation on the temporary file may leave it
/// with any content; a Windows replacement that started and did not end may
/// have moved the target away.
pub open spec fn can_turn(
    pending: WriteAction,
    event: WriteEvent,
    content: Seq<u8>,
    a: FilesView,
    b: FilesView,
) -> bool {
    let ok = event == WriteEvent::Succeeded;
    match pending {
        WriteAction::StatTarget => b == a,
        WriteAction::CreateTmp(_) => if ok {
            a.tmp is None && b.target == a.target && b.tmp == Some(Seq::<u8>::empty())
        } else {
            b == a
        },
        WriteAction::Chmod(_) => b == a,
        WriteAction::WriteContent => {
            &&& b.target == a.target
            &&& b.tmp is Some
            &&& ok ==> b.tmp == Some(content)
        },
        WriteAction::SyncContent => b == a,
        WriteAction::Rename => if ok {
            b.target == a.tmp && b.tmp is None
        } else {
            b == a
        },
        WriteAction::SyncDir => b == a,
        WriteAction::Replace => if ok {
            b.target == a.tmp && b.tmp is None
        } else if event == WriteEvent::Failed(ERROR_UNABLE_TO_MOVE_REPLACEMENT) || event
            == WriteEvent::Failed(ERROR_UNABLE_TO_MOVE_REPLACEMENT_2) {
            (b.target == a.target || b.target is None) && b.tmp == a.tmp
        } else {
            b == a && (event == WriteEvent::NotFound ==> a.target is None)
        },
        WriteAction::RenameFirst => if ok {
            b.target == a.tmp && b.tmp is None
        } else {
            b == a
        },
        WriteAction::RemoveTmp(_) => b.target == a.target && (b.tmp == a.tmp || b.tmp is None),
        WriteAction::Done => b == a,
        WriteAction::Fail(_) => b == a,
    }
}

/// The failures after which the temporary file is removed: those before the
/// commit, and those of a commit that changed nothing.
pub open spec fn is_cleaned_up(f: WriteFailure) -> bool {
    f is Chmod || f is Write || f is Flush || f is Rename || f is ReplaceRefused
}

/// What holds of the files while an operation is pending, for a write of
/// `content` over `before`. Until the commit the target is untouched, and
/// only a fully written file is ever committed. Past its creation the
/// temporary file is one that this write made.
pub open spec fn files_ok(
    pending: WriteAction,
    content: Seq<u8>,
    before: FilesView,
    now: FilesView,
) -> bool {
    match pending {
        WriteAction::StatTarget => now == before,
        WriteAction::CreateTmp(_) => now == before,
        WriteAction::Fail(WriteFailure::Stat) => now == before,
        WriteAction::Fail(WriteFailure::Create) => now == before,
        _ => before.tmp is None && match pending {
            WriteAction::Chmod(_) => now.target == before.target && now.tmp is Some,
            WriteAction::WriteContent => now.target == before.target && now.tmp is Some,
            WriteAction::SyncContent => now.target == before.target && now.tmp == Some(content),
            WriteAction::Rename => now.target == before.target && now.tmp == Some(content),
            WriteAction::Replace => now.target == before.target && now.tmp == Some(content),
            WriteAction::RenameFirst => now.target == before.target && now.tmp == Some(content),
            WriteAction::SyncDir => now.target == Some(content) && now.tmp is None,
            WriteAction::RemoveTmp(f) => now.target == before.target && is_cleaned_up(f),
            WriteAction::Done => now.target == Some(content) && now.tmp is None,
            WriteAction::Fail(WriteFailure::SyncDir) => now.target == Some(content) && now.tmp
                is None,
            WriteAction::Fail(WriteFailure::RenameFirst) => now.target == before.target && now.tmp
                == Some(content),
            WriteAction::Fail(WriteFailure::ReplaceUndetermined(_)) => (now.target == before.target
                || now.target is None) && now.tmp == Some(content),
            _ => now.target == before.target,
        },
    }
}

/// Every step of a write keeps its promise about the files.
pub proof fn write_keeps_files_ok(
    platform: Platform,
    mode: Option<u32>,
    pending: WriteAction,
    event: WriteEvent,
    content: Seq<u8>,
    before: FilesView,
    a: FilesView,
    b: FilesView,
)
    requires
        files_ok(pending, content, before, a),
        can_turn(pending, event, content, a, b),
    ensures
        files_ok(action_after(platform, mode, pending, event), content, before, b),
{
}

/// Whether a write takes one step from state and files to state and files.
pub open spec fn is_write_step(
    v: AtomicWriteView,
    a: FilesView,
    event: WriteEvent,
    content: Seq<u8>,
    w: AtomicWriteView,
    b: FilesView,
) -> bool {
    can_turn(v.pending, event, content, a, b) && w == write_after(v, event)
}

/// Whether these are the states and the files of a write, from its start, with
/// the results of its operations. The write need not have ended.
pub open spec fn is_write_run(
    platform: Platform,
    content: Seq<u8>,
    states: Seq<AtomicWriteView>,
    files: Seq<FilesView>,
    events: Seq<WriteEvent>,
) -> bool {
    &&& states.len() == events.len() + 1
    &&& files.len() == events.len() + 1
    &&& states[0] == write_begun(platform)
    &&& forall|i: int|
        0 <= i < events.len() ==> is_write_step(
            states[i],
            files[i],
            #[trigger] events[i],
            content,
            states[i + 1],
            files[i + 1],
        )
}

/// At every moment of a write, so also where the process dies, the target has
/// its old content or the whole new one. The one exception is a replacement
/// that Windows started and did not end: the target may be gone then, and the
/// whole new content is in the temporary file. A temporary file that was there
/// before stays, and so does the target beside it.
pub proof fn target_is_never_torn(
    platform: Platform,
    content: Seq<u8>,
    states: Seq<AtomicWriteView>,
    files: Seq<FilesView>,
    events: Seq<WriteEvent>,
    i: int,
)
    requires
        is_write_run(platform, content, states, files, events),
        0 <= i <= events.len(),
    ensures
        files_ok(states[i].pending, content, files[0], files[i]),
        ({
            ||| files[i].target == files[0].target
            ||| files[i].target == Some(content)
            ||| {
                &&& states[i].pending matches WriteAction::Fail(f) && f is ReplaceUndetermined
                &&& files[i].target is None
                &&& files[i].tmp == Some(content)
            }
        }),
        files[0].tmp is Some ==> files[i] == files[0],
    decreases i,
{
    if i > 0 {
        target_is_never_torn(platform, content, states, files, events, i - 1);
        let event = events[i - 1];
        write_keeps_files_ok(
            states[i - 1].platform,
            states[i - 1].mode,
            states[i - 1].pending,
            event,
            content,
            files[0],
            files[i - 1],
            files[i],
        );
    }
}

/// A write that is done has replaced the target as a whole, and its temporary
/// file is gone.
pub proof fn finished_write_replaces_the_file(
    platform: Platform,
    content: Seq<u8>,
    states: Seq<AtomicWriteView>,
    files: Seq<FilesView>,
    events: Seq<WriteEvent>,
)
    requires
        is_write_run(platform, content, states, files, events),
        states.last().pending is Done,
    ensures
        files[0].tmp is None,
        files.last().target == Some(content),
        files.last().tmp is None,
{
    target_is_never_torn(platform, content, states, files, events, events.len() as int);
}

/// The modes of the two files that a write works on.
pub struct ModesView {
    /// The mode of the target, if it exists.
    pub target: Option<u32>,
    /// The mode of the temporary file, if it exists.
    pub tmp: Option<u32>,
}

/// Whether an operation with this result can turn the modes `a` into `b`, on
/// unix: a file is created with the mode that is asked for, writing changes no
/// mode, and a renamed file keeps its own.
pub open spec fn can_turn_modes(
    pending: WriteAction,
    event: WriteEvent,
    a: ModesView,
    b: ModesView,
) -> bool {
    let ok = event == WriteEvent::Succeeded;
    match pending {
        WriteAction::StatTarget => b == a && (event matches WriteEvent::Mode(m) ==> m == a.target),
        WriteAction::CreateTmp(m) => if ok {
            b.target == a.target && b.tmp == Some(m)
        } else {
            b == a
        },
        WriteAction::Chmod(m) => b.target == a.target && (ok ==> b.tmp == Some(m)),
        WriteAction::Rename => if ok {
            b.target == a.tmp && b.tmp is None
        } else {
            b == a
        },
        WriteAction::RemoveTmp(_) => b.target == a.target,
        _ => b == a,
    }
}

/// The mode that a file ends up with: that of the file it replaces.
pub open spec fn kept_mode(before: Option<u32>) -> u32 {
    match before {
        Some(m) => m,
        None => NEW_FILE_MODE,
    }
}

/// What holds of the modes while an operation of a write on unix is pending.
/// What is committed has the right mode before it gets any content.
pub open spec fn modes_ok(v: AtomicWriteView, before: ModesView, now: ModesView) -> bool {
    &&& v.platform == Platform::Unix
    &&& match v.pending {
        WriteAction::StatTarget => now.target == before.target && v.mode is None,
        WriteAction::CreateTmp(m) => now.target == before.target && v.mode == before.target && m
            == NEW_FILE_MODE,
        WriteAction::Chmod(m) => now.target == before.target && before.target == Some(m),
        WriteAction::WriteContent => now.target == before.target && now.tmp == Some(
            kept_mode(before.target),
        ),
        WriteAction::SyncContent => now.target == before.target && now.tmp == Some(
            kept_mode(before.target),
        ),
        WriteAction::Rename => now.target == before.target && now.tmp == Some(
            kept_mode(before.target),
        ),
        WriteAction::SyncDir => now.target == Some(kept_mode(before.target)),
        WriteAction::Done => now.target == Some(kept_mode(before.target)),
        WriteAction::Fail(WriteFailure::SyncDir) => now.target == Some(kept_mode(before.target)),
        WriteAction::RemoveTmp(f) => now.target == before.target && is_cleaned_up(f),
        WriteAction::Replace => false,
        WriteAction::RenameFirst => false,
        _ => now.target == before.target,
    }
}

/// Whether these are the states of a write on unix, from its start, and the
/// modes of its files, with the results of its operations.
pub open spec fn is_mode_run(
    states: Seq<AtomicWriteView>,
    modes: Seq<ModesView>,
    events: Seq<WriteEvent>,
) -> bool {
    &&& states.len() == events.len() + 1
    &&& modes.len() == events.len() + 1
    &&& states[0] == write_begun(Platform::Unix)
    &&& forall|i: int|
        0 <= i < events.len() ==> can_turn_modes(
            states[i].pending,
            #[trigger] events[i],
            modes[i],
            modes[i + 1],
        ) && states[i + 1] == write_after(states[i], events[i])
}

/// At every moment of a write on unix the target has its old mode, or is the
/// new file with the mode of the file that it replaces; a file that replaces
/// none is for its owner alone. The temporary file never holds content under
/// another mode.
pub proof fn mode_is_kept_or_private(
    states: Seq<AtomicWriteView>,
    modes: Seq<ModesView>,
    events: Seq<WriteEvent>,
    i: int,
)
    requires
        is_mode_run(states, modes, events),
        0 <= i <= events.len(),
    ensures
        modes_ok(states[i], modes[0], modes[i]),
        modes[i].target == modes[0].target || modes[i].target == Some(kept_mode(modes[0].target)),
        states[i].pending is Done ==> modes[i].target == Some(kept_mode(modes[0].target)),
    decreases i,
{
    if i > 0 {
        mode_is_kept_or_private(states, modes, events, i - 1);
        let event = events[i - 1];
        assert(states[i] == write_after(states[i - 1], event));
    }
}

/// How a write ends. One that is done has put the whole
/// content under the target's name. One that failed has left the target as it
/// was, unless its outcome is undetermined; then the whole content is under
/// the target's name or still in the temporary file.
pub proof fn ended_write_is_all_or_nothing(
    content: Seq<u8>,
    before: FilesView,
    now: FilesView,
    end: WriteAction,
)
    requires
        end is Done || end is Fail,
        files_ok(end, content, before, now),
    ensures
        end is Done ==> now.target == Some(content) && now.tmp is None,
        match end {
            WriteAction::Fail(WriteFailure::SyncDir) => now.target == Some(content),
            WriteAction::Fail(WriteFailure::ReplaceUndetermined(_)) => now.tmp == Some(content)
                && (now.target == before.target || now.target is None),
            WriteAction::Fail(_) => now.target == before.target,
            _ => true,
        },
{
}

/// A temporary file that this write did not create is never removed.
pub proof fn foreign_tmp_is_preserved(
    platform: Platform,
    mode: Option<u32>,
    tmp_mode: u32,
    event: WriteEvent,
)
    requires
        event != WriteEvent::Succeeded,
    ensures
        action_after(platform, mode, WriteAction::CreateTmp(tmp_mode), event) == WriteAction::Fail(
            WriteFailure::Create,
        ),
        !(action_after(platform, mode, WriteAction::StatTarget, event) is RemoveTmp),
{
}

/// How many operations can follow at most.
pub open spec fn operations_left(pending: WriteAction) -> nat {
    match pending {
        WriteAction::StatTarget => 8,
        WriteAction::CreateTmp(_) => 7,
        WriteAction::Chmod(_) => 6,
        WriteAction::WriteContent => 5,
        WriteAction::SyncContent => 4,
        WriteAction::Rename => 3,
        WriteAction::Replace => 3,
        WriteAction::SyncDir => 2,
        WriteAction::RenameFirst => 2,
        WriteAction::RemoveTmp(_) => 1,
        WriteAction::Done => 0,
        WriteAction::Fail(_) => 0,
    }
}

/// Every write comes to an end.
pub proof fn write_ends(
    platform: Platform,
    mode: Option<u32>,
    pending: WriteAction,
    event: WriteEvent,
)
    requires
        !(pending is Done),
        !(pending is Fail),
    ensures
        operations_left(action_after(platform, mode, pending, event)) < operations_left(pending),
{
}

/// Every operation that succeeds is followed by the next one on the way: a file
/// is flushed before it is committed, and on unix the directory after it.
pub proof fn write_takes_its_way(platform: Platform, mode: Option<u32>, m: u32)
    ensures
        action_after(
            platform,
            mode,
            WriteAction::StatTarget,
            WriteEvent::Mode(mode),
        ) == WriteAction::CreateTmp(0o600),
        action_after(
            platform,
            None,
            WriteAction::CreateTmp(m),
            WriteEvent::Succeeded,
        ) == WriteAction::WriteContent,
        action_after(
            platform,
            Some(m),
            WriteAction::CreateTmp(0o600),
            WriteEvent::Succeeded,
        ) == WriteAction::Chmod(m),
        action_after(
            platform,
            mode,
            WriteAction::Chmod(m),
            WriteEvent::Succeeded,
        ) == WriteAction::WriteContent,
        action_after(
            platform,
            mode,
            WriteAction::WriteContent,
            WriteEvent::Succeeded,
        ) == WriteAction::SyncContent,
        action_after(
            platform,
            mode,
            WriteAction::SyncContent,
            WriteEvent::Succeeded,
        ) == (if platform == Platform::Windows {
            WriteAction::Replace
        } else {
            WriteAction::Rename
        }),
        action_after(platform, mode, WriteAction::Rename, WriteEvent::Succeeded) == (if platform
            == Platform::Unix {
            WriteAction::SyncDir
        } else {
            WriteAction::Done
        }),
        action_after(
            platform,
            mode,
            WriteAction::SyncDir,
            WriteEvent::Succeeded,
        ) == WriteAction::Done,
        action_after(
            platform,
            mode,
            WriteAction::Replace,
            WriteEvent::Succeeded,
        ) == WriteAction::Done,
        action_after(
            platform,
            mode,
            WriteAction::RenameFirst,
            WriteEvent::Succeeded,
        ) == WriteAction::Done,
{
}

/// Only the two codes of a replacement that did not end leave its outcome open;
/// a missing target is renamed to; any other code means that nothing changed.
pub proof fn replacement_codes_decide(platform: Platform, mode: Option<u32>, code: i32)
    ensures
        action_after(platform, mode, WriteAction::Replace, WriteEvent::Failed(code)) == (if code
            == 1176 || code == 1177 {
            WriteAction::Fail(WriteFailure::ReplaceUndetermined(code))
        } else {
            WriteAction::RemoveTmp(WriteFailure::ReplaceRefused(code))
        }),
        action_after(
            platform,
            mode,
            WriteAction::Replace,
            WriteEvent::NotFound,
        ) == WriteAction::RenameFirst,
{
}

/// An operation that fails ends the write under its own name, and a temporary
/// file of this write that holds nothing worth keeping is removed.
pub proof fn failed_operation_ends_the_write(
    platform: Platform,
    mode: Option<u32>,
    m: u32,
    event: WriteEvent,
)
    requires
        event is Failed || event is NotFound,
    ensures
        action_after(platform, mode, WriteAction::StatTarget, event) == WriteAction::Fail(
            WriteFailure::Stat,
        ),
        action_after(platform, mode, WriteAction::CreateTmp(m), event) == WriteAction::Fail(
            WriteFailure::Create,
        ),
        action_after(platform, mode, WriteAction::Chmod(m), event) == WriteAction::RemoveTmp(
            WriteFailure::Chmod(m),
        ),
        action_after(platform, mode, WriteAction::WriteContent, event) == WriteAction::RemoveTmp(
            WriteFailure::Write,
        ),
        action_after(platform, mode, WriteAction::SyncContent, event) == WriteAction::RemoveTmp(
            WriteFailure::Flush,
        ),
        action_after(platform, mode, WriteAction::Rename, event) == WriteAction::RemoveTmp(
            WriteFailure::Rename,
        ),
        action_after(platform, mode, WriteAction::SyncDir, event) == WriteAction::Fail(
            WriteFailure::SyncDir,
        ),
        action_after(platform, mode, WriteAction::RenameFirst, event) == WriteAction::Fail(
            WriteFailure::RenameFirst,
        ),
{
}

/// An attempt that is granted ends the wait, one that cannot be made at all
/// ends it too, and a busy lock is tried again every ten milliseconds.
pub proof fn lock_is_tried_until_the_deadline(now_ms: u64, deadline_ms: u64)
    ensures
        lock_step(LockAttempt::Taken, now_ms, deadline_ms) == LockStep::Hold,
        lock_step(LockAttempt::Failed, now_ms, deadline_ms) == LockStep::Fail,
        lock_step(LockAttempt::Busy, now_ms, deadline_ms) == (if now_ms < deadline_ms {
            LockStep::Wait(10)
        } else {
            LockStep::TimedOut
        }),
{
}

/// A failure is told with the files that it is about.
pub proof fn failures_name_their_files(tmp: Seq<char>, path: Seq<char>, mode: u32, code: i32)
    ensures
        failure_text(WriteFailure::Stat, tmp, path) is None,
        failure_text(WriteFailure::Create, tmp, path) == Some(
            "create "@ + tmp + "; any existing recovery file was preserved"@,
        ),
        failure_text(WriteFailure::Chmod(mode), tmp, path) == Some(
            "chmod "@ + tmp + " to "@ + number_text(mode as nat, 8),
        ),
        failure_text(WriteFailure::Write, tmp, path) == Some("write "@ + tmp),
        failure_text(WriteFailure::Flush, tmp, path) == Some("flush "@ + tmp),
        failure_text(WriteFailure::Rename, tmp, path) == Some(
            "replace "@ + path + " with "@ + tmp,
        ),
        failure_text(WriteFailure::RenameFirst, tmp, path) == Some(
            "create "@ + path + " from "@ + tmp,
        ),
        failure_text(WriteFailure::SyncDir, tmp, path) == Some(
            "sync parent directory after replacing "@ + path + " with "@ + tmp
                + " — the replacement itself has already taken effect, the commit outcome is undetermined"@,
        ),
        failure_text(WriteFailure::ReplaceUndetermined(code), tmp, path) == Some(
            "replace "@ + path + " with "@ + tmp + " failed after the commit started (os error "@
                + signed_text(code as int)
                + "): the target may no longer contain the old content and the commit outcome is undetermined; the new content is preserved at "@
                + tmp,
        ),
        failure_text(WriteFailure::ReplaceRefused(code), tmp, path) == Some(
            "replace "@ + path + " with "@ + tmp + " failed (os error "@ + signed_text(code as int)
                + "): the original file was left intact and no backup file exists (lpBackupFileName is NULL)"@,
        ),
{
}

/// A write starts with a look at the mode of the file to replace, where files
/// have one, and keeps that mode; it stays on its platform throughout.
pub proof fn write_keeps_the_mode_it_found(
    v: AtomicWriteView,
    event: WriteEvent,
    platform: Platform,
    mode: Option<u32>,
)
    ensures
        write_begun(platform).platform == platform,
        write_begun(platform).mode is None,
        write_begun(platform).pending == (if platform == Platform::Unix {
            WriteAction::StatTarget
        } else {
            WriteAction::CreateTmp(0o600)
        }),
        write_after(v, event).platform == v.platform,
        v.pending is StatTarget ==> write_after(v, WriteEvent::Mode(mode)).mode == mode,
        !(v.pending is StatTarget && event is Mode) ==> write_after(v, event).mode == v.mode,
        write_after(v, event).pending == action_after(v.platform, v.mode, v.pending, event),
{
}

} // verus!
