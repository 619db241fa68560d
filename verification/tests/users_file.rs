use resocks5::config::users_file::{
    is_lock_busy, lock_timeout_text, next_lock_step, sibling_path, AtomicWrite, LockAttempt,
    LockStep, Platform, WriteAction, WriteEvent, WriteFailure, LOCK_POLL_MS, LOCK_SUFFIX,
    LOCK_TIMEOUT_MS, NEW_FILE_MODE, TMP_SUFFIX,
};
use resocks5::config::wide_path::{wide, wide_absolute, PathPrefix, WidePath};

/// Reports success of every operation and returns the operations.
fn run(platform: Platform, mode: Option<u32>) -> Vec<WriteAction> {
    let mut w = AtomicWrite::begin(platform);
    let mut seen = vec![];
    loop {
        let pending = w.pending();
        seen.push(pending);
        match pending {
            WriteAction::Done | WriteAction::Fail(_) => return seen,
            WriteAction::StatTarget => w.report(WriteEvent::Mode(mode)),
            _ => w.report(WriteEvent::Succeeded),
        }
    }
}

/// Lets the `n`-th operation fail and returns the operations from there on.
fn run_failing(platform: Platform, n: usize, event: WriteEvent) -> Vec<WriteAction> {
    let mut w = AtomicWrite::begin(platform);
    let mut seen = vec![];
    for i in 0.. {
        let pending = w.pending();
        if i >= n {
            seen.push(pending);
        }
        match pending {
            WriteAction::Done | WriteAction::Fail(_) => break,
            _ if i == n => w.report(event),
            WriteAction::StatTarget => w.report(WriteEvent::Mode(Some(0o640))),
            _ => w.report(WriteEvent::Succeeded),
        }
    }
    seen
}

#[test]
fn write_goes_through_a_flushed_temporary_file() {
    assert_eq!(
        run(Platform::Unix, Some(0o640)),
        vec![
            WriteAction::StatTarget,
            WriteAction::CreateTmp(NEW_FILE_MODE),
            WriteAction::Chmod(0o640),
            WriteAction::WriteContent,
            WriteAction::SyncContent,
            WriteAction::Rename,
            WriteAction::SyncDir,
            WriteAction::Done,
        ]
    );
    assert_eq!(NEW_FILE_MODE, 0o600);
    assert_eq!(
        run(Platform::Unix, None)[..3],
        [
            WriteAction::StatTarget,
            WriteAction::CreateTmp(0o600),
            WriteAction::WriteContent,
        ]
    );
    assert_eq!(
        run(Platform::Windows, None),
        vec![
            WriteAction::CreateTmp(NEW_FILE_MODE),
            WriteAction::WriteContent,
            WriteAction::SyncContent,
            WriteAction::Replace,
            WriteAction::Done,
        ]
    );
    assert_eq!(run(Platform::Other, None).len(), 5);
}

#[test]
fn foreign_temporary_file_is_preserved() {
    assert_eq!(
        run_failing(Platform::Other, 0, WriteEvent::Failed(17)),
        vec![WriteAction::CreateTmp(NEW_FILE_MODE), WriteAction::Fail(WriteFailure::Create)]
    );
    assert_eq!(
        run_failing(Platform::Unix, 0, WriteEvent::Failed(13)),
        vec![WriteAction::StatTarget, WriteAction::Fail(WriteFailure::Stat)]
    );
}

#[test]
fn failure_before_the_commit_removes_the_temporary_file() {
    for (n, failure) in [
        (2, WriteFailure::Chmod(0o640)),
        (3, WriteFailure::Write),
        (4, WriteFailure::Flush),
        (5, WriteFailure::Rename),
    ] {
        let seen = run_failing(Platform::Unix, n, WriteEvent::Failed(5));
        assert_eq!(seen[1..], [WriteAction::RemoveTmp(failure), WriteAction::Fail(failure)]);
    }
    assert_eq!(
        run_failing(Platform::Unix, 6, WriteEvent::Failed(5)),
        vec![WriteAction::SyncDir, WriteAction::Fail(WriteFailure::SyncDir)]
    );
}

#[test]
fn windows_replacement_outcomes() {
    for code in [1176, 1177] {
        assert_eq!(
            run_failing(Platform::Windows, 3, WriteEvent::Failed(code)),
            vec![
                WriteAction::Replace,
                WriteAction::Fail(WriteFailure::ReplaceUndetermined(code)),
            ]
        );
    }
    let refused = WriteFailure::ReplaceRefused(1175);
    assert_eq!(
        run_failing(Platform::Windows, 3, WriteEvent::Failed(1175)),
        vec![WriteAction::Replace, WriteAction::RemoveTmp(refused), WriteAction::Fail(refused)]
    );
    assert_eq!(
        run_failing(Platform::Windows, 3, WriteEvent::NotFound),
        vec![WriteAction::Replace, WriteAction::RenameFirst, WriteAction::Done]
    );
    let mut w = AtomicWrite::begin(Platform::Windows);
    for event in [
        WriteEvent::Succeeded,
        WriteEvent::Succeeded,
        WriteEvent::Succeeded,
        WriteEvent::NotFound,
        WriteEvent::Failed(5),
    ] {
        w.report(event);
    }
    assert_eq!(w.pending(), WriteAction::Fail(WriteFailure::RenameFirst));
}

#[test]
fn failure_contexts() {
    let text = |f: WriteFailure| f.context("p.tmp", "p").unwrap();
    assert!(WriteFailure::Stat.context("p.tmp", "p").is_none());
    assert_eq!(
        text(WriteFailure::Create),
        "create p.tmp; any existing recovery file was preserved"
    );
    assert_eq!(text(WriteFailure::Chmod(0o640)), "chmod p.tmp to 640");
    assert_eq!(text(WriteFailure::Write), "write p.tmp");
    assert_eq!(text(WriteFailure::Flush), "flush p.tmp");
    assert_eq!(text(WriteFailure::Rename), "replace p with p.tmp");
    assert_eq!(
        text(WriteFailure::SyncDir),
        "sync parent directory after replacing p with p.tmp — the replacement itself has already taken effect, the commit outcome is undetermined"
    );
    assert_eq!(text(WriteFailure::RenameFirst), "create p from p.tmp");
    assert_eq!(
        text(WriteFailure::ReplaceUndetermined(1177)),
        "replace p with p.tmp failed after the commit started (os error 1177): the target may no longer contain the old content and the commit outcome is undetermined; the new content is preserved at p.tmp"
    );
    assert_eq!(
        text(WriteFailure::ReplaceRefused(-1)),
        "replace p with p.tmp failed (os error -1): the original file was left intact and no backup file exists (lpBackupFileName is NULL)"
    );
}

#[test]
fn lock_is_waited_for_until_the_deadline() {
    assert_eq!(next_lock_step(LockAttempt::Taken, 9, 5), LockStep::Hold);
    assert_eq!(next_lock_step(LockAttempt::Failed, 1, 5), LockStep::Fail);
    assert_eq!(next_lock_step(LockAttempt::Busy, 4, 5), LockStep::Wait(LOCK_POLL_MS));
    assert_eq!(next_lock_step(LockAttempt::Busy, 5, 5), LockStep::TimedOut);
    assert_eq!(LOCK_TIMEOUT_MS, 10_000);
    assert!(is_lock_busy(Platform::Unix, true, None));
    assert!(!is_lock_busy(Platform::Unix, false, Some(33)));
    assert!(is_lock_busy(Platform::Windows, false, Some(33)));
    assert!(!is_lock_busy(Platform::Windows, true, Some(5)));
    assert!(!is_lock_busy(Platform::Windows, true, None));
    assert!(!is_lock_busy(Platform::Other, true, Some(33)));
    assert_eq!(
        lock_timeout_text("x.lock"),
        "timed out waiting for users-file lock x.lock — another resocks5 process is holding it (the OS releases the lock automatically if that process dies)"
    );
}

#[test]
fn siblings_are_in_the_same_directory() {
    assert_eq!(sibling_path("a/users.ktav", TMP_SUFFIX), "a/users.ktav.tmp");
    assert_eq!(sibling_path("a/users.ktav", LOCK_SUFFIX), "a/users.ktav.lock");
}

fn units(s: &str) -> Vec<u16> {
    s.encode_utf16().collect()
}

#[test]
fn wide_normalizes_long_unc_and_preserves_verbatim_paths() {
    let tail = "x".repeat(250);
    let unc = format!(r"\\server\share\folder\..\{tail}");
    let absolute = format!(r"\\server\share\{tail}");
    let verbatim = format!(r"\\?\UNC\server\share\{tail}");
    let expected: Vec<u16> = verbatim.encode_utf16().chain([0]).collect();
    assert!(matches!(wide(units(&unc)), WidePath::NeedsAbsolute));
    assert_eq!(wide_absolute(&units(&absolute), PathPrefix::Unc), expected);
    match wide(units(&verbatim)) {
        WidePath::Ready(v) => assert_eq!(v, expected),
        _ => panic!("a verbatim path is passed on"),
    }
}

#[test]
fn wide_paths_of_other_shapes() {
    assert!(matches!(wide(vec![0x61, 0, 0x62]), WidePath::HasNul));
    assert!(matches!(wide(vec![]), WidePath::Ready(v) if v == [0]));
    assert!(matches!(wide(units(r"\??\C:\x")), WidePath::Ready(v) if v.len() == 9));
    assert!(matches!(wide(units("users.ktav")), WidePath::NeedsAbsolute));
    let short = units(r"C:\users.ktav");
    let mut expected = short.clone();
    expected.push(0);
    assert_eq!(wide_absolute(&short, PathPrefix::Disk), expected);
    for len in [247usize, 248] {
        let long = vec![0x61u16; len];
        let disk = wide_absolute(&long, PathPrefix::Disk);
        assert_eq!(disk.len(), if len < 248 { len + 1 } else { len + 5 });
        assert_eq!(wide_absolute(&long, PathPrefix::Other).len(), len + 1);
        let unc = wide_absolute(&long, PathPrefix::Unc);
        assert_eq!(unc.len(), if len < 248 { len + 1 } else { len + 7 });
    }
    assert_eq!(wide_absolute(&vec![0x61u16; 248], PathPrefix::Disk)[..4], units(r"\\?\")[..]);
}
