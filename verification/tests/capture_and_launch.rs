use irs::capture::{
    Capture, CaptureError, CapturedProcess, CapturedToken, Duplicated, Abort, Identity,
    ImpersonationGuard, Thread,
};
use irs::launch::{exec, not_captured, spawn, IdentitySource, LaunchError, LaunchRequest};
use irs::token::{Handle, OsError, ProcessAccess, Release, TokenAccess};

const DENIED: OsError = OsError { code: 5 };
const MISSING: OsError = OsError { code: 87 };

fn own_identity() -> Thread {
    Thread { identity: Identity::Process }
}

fn closes(raws: &[u64]) -> Release {
    Release { revert: false, close: raws.iter().map(|r| Handle { raw: *r }).collect() }
}

/// A capture that went well, with the handles 10, 11 and 12.
fn captured(thread: &mut Thread, pid: u32) -> ImpersonationGuard {
    let (release, copy) = Capture::begin(thread, pid)
        .unwrap()
        .with_process(Ok(Handle { raw: 10 }))
        .unwrap()
        .with_token(Ok(Handle { raw: 11 }))
        .unwrap()
        .with_duplicate(Ok(Handle { raw: 12 }))
        .unwrap();
    assert_eq!(release, closes(&[11, 10]));
    copy.with_impersonation(thread, Ok(())).unwrap()
}

#[test]
fn a_new_thread_has_its_process_identity() {
    assert_eq!(Thread::new(), own_identity());
}

#[test]
fn a_capture_begins_with_its_pid() {
    assert_eq!(Capture::begin(&own_identity(), 612), Ok(Capture { pid: 612 }));
    assert_eq!(Capture::begin(&own_identity(), 0), Ok(Capture { pid: 0 }));
}

#[test]
fn captures_do_not_nest() {
    let thread = Thread { identity: Identity::Token { raw: 12 } };
    assert_eq!(Capture::begin(&thread, 612), Err(CaptureError::AlreadyImpersonating));
    let mut thread = own_identity();
    let _guard = captured(&mut thread, 612);
    assert_eq!(Capture::begin(&thread, 700), Err(CaptureError::AlreadyImpersonating));
}

#[test]
fn a_missing_process_fails_with_process_open_failed() {
    let thread = own_identity();
    let end = Capture::begin(&thread, 999_999).unwrap().with_process(Err(MISSING)).unwrap_err();
    assert_eq!(
        end,
        Abort { release: closes(&[]), error: CaptureError::ProcessOpenFailed(MISSING) }
    );
    assert_eq!(thread, own_identity());
}

#[test]
fn a_closed_token_fails_with_token_open_failed_and_closes_the_process() {
    let stage = Capture { pid: 4 }.with_process(Ok(Handle { raw: 10 })).unwrap();
    assert_eq!(stage, CapturedProcess { process: Handle { raw: 10 } });
    let end = stage.with_token(Err(DENIED)).unwrap_err();
    assert_eq!(
        end,
        Abort { release: closes(&[10]), error: CaptureError::TokenOpenFailed(DENIED) }
    );
}

#[test]
fn a_token_that_cannot_be_copied_fails_with_duplication_failed() {
    let stage = CapturedProcess { process: Handle { raw: 10 } }
        .with_token(Ok(Handle { raw: 11 }))
        .unwrap();
    assert_eq!(stage, CapturedToken { process: Handle { raw: 10 }, primary: Handle { raw: 11 } });
    let os = OsError { code: 1309 };
    let end = stage.with_duplicate(Err(os)).unwrap_err();
    assert_eq!(
        end,
        Abort { release: closes(&[11, 10]), error: CaptureError::DuplicationFailed(os) }
    );
}

#[test]
fn the_intermediate_handles_are_closed_once_the_copy_is_made() {
    let stage = CapturedToken { process: Handle { raw: 10 }, primary: Handle { raw: 11 } };
    let (release, copy) = stage.with_duplicate(Ok(Handle { raw: 12 })).unwrap();
    assert_eq!(release, closes(&[11, 10]));
    assert_eq!(copy, Duplicated { duplicate: Handle { raw: 12 } });
}

#[test]
fn a_copy_that_cannot_be_bound_is_closed_and_leaves_the_thread() {
    let mut thread = own_identity();
    let os = OsError { code: 1314 };
    let end = Duplicated { duplicate: Handle { raw: 12 } }
        .with_impersonation(&mut thread, Err(os))
        .unwrap_err();
    assert_eq!(
        end,
        Abort { release: closes(&[12]), error: CaptureError::ImpersonationFailed(os) }
    );
    assert_eq!(thread, own_identity());
}

#[test]
fn a_capture_changes_the_identity_and_its_end_restores_it() {
    let mut thread = own_identity();
    let guard = captured(&mut thread, 612);
    assert_eq!(guard, ImpersonationGuard { token: Handle { raw: 12 } });
    assert_eq!(thread.identity, Identity::Token { raw: 12 });
    assert_ne!(thread, own_identity());
    let release = guard.end(&mut thread);
    assert_eq!(release, Release { revert: true, close: vec![Handle { raw: 12 }] });
    assert_eq!(thread, own_identity());
}

#[test]
fn after_a_guard_ends_a_capture_may_begin_again() {
    let mut thread = own_identity();
    let guard = captured(&mut thread, 612);
    guard.end(&mut thread);
    assert_eq!(Capture::begin(&thread, 612), Ok(Capture { pid: 612 }));
}

#[test]
fn every_handle_of_a_capture_is_closed_once_or_kept_by_the_guard() {
    // The four failures and the success, with what each was given.
    let mut thread = own_identity();
    let mut closed: Vec<u64> = Vec::new();
    let (release, copy) = Capture::begin(&thread, 1)
        .unwrap()
        .with_process(Ok(Handle { raw: 1 }))
        .unwrap()
        .with_token(Ok(Handle { raw: 2 }))
        .unwrap()
        .with_duplicate(Ok(Handle { raw: 3 }))
        .unwrap();
    closed.extend(release.close.iter().map(|h| h.raw));
    let end = copy.with_impersonation(&mut thread, Err(DENIED)).unwrap_err();
    closed.extend(end.release.close.iter().map(|h| h.raw));
    closed.sort();
    assert_eq!(closed, vec![1, 2, 3]);
}

#[test]
fn capture_errors_have_messages() {
    assert_eq!(CaptureError::AlreadyImpersonating.message(), "already impersonating");
    assert_eq!(
        CaptureError::ProcessOpenFailed(MISSING).message(),
        "process open failed (os error 87)"
    );
    assert_eq!(CaptureError::TokenOpenFailed(DENIED).message(), "token open failed (os error 5)");
    assert_eq!(
        CaptureError::DuplicationFailed(OsError { code: 1309 }).message(),
        "token duplication failed (os error 1309)"
    );
    assert_eq!(
        CaptureError::ImpersonationFailed(OsError { code: 1314 }).message(),
        "impersonation failed (os error 1314)"
    );
}

#[test]
fn exec_runs_under_the_identity_of_the_thread() {
    let mut thread = own_identity();
    let launch = exec(captured(&mut thread, 612), "whoami /all".to_string());
    assert_eq!(
        launch.request,
        LaunchRequest { source: IdentitySource::CurrentThread, command: "whoami /all".to_string() }
    );
    assert_eq!(launch.guard.token, Handle { raw: 12 });
}

#[test]
fn spawn_binds_the_process_to_the_captured_token() {
    let mut thread = own_identity();
    let launch = spawn(captured(&mut thread, 612), "cmd.exe".to_string());
    assert_eq!(
        launch.request,
        LaunchRequest { source: IdentitySource::Token { raw: 12 }, command: "cmd.exe".to_string() }
    );
    assert_eq!(launch.guard.token, Handle { raw: 12 });
}

#[test]
fn a_launch_that_succeeds_ends_the_guard() {
    let mut thread = own_identity();
    let launch = exec(captured(&mut thread, 612), "whoami".to_string());
    let (release, outcome) = launch.finish(&mut thread, Ok(()));
    assert_eq!(outcome, Ok(()));
    assert_eq!(release, Release { revert: true, close: vec![Handle { raw: 12 }] });
    assert_eq!(thread, own_identity());
}

#[test]
fn a_launch_that_fails_ends_the_guard_too() {
    let mut thread = own_identity();
    let launch = spawn(captured(&mut thread, 612), "no-such.exe".to_string());
    let os = OsError { code: 2 };
    let (release, outcome) = launch.finish(&mut thread, Err(os));
    assert_eq!(outcome, Err(LaunchError::LaunchFailed(os)));
    assert_eq!(release, Release { revert: true, close: vec![Handle { raw: 12 }] });
    assert_eq!(thread, own_identity());
}

#[test]
fn a_failed_capture_is_the_error_of_the_launch() {
    let end = Capture { pid: 4 }.with_process(Err(DENIED)).unwrap_err();
    let (release, error) = not_captured(end);
    assert_eq!(release, closes(&[]));
    assert_eq!(error, LaunchError::Capture(CaptureError::ProcessOpenFailed(DENIED)));
}

#[test]
fn capturing_the_own_process_is_permitted() {
    let own_pid = 4242;
    let mut thread = own_identity();
    let guard = captured(&mut thread, own_pid);
    let launch = exec(guard, "whoami".to_string());
    assert_eq!(launch.request.source, IdentitySource::CurrentThread);
    let (_, outcome) = launch.finish(&mut thread, Ok(()));
    assert_eq!(outcome, Ok(()));
    assert_eq!(thread, own_identity());
}

#[test]
fn spawn_without_rights_fails_before_any_launch() {
    // The process may not be opened.
    let thread = own_identity();
    let end = Capture::begin(&thread, 4).unwrap().with_process(Err(DENIED)).unwrap_err();
    let (release, error) = not_captured(end);
    assert_eq!(error, LaunchError::Capture(CaptureError::ProcessOpenFailed(DENIED)));
    assert_eq!(release, closes(&[]));
    // The process may be opened, its token may not.
    let end = Capture::begin(&thread, 4)
        .unwrap()
        .with_process(Ok(Handle { raw: 10 }))
        .unwrap()
        .with_token(Err(DENIED))
        .unwrap_err();
    let (release, error) = not_captured(end);
    assert_eq!(error, LaunchError::Capture(CaptureError::TokenOpenFailed(DENIED)));
    assert_eq!(release, closes(&[10]));
    assert_eq!(thread, own_identity());
}

#[test]
fn launch_errors_have_messages() {
    assert_eq!(
        LaunchError::LaunchFailed(OsError { code: 2 }).message(),
        "launch failed (os error 2)"
    );
    assert_eq!(
        LaunchError::Capture(CaptureError::TokenOpenFailed(DENIED)).message(),
        "token open failed (os error 5)"
    );
    assert_eq!(
        LaunchError::Capture(CaptureError::AlreadyImpersonating).message(),
        "already impersonating"
    );
}

#[test]
fn a_capture_asks_for_the_rights_to_duplicate() {
    let capture = Capture { pid: 4 };
    assert_eq!(capture.access(), ProcessAccess::QueryAndDuplicate);
    let stage = capture.with_process(Ok(Handle { raw: 10 })).unwrap();
    assert_eq!(stage.access(), TokenAccess::Duplicate);
}
