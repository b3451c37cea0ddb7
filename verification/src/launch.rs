//! Launching a process under a captured identity: `exec` creates it from
//! the impersonating thread, `spawn` binds it to the captured token.

use vstd::prelude::*;
use crate::capture::{
    kept, lemma_capture_closes_what_it_opens, run, Answers, CaptureError, Abort,
    ImpersonationGuard, Thread,
};
use crate::token::{because, explain, OsError, Release};

verus! {

/// Why a launch failed.
#[derive(Clone, Copy, Debug, PartialEq, Eq, Structural)]
pub enum LaunchError {
    /// The capture failed; no process was asked for.
    Capture(CaptureError),
    /// The process could not be created.
    LaunchFailed(OsError),
}

impl LaunchError {
    /// The error as a message: that of the capture, or that of the launch.
    pub open spec fn spec_message(self) -> Seq<char> {
        match self {
            LaunchError::Capture(error) => error.spec_message(),
            LaunchError::LaunchFailed(os) => because("launch failed"@, os),
        }
    }

    /// The error as a message.
    pub fn message(&self) -> (message: String)
        ensures
            message@ == self.spec_message(),
    {
        match self {
            LaunchError::Capture(error) => error.message(),
            LaunchError::LaunchFailed(os) => explain("launch failed", *os),
        }
    }
}

/// Where the identity of the new process comes from.
#[derive(Clone, Copy, Debug, PartialEq, Eq, Structural)]
pub enum IdentitySource {
    /// The identity that the calling thread acts with.
    CurrentThread,
    /// The token with this handle, whatever the thread acts with.
    Token { raw: u64 },
}

/// A process to create: a command line or the path of a binary, and the
/// identity to run it with.
#[derive(Clone, Debug, PartialEq, Eq)]
pub struct LaunchRequest {
    pub source: IdentitySource,
    pub command: String,
}

/// A request, with its command as a sequence of characters.
pub struct LaunchRequestView {
    pub source: IdentitySource,
    pub command: Seq<char>,
}

impl View for LaunchRequest {
    type V = LaunchRequestView;

    open spec fn view(&self) -> LaunchRequestView {
        LaunchRequestView { source: self.source, command: self.command@ }
    }
}

/// A launch that holds the guard of its capture and wants its process
/// created.
#[derive(Debug, PartialEq, Eq)]
pub struct Launch {
    pub guard: ImpersonationGuard,
    pub request: LaunchRequest,
}

/// The launch of `command` from the thread that `guard` keeps
/// impersonating: the new process takes the thread's identity.
pub fn exec(guard: ImpersonationGuard, command: String) -> (launch: Launch)
    ensures
        launch.guard == guard,
        launch.request@ == (LaunchRequestView {
            source: IdentitySource::CurrentThread,
            command: command@,
        }),
{
    Launch { guard, request: LaunchRequest { source: IdentitySource::CurrentThread, command } }
}

/// The launch of `command` as a process bound to the token of `guard`.
pub fn spawn(guard: ImpersonationGuard, command: String) -> (launch: Launch)
    ensures
        launch.guard == guard,
        launch.request@ == (LaunchRequestView {
            source: IdentitySource::Token { raw: guard.token.raw },
            command: command@,
        }),
{
    let source = IdentitySource::Token { raw: guard.token.raw };
    Launch { guard, request: LaunchRequest { source, command } }
}

/// What a launch comes to when its capture failed: the capture's own
/// release, and the capture's error.
pub fn not_captured(failure: Abort) -> (end: (Release, LaunchError))
    ensures
        end.0 == failure.release,
        end.1 == LaunchError::Capture(failure.error),
{
    (failure.release, LaunchError::Capture(failure.error))
}

/// What the attempt to create the process comes to.
pub open spec fn launched(created: Result<(), OsError>) -> Result<(), LaunchError> {
    match created {
        Ok(_) => Ok(()),
        Err(os) => Err(LaunchError::LaunchFailed(os)),
    }
}

impl Launch {
    /// Takes the answer to the request to create the process. Whatever the
    /// answer, the guard ends: the thread has its own identity back, and
    /// the captured token is closed. The new process is left to itself.
    pub fn finish(self, thread: &mut Thread, created: Result<(), OsError>) -> (end: (
        Release,
        Result<(), LaunchError>,
    ))
        ensures
            (*final(thread), end.0@) == self.guard.spec_end(*old(thread)),
            end.1 == launched(created),
    {
        let release = self.guard.end(thread);
        let outcome = match created {
            Ok(_) => Ok(()),
            Err(os) => Err(LaunchError::LaunchFailed(os)),
        };
        (release, outcome)
    }
}

/// One `exec` or `spawn` from beginning to end.
pub struct LaunchRun {
    /// The thread after the launch.
    pub thread: Thread,
    /// The handles that the launch was given, in order.
    pub received: Seq<u64>,
    /// The handles that the launch had closed, in order.
    pub closed: Seq<u64>,
    /// Whether the creation of the process was asked for.
    pub attempted: bool,
    pub outcome: Result<(), LaunchError>,
}

/// The launch under the token of `pid` on `thread`, given the answers of
/// the operating system to the capture and to the creation of the process.
pub open spec fn launch_run(
    thread: Thread,
    pid: u32,
    answers: Answers,
    created: Result<(), OsError>,
) -> LaunchRun {
    let capture = run(thread, pid, answers);
    match capture.outcome {
        Err(error) => LaunchRun {
            thread: capture.thread,
            received: capture.received,
            closed: capture.closed,
            attempted: false,
            outcome: Err(LaunchError::Capture(error)),
        },
        Ok(guard) => {
            let (after, release) = guard.spec_end(capture.thread);
            LaunchRun {
                thread: after,
                received: capture.received,
                closed: capture.closed + release.close,
                attempted: true,
                outcome: launched(created),
            }
        },
    }
}

/// A launch closes every handle it is given, exactly once, and leaves the
/// thread with the identity it found, whether it succeeds or fails.
pub proof fn lemma_launch_leaves_nothing(
    thread: Thread,
    pid: u32,
    answers: Answers,
    created: Result<(), OsError>,
)
    ensures
        launch_run(thread, pid, answers, created).received.to_multiset() == launch_run(
            thread,
            pid,
            answers,
            created,
        ).closed.to_multiset(),
        launch_run(thread, pid, answers, created).thread == thread,
{
    let capture = run(thread, pid, answers);
    lemma_capture_closes_what_it_opens(thread, pid, answers);
    match capture.outcome {
        Err(_) => {
            assert(capture.closed + kept(capture.outcome) =~= capture.closed);
        },
        Ok(guard) => {},
    }
}

/// A launch whose capture fails fails with the capture's error, and never
/// asks for a process; one whose capture succeeds asks for the process, and
/// fails only where the process cannot be created.
pub proof fn lemma_launch_outcome(
    thread: Thread,
    pid: u32,
    answers: Answers,
    created: Result<(), OsError>,
)
    ensures
        launch_run(thread, pid, answers, created).attempted == (run(thread, pid, answers).outcome
            is Ok),
        launch_run(thread, pid, answers, created).outcome == match run(
            thread,
            pid,
            answers,
        ).outcome {
            Err(error) => Err(LaunchError::Capture(error)),
            Ok(_) => match created {
                Ok(_) => Ok(()),
                Err(os) => Err(LaunchError::LaunchFailed(os)),
            },
        },
{
}

} // verus!
