//! Capture: from a process id to a thread that acts under a copy of that
//! process's token, stage by stage, with the handles that each stage holds.

use vstd::prelude::*;
use vstd::string::StringExecFns;
use crate::token::{
    because, explain, raws, Handle, OsError, ProcessAccess, Release, ReleaseView, TokenAccess,
};

verus! {

/// Why a capture failed.
#[derive(Clone, Copy, Debug, PartialEq, Eq, Structural)]
pub enum CaptureError {
    /// The thread impersonates already: captures do not nest.
    AlreadyImpersonating,
    /// The process does not exist, or may not be opened.
    ProcessOpenFailed(OsError),
    /// The primary token of the process may not be opened.
    TokenOpenFailed(OsError),
    /// The token cannot be duplicated for impersonation.
    DuplicationFailed(OsError),
    /// The duplicate could not be bound to the thread.
    ImpersonationFailed(OsError),
}

impl CaptureError {
    /// The error as a message.
    pub open spec fn spec_message(self) -> Seq<char> {
        match self {
            CaptureError::AlreadyImpersonating => "already impersonating"@,
            CaptureError::ProcessOpenFailed(os) => because("process open failed"@, os),
            CaptureError::TokenOpenFailed(os) => because("token open failed"@, os),
            CaptureError::DuplicationFailed(os) => because("token duplication failed"@, os),
            CaptureError::ImpersonationFailed(os) => because("impersonation failed"@, os),
        }
    }

    /// The error as a message.
    pub fn message(&self) -> (message: String)
        ensures
            message@ == self.spec_message(),
    {
        match self {
            CaptureError::AlreadyImpersonating => String::from_str("already impersonating"),
            CaptureError::ProcessOpenFailed(os) => explain("process open failed", *os),
            CaptureError::TokenOpenFailed(os) => explain("token open failed", *os),
            CaptureError::DuplicationFailed(os) => explain("token duplication failed", *os),
            CaptureError::ImpersonationFailed(os) => explain("impersonation failed", *os),
        }
    }
}

/// The identity that a thread acts with.
#[derive(Clone, Copy, Debug, PartialEq, Eq, Structural)]
pub enum Identity {
    /// The identity of the thread's own process.
    Process,
    /// The identity of the token with this handle, bound to the thread.
    Token { raw: u64 },
}

/// The calling thread, as far as impersonation goes.
#[derive(Clone, Copy, Debug, PartialEq, Eq, Structural)]
pub struct Thread {
    pub identity: Identity,
}

/// The end of a capture that failed: what is to be released, and why it
/// failed.
#[derive(Debug, PartialEq, Eq)]
pub struct Abort {
    pub release: Release,
    pub error: CaptureError,
}

/// An abort, with its handles as plain numbers.
pub struct AbortView {
    pub release: ReleaseView,
    pub error: CaptureError,
}

impl View for Abort {
    type V = AbortView;

    open spec fn view(&self) -> AbortView {
        AbortView { release: self.release@, error: self.error }
    }
}

/// The abort that closes `held`, in order, and leaves the thread's identity
/// alone.
pub open spec fn aborted(held: Seq<u64>, error: CaptureError) -> AbortView {
    AbortView { release: ReleaseView { revert: false, close: held }, error }
}

/// A capture that wants its process opened, with the rights to query and
/// to duplicate its token.
#[derive(Debug, PartialEq, Eq)]
pub struct Capture {
    pub pid: u32,
}

/// A capture that holds its process and wants the primary token of the
/// process opened.
#[derive(Debug, PartialEq, Eq)]
pub struct CapturedProcess {
    pub process: Handle,
}

/// A capture that holds its process and the primary token, and wants the
/// token duplicated into one that can be bound to a thread and used to
/// create a process.
#[derive(Debug, PartialEq, Eq)]
pub struct CapturedToken {
    pub process: Handle,
    pub primary: Handle,
}

/// A capture that holds the duplicate, and wants it bound to the calling
/// thread.
#[derive(Debug, PartialEq, Eq)]
pub struct Duplicated {
    pub duplicate: Handle,
}

/// The calling thread acts under a captured token, which the guard owns.
/// The guard ends by giving the thread its own identity back and closing
/// the token.
#[derive(Debug, PartialEq, Eq)]
pub struct ImpersonationGuard {
    pub token: Handle,
}

fn abort(close: Vec<Handle>, error: CaptureError) -> (end: Abort)
    ensures
        end@ == aborted(raws(close@), error),
{
    Abort { release: Release { revert: false, close }, error }
}

impl Thread {
    /// A thread that acts with the identity of its own process.
    pub fn new() -> (thread: Thread)
        ensures
            thread.identity == Identity::Process,
    {
        Thread { identity: Identity::Process }
    }
}

impl Capture {
    /// Whether a capture may begin on `thread`: only where the thread acts
    /// with its own process's identity.
    pub open spec fn spec_begin(thread: Thread, pid: u32) -> Result<Capture, CaptureError> {
        if thread.identity == Identity::Process {
            Ok(Capture { pid })
        } else {
            Err(CaptureError::AlreadyImpersonating)
        }
    }

    /// Begins the capture of the token of process `pid`. Any process id is
    /// taken, the caller's own too.
    pub fn begin(thread: &Thread, pid: u32) -> (capture: Result<Capture, CaptureError>)
        ensures
            capture == Capture::spec_begin(*thread, pid),
    {
        match thread.identity {
            Identity::Process => Ok(Capture { pid }),
            Identity::Token { .. } => Err(CaptureError::AlreadyImpersonating),
        }
    }

    /// The rights that the process is to be opened with: those that let its
    /// token be queried and duplicated.
    pub fn access(&self) -> (access: ProcessAccess)
        ensures
            access == ProcessAccess::QueryAndDuplicate,
    {
        ProcessAccess::QueryAndDuplicate
    }

    /// What follows the attempt to open the process: a failure is final,
    /// and there is nothing to close.
    pub open spec fn spec_with_process(self, opened: Result<Handle, OsError>) -> Result<
        CapturedProcess,
        AbortView,
    > {
        match opened {
            Ok(process) => Ok(CapturedProcess { process }),
            Err(os) => Err(aborted(Seq::empty(), CaptureError::ProcessOpenFailed(os))),
        }
    }

    /// Takes the answer to the request to open the process.
    pub fn with_process(self, opened: Result<Handle, OsError>) -> (next: Result<
        CapturedProcess,
        Abort,
    >)
        ensures
            match next {
                Ok(stage) => self.spec_with_process(opened) == Ok::<_, AbortView>(stage),
                Err(end) => self.spec_with_process(opened) == Err::<CapturedProcess, _>(end@),
            },
    {
        match opened {
            Ok(process) => Ok(CapturedProcess { process }),
            Err(os) => {
                let close: Vec<Handle> = Vec::new();
                assert(raws(close@) =~= Seq::<u64>::empty());
                Err(abort(close, CaptureError::ProcessOpenFailed(os)))
            },
        }
    }
}

impl CapturedProcess {
    /// The rights that the primary token is to be opened with: those that
    /// let it be duplicated.
    pub fn access(&self) -> (access: TokenAccess)
        ensures
            access == TokenAccess::Duplicate,
    {
        TokenAccess::Duplicate
    }

    /// What follows the attempt to open the primary token: on failure the
    /// process is closed.
    pub open spec fn spec_with_token(self, opened: Result<Handle, OsError>) -> Result<
        CapturedToken,
        AbortView,
    > {
        match opened {
            Ok(primary) => Ok(CapturedToken { process: self.process, primary }),
            Err(os) => Err(aborted(seq![self.process.raw], CaptureError::TokenOpenFailed(os))),
        }
    }

    /// Takes the answer to the request to open the primary token.
    pub fn with_token(self, opened: Result<Handle, OsError>) -> (next: Result<
        CapturedToken,
        Abort,
    >)
        ensures
            match next {
                Ok(stage) => self.spec_with_token(opened) == Ok::<_, AbortView>(stage),
                Err(end) => self.spec_with_token(opened) == Err::<CapturedToken, _>(end@),
            },
    {
        match opened {
            Ok(primary) => Ok(CapturedToken { process: self.process, primary }),
            Err(os) => {
                let mut close: Vec<Handle> = Vec::new();
                close.push(self.process);
                assert(raws(close@) =~= seq![self.process.raw]);
                Err(abort(close, CaptureError::TokenOpenFailed(os)))
            },
        }
    }
}

impl CapturedToken {
    /// What follows the attempt to duplicate the token. Either way the
    /// primary token and the process are closed: they are not needed past
    /// this point. On success only the duplicate is kept.
    pub open spec fn spec_with_duplicate(self, made: Result<Handle, OsError>) -> Result<
        (ReleaseView, Duplicated),
        AbortView,
    > {
        let both = seq![self.primary.raw, self.process.raw];
        match made {
            Ok(duplicate) => Ok(
                (ReleaseView { revert: false, close: both }, Duplicated { duplicate }),
            ),
            Err(os) => Err(aborted(both, CaptureError::DuplicationFailed(os))),
        }
    }

    /// Takes the answer to the request to duplicate the token. The release
    /// that comes with the next stage is due before the duplicate is bound.
    pub fn with_duplicate(self, made: Result<Handle, OsError>) -> (next: Result<
        (Release, Duplicated),
        Abort,
    >)
        ensures
            match next {
                Ok((release, stage)) => self.spec_with_duplicate(made) == Ok::<_, AbortView>(
                    (release@, stage),
                ),
                Err(end) => self.spec_with_duplicate(made) == Err::<
                    (ReleaseView, Duplicated),
                    _,
                >(end@),
            },
    {
        let mut close: Vec<Handle> = Vec::new();
        close.push(self.primary);
        close.push(self.process);
        assert(raws(close@) =~= seq![self.primary.raw, self.process.raw]);
        match made {
            Ok(duplicate) => Ok((Release { revert: false, close }, Duplicated { duplicate })),
            Err(os) => Err(abort(close, CaptureError::DuplicationFailed(os))),
        }
    }
}

impl Duplicated {
    /// What follows the attempt to bind the duplicate to the thread: bound,
    /// the thread acts under the duplicate, which the guard owns; else the
    /// duplicate is closed and the thread is as it was.
    pub open spec fn spec_with_impersonation(self, thread: Thread, bound: Result<(), OsError>) -> (
        Thread,
        Result<ImpersonationGuard, AbortView>,
    ) {
        match bound {
            Ok(_) => (
                Thread { identity: Identity::Token { raw: self.duplicate.raw } },
                Ok(ImpersonationGuard { token: self.duplicate }),
            ),
            Err(os) => (
                thread,
                Err(aborted(seq![self.duplicate.raw], CaptureError::ImpersonationFailed(os))),
            ),
        }
    }

    /// Takes the answer to the request to bind the duplicate to the thread.
    pub fn with_impersonation(self, thread: &mut Thread, bound: Result<(), OsError>) -> (next:
        Result<ImpersonationGuard, Abort>)
        ensures
            *final(thread) == self.spec_with_impersonation(*old(thread), bound).0,
            match next {
                Ok(guard) => self.spec_with_impersonation(*old(thread), bound).1 == Ok::<
                    _,
                    AbortView,
                >(guard),
                Err(end) => self.spec_with_impersonation(*old(thread), bound).1 == Err::<
                    ImpersonationGuard,
                    _,
                >(end@),
            },
    {
        match bound {
            Ok(_) => {
                thread.identity = Identity::Token { raw: self.duplicate.raw };
                Ok(ImpersonationGuard { token: self.duplicate })
            },
            Err(os) => {
                let mut close: Vec<Handle> = Vec::new();
                close.push(self.duplicate);
                assert(raws(close@) =~= seq![self.duplicate.raw]);
                Err(abort(close, CaptureError::ImpersonationFailed(os)))
            },
        }
    }
}

impl ImpersonationGuard {
    /// The end of the guard: the thread has its own identity back, and the
    /// token is closed after that.
    pub open spec fn spec_end(self, thread: Thread) -> (Thread, ReleaseView) {
        (
            Thread { identity: Identity::Process },
            ReleaseView { revert: true, close: seq![self.token.raw] },
        )
    }

    /// Ends the guard.
    pub fn end(self, thread: &mut Thread) -> (release: Release)
        ensures
            (*final(thread), release@) == self.spec_end(*old(thread)),
    {
        thread.identity = Identity::Process;
        let mut close: Vec<Handle> = Vec::new();
        close.push(self.token);
        assert(raws(close@) =~= seq![self.token.raw]);
        Release { revert: true, close }
    }
}

/// What the operating system answers in the course of one capture. An
/// answer to a request that was never made plays no part.
pub struct Answers {
    pub process: Result<Handle, OsError>,
    pub primary: Result<Handle, OsError>,
    pub duplicate: Result<Handle, OsError>,
    pub bound: Result<(), OsError>,
}

/// One capture from beginning to end.
pub struct Run {
    /// The thread after the capture.
    pub thread: Thread,
    /// The handles that the capture was given, in order.
    pub received: Seq<u64>,
    /// The handles that the capture had closed, in order.
    pub closed: Seq<u64>,
    /// The guard, or why there is none.
    pub outcome: Result<ImpersonationGuard, CaptureError>,
}

/// The capture of the token of `pid` on `thread`, given the answers of the
/// operating system.
pub open spec fn run(thread: Thread, pid: u32, answers: Answers) -> Run {
    match Capture::spec_begin(thread, pid) {
        Err(error) => Run { thread, received: seq![], closed: seq![], outcome: Err(error) },
        Ok(capture) => match capture.spec_with_process(answers.process) {
            Err(end) => Run {
                thread,
                received: seq![],
                closed: end.release.close,
                outcome: Err(end.error),
            },
            Ok(held) => match held.spec_with_token(answers.primary) {
                Err(end) => Run {
                    thread,
                    received: seq![held.process.raw],
                    closed: end.release.close,
                    outcome: Err(end.error),
                },
                Ok(both) => match both.spec_with_duplicate(answers.duplicate) {
                    Err(end) => Run {
                        thread,
                        received: seq![both.process.raw, both.primary.raw],
                        closed: end.release.close,
                        outcome: Err(end.error),
                    },
                    Ok((release, copy)) => {
                        let (after, bound) = copy.spec_with_impersonation(thread, answers.bound);
                        let received = seq![both.process.raw, both.primary.raw, copy.duplicate.raw];
                        match bound {
                            Err(end) => Run {
                                thread: after,
                                received,
                                closed: release.close + end.release.close,
                                outcome: Err(end.error),
                            },
                            Ok(guard) => Run {
                                thread: after,
                                received,
                                closed: release.close,
                                outcome: Ok(guard),
                            },
                        }
                    },
                },
            },
        },
    }
}

/// The handles that are open once a run is over: the guard's token, or
/// none.
pub open spec fn kept(outcome: Result<ImpersonationGuard, CaptureError>) -> Seq<u64> {
    match outcome {
        Ok(guard) => seq![guard.token.raw],
        Err(_) => seq![],
    }
}

/// Every handle that a capture is given is closed once, or is the token of
/// the guard: none leaks, on success or on any failure.
pub proof fn lemma_capture_closes_what_it_opens(thread: Thread, pid: u32, answers: Answers)
    ensures
        run(thread, pid, answers).received.to_multiset() == (run(thread, pid, answers).closed
            + kept(run(thread, pid, answers).outcome)).to_multiset(),
{
    broadcast use vstd::seq_lib::group_to_multiset_ensures;

    let r = run(thread, pid, answers);
    let all = r.closed + kept(r.outcome);
    if r.received.len() <= 1 {
        assert(all =~= r.received);
    } else if r.received.len() == 2 {
        let process = r.received[0];
        let primary = r.received[1];
        assert(r.received =~= seq![process].push(primary));
        assert(all =~= seq![primary].push(process));
        assert(seq![process] =~= Seq::<u64>::empty().push(process));
        assert(seq![primary] =~= Seq::<u64>::empty().push(primary));
    } else {
        let process = r.received[0];
        let primary = r.received[1];
        let duplicate = r.received[2];
        assert(r.received =~= Seq::<u64>::empty().push(process).push(primary).push(duplicate));
        assert(all =~= Seq::<u64>::empty().push(primary).push(process).push(duplicate));
    }
}

/// A capture that succeeds leaves the thread with an identity that is not
/// its process's own; when the guard ends, the thread has the identity
/// back that it had before the capture.
pub proof fn lemma_capture_round_trip(thread: Thread, pid: u32, answers: Answers)
    requires
        run(thread, pid, answers).outcome is Ok,
    ensures
        thread.identity == Identity::Process,
        run(thread, pid, answers).thread.identity != Identity::Process,
        run(thread, pid, answers).outcome->Ok_0.spec_end(run(thread, pid, answers).thread).0
            == thread,
{
}

/// A capture whose process cannot be opened fails with
/// `ProcessOpenFailed`, with the thread as it was and no handle to close.
pub proof fn lemma_capture_of_missing_process(
    thread: Thread,
    pid: u32,
    answers: Answers,
    os: OsError,
)
    requires
        thread.identity == Identity::Process,
        answers.process == Err::<Handle, OsError>(os),
    ensures
        run(thread, pid, answers).outcome == Err::<ImpersonationGuard, CaptureError>(
            CaptureError::ProcessOpenFailed(os),
        ),
        run(thread, pid, answers).thread == thread,
        run(thread, pid, answers).closed == Seq::<u64>::empty(),
{
}

/// A capture that fails, at whatever stage, leaves the thread as it was.
pub proof fn lemma_failed_capture_leaves_thread(thread: Thread, pid: u32, answers: Answers)
    requires
        run(thread, pid, answers).outcome is Err,
    ensures
        run(thread, pid, answers).thread == thread,
{
}

} // verus!
