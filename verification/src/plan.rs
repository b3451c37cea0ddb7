//! Plans: the operations a request stands for, in the order they are
//! carried out, each with what is said when it fails.

use vstd::prelude::*;
use vstd::string::StringExecFns;

verus! {

/// A privilege of the caller's own token that an operation may need.
#[derive(Clone, Copy, Debug, PartialEq, Eq, Structural)]
pub enum Privilege {
    /// Lets the caller open processes it does not own.
    Debug,
    /// Lets the caller bind another identity's token to its thread.
    Impersonate,
}

/// One operation of the core.
#[derive(Clone, Debug, PartialEq, Eq)]
pub enum Operation {
    /// Enable a privilege on the caller's own token.
    Enable(Privilege),
    /// List the tokens of the running processes.
    ListTokens,
    /// Run `command` while the thread impersonates the token of `pid`.
    Exec { pid: u32, command: String },
    /// Start `command` as a process bound to the token of `pid`.
    Spawn { pid: u32, command: String },
}

/// An operation, with its texts as sequences of characters.
pub enum OperationView {
    Enable(Privilege),
    ListTokens,
    Exec { pid: u32, command: Seq<char> },
    Spawn { pid: u32, command: Seq<char> },
}

impl View for Operation {
    type V = OperationView;

    open spec fn view(&self) -> OperationView {
        match self {
            Operation::Enable(p) => OperationView::Enable(*p),
            Operation::ListTokens => OperationView::ListTokens,
            Operation::Exec { pid, command } => OperationView::Exec {
                pid: *pid,
                command: command@,
            },
            Operation::Spawn { pid, command } => OperationView::Spawn {
                pid: *pid,
                command: command@,
            },
        }
    }
}

/// What is said when a step fails.
#[derive(Clone, Copy, Debug, PartialEq, Eq, Structural)]
pub enum Notice {
    /// The debug privilege could not be enabled.
    EnableDebug,
    /// The impersonation privilege could not be enabled.
    EnableImpersonate,
    /// The tokens could not be listed.
    ListTokens,
    /// `exec` failed, asked for on the command line.
    ExecMode,
    /// `spawn` failed, asked for on the command line.
    SpawnMode,
    /// `exec` failed, asked for in the shell.
    Exec,
    /// `spawn` failed, asked for in the shell.
    Spawn,
}

impl Notice {
    /// The text that goes before the error's own message.
    pub open spec fn spec_prefix(self) -> Seq<char> {
        match self {
            Notice::EnableDebug => "Failed to enable SeDebug: "@,
            Notice::EnableImpersonate => "Failed to enable SeImpersonate: "@,
            Notice::ListTokens => "Failed to list tokens: "@,
            Notice::ExecMode => "Exec mode failed: "@,
            Notice::SpawnMode => "Spawn mode failed: "@,
            Notice::Exec => "Exec failed: "@,
            Notice::Spawn => "Spawn failed: "@,
        }
    }

    /// The text that goes before the error's own message.
    pub fn prefix(&self) -> (text: &'static str)
        ensures
            text@ == self.spec_prefix(),
    {
        match self {
            Notice::EnableDebug => "Failed to enable SeDebug: ",
            Notice::EnableImpersonate => "Failed to enable SeImpersonate: ",
            Notice::ListTokens => "Failed to list tokens: ",
            Notice::ExecMode => "Exec mode failed: ",
            Notice::SpawnMode => "Spawn mode failed: ",
            Notice::Exec => "Exec failed: ",
            Notice::Spawn => "Spawn failed: ",
        }
    }

    /// The notice for a privilege that could not be enabled.
    pub open spec fn spec_of_privilege(privilege: Privilege) -> Notice {
        match privilege {
            Privilege::Debug => Notice::EnableDebug,
            Privilege::Impersonate => Notice::EnableImpersonate,
        }
    }

    /// The notice for a privilege that could not be enabled.
    pub fn of_privilege(privilege: Privilege) -> (notice: Notice)
        ensures
            notice == Notice::spec_of_privilege(privilege),
    {
        match privilege {
            Privilege::Debug => Notice::EnableDebug,
            Privilege::Impersonate => Notice::EnableImpersonate,
        }
    }

    /// What is said of a failure with the given message: the prefix, then
    /// the message.
    pub open spec fn spec_report(self, message: Seq<char>) -> Seq<char> {
        self.spec_prefix() + message
    }

    /// What is said of a failure with the given message.
    pub fn report(&self, message: &str) -> (line: String)
        ensures
            line@ == self.spec_report(message@),
    {
        let mut line = String::from_str(self.prefix());
        line.append(message);
        line
    }
}

/// Where what is said of a failure goes.
#[derive(Clone, Copy, Debug, PartialEq, Eq, Structural)]
pub enum Channel {
    /// To the logger, as an error.
    Log,
    /// To the standard output.
    Print,
}

/// One line that is said, and where it goes.
#[derive(Clone, Debug, PartialEq, Eq)]
pub struct Said {
    pub channel: Channel,
    pub line: String,
}

/// What is said, with the line as a sequence of characters.
pub struct SaidView {
    pub channel: Channel,
    pub line: Seq<char>,
}

impl View for Said {
    type V = SaidView;

    open spec fn view(&self) -> SaidView {
        SaidView { channel: self.channel, line: self.line@ }
    }
}

/// What follows a step that was carried out.
#[derive(Clone, Debug, PartialEq, Eq)]
pub struct Sequel {
    /// What is said of the step, if anything.
    pub said: Option<Said>,
    /// Whether the next step of the plan is carried out.
    pub proceed: bool,
}

/// A sequel, with its line as a sequence of characters.
pub struct SequelView {
    pub said: Option<SaidView>,
    pub proceed: bool,
}

impl View for Sequel {
    type V = SequelView;

    open spec fn view(&self) -> SequelView {
        SequelView {
            said: match self.said {
                Some(said) => Some(said@),
                None => None,
            },
            proceed: self.proceed,
        }
    }
}

/// One step of a plan: an operation, and what is said where if it fails.
#[derive(Clone, Debug, PartialEq, Eq)]
pub struct Step {
    pub operation: Operation,
    pub notice: Notice,
    pub channel: Channel,
}

/// A step, with its texts as sequences of characters.
pub struct StepView {
    pub operation: OperationView,
    pub notice: Notice,
    pub channel: Channel,
}

impl View for Step {
    type V = StepView;

    open spec fn view(&self) -> StepView {
        StepView { operation: self.operation@, notice: self.notice, channel: self.channel }
    }
}

impl StepView {
    /// What follows the step, given the message of its failure, or `None`
    /// where it succeeded. A step that succeeded says nothing; one that
    /// failed says its notice and the message, on its channel. Either way
    /// the next step of the plan is carried out.
    pub open spec fn sequel(self, failure: Option<Seq<char>>) -> SequelView {
        SequelView {
            said: match failure {
                Some(message) => Some(
                    SaidView { channel: self.channel, line: self.notice.spec_report(message) },
                ),
                None => None,
            },
            proceed: true,
        }
    }
}

impl Step {
    /// What follows the step, given the message of its failure, or `None`
    /// where it succeeded.
    pub fn sequel(&self, failure: Option<&str>) -> (sequel: Sequel)
        ensures
            sequel@ == self@.sequel(
                match failure {
                    Some(message) => Some(message@),
                    None => None,
                },
            ),
    {
        let said = match failure {
            Some(message) => Some(
                Said { channel: self.channel, line: self.notice.report(message) },
            ),
            None => None,
        };
        Sequel { said, proceed: true }
    }
}

/// The steps of a plan, by their views.
pub open spec fn steps(plan: Seq<Step>) -> Seq<StepView> {
    plan.map_values(|s: Step| s@)
}

/// Whether `operation` needs `privilege` enabled: listing opens processes
/// the caller does not own; `exec` and `spawn` do so too, and bind a token
/// to the thread.
pub open spec fn needs(operation: OperationView, privilege: Privilege) -> bool {
    match operation {
        OperationView::Enable(_) => false,
        OperationView::ListTokens => privilege == Privilege::Debug,
        OperationView::Exec { .. } => true,
        OperationView::Spawn { .. } => true,
    }
}

/// Whether every step of `plan` comes after the enabling of each privilege
/// it needs.
pub open spec fn prepared(plan: Seq<StepView>) -> bool {
    forall|i: int, p: Privilege|
        0 <= i < plan.len() && #[trigger] needs(plan[i].operation, p) ==> exists|j: int|
            0 <= j < i && (#[trigger] plan[j]).operation == OperationView::Enable(p)
}

/// The step that enables `privilege`, and says so on `channel` where it
/// cannot.
pub open spec fn enabling_step(privilege: Privilege, channel: Channel) -> StepView {
    StepView {
        operation: OperationView::Enable(privilege),
        notice: Notice::spec_of_privilege(privilege),
        channel,
    }
}

/// The plan that carries out `operation`: the privileges that the
/// operation needs are enabled first, impersonation before debug, then the
/// operation follows. A privilege that cannot be enabled is reported, and
/// `failing` is said where the operation fails, all on `channel`.
pub open spec fn planned(operation: OperationView, failing: Notice, channel: Channel) -> Seq<
    StepView,
> {
    let impersonate = enabling_step(Privilege::Impersonate, channel);
    let debug = enabling_step(Privilege::Debug, channel);
    let last = StepView { operation, notice: failing, channel };
    match operation {
        OperationView::Enable(_) => seq![last],
        OperationView::ListTokens => seq![debug, last],
        OperationView::Exec { .. } => seq![impersonate, debug, last],
        OperationView::Spawn { .. } => seq![impersonate, debug, last],
    }
}

fn enabling(privilege: Privilege, channel: Channel) -> (step: Step)
    ensures
        step@ == enabling_step(privilege, channel),
{
    Step {
        operation: Operation::Enable(privilege),
        notice: Notice::of_privilege(privilege),
        channel,
    }
}

/// The steps that carry out `operation`, in order. Each step is carried
/// out whether or not the one before it failed.
pub fn plan(operation: Operation, failing: Notice, channel: Channel) -> (plan: Vec<Step>)
    ensures
        steps(plan@) == planned(operation@, failing, channel),
{
    let mut plan: Vec<Step> = Vec::new();
    match &operation {
        Operation::Enable(_) => {},
        Operation::ListTokens => {
            plan.push(enabling(Privilege::Debug, channel));
        },
        Operation::Exec { .. } => {
            plan.push(enabling(Privilege::Impersonate, channel));
            plan.push(enabling(Privilege::Debug, channel));
        },
        Operation::Spawn { .. } => {
            plan.push(enabling(Privilege::Impersonate, channel));
            plan.push(enabling(Privilege::Debug, channel));
        },
    }
    plan.push(Step { operation, notice: failing, channel });
    assert(steps(plan@) =~= planned(operation@, failing, channel));
    plan
}

/// Every plan enables the privileges of its operation before the operation
/// itself.
pub proof fn lemma_planned_is_prepared(operation: OperationView, failing: Notice, channel: Channel)
    ensures
        prepared(planned(operation, failing, channel)),
{
    let plan = planned(operation, failing, channel);
    assert forall|i: int, p: Privilege| 0 <= i < plan.len() && #[trigger] needs(
        plan[i].operation,
        p,
    ) implies exists|j: int|
        0 <= j < i && (#[trigger] plan[j]).operation == OperationView::Enable(p) by {
        if operation is ListTokens {
            assert(plan[0].operation == OperationView::Enable(Privilege::Debug));
        } else {
            assert(plan[0].operation == OperationView::Enable(Privilege::Impersonate));
            assert(plan[1].operation == OperationView::Enable(Privilege::Debug));
        }
    }
}

/// No step of a plan fails in silence: whatever fails, its step says a
/// line that is not empty, on the plan's channel, and the next step
/// follows.
pub proof fn lemma_every_failure_is_said(
    operation: OperationView,
    failing: Notice,
    channel: Channel,
    i: int,
    message: Seq<char>,
)
    requires
        0 <= i < planned(operation, failing, channel).len(),
    ensures
        planned(operation, failing, channel)[i].sequel(Some(message)).said matches Some(said)
            && said.channel == channel && said.line.len() > 0,
        planned(operation, failing, channel)[i].sequel(Some(message)).proceed,
{
    let step = planned(operation, failing, channel)[i];
    lemma_prefix_is_not_empty(step.notice);
}

/// Every notice has a prefix of at least one character.
pub proof fn lemma_prefix_is_not_empty(notice: Notice)
    ensures
        notice.spec_prefix().len() > 0,
{
    reveal_strlit("Failed to enable SeDebug: ");
    reveal_strlit("Failed to enable SeImpersonate: ");
    reveal_strlit("Failed to list tokens: ");
    reveal_strlit("Exec mode failed: ");
    reveal_strlit("Spawn mode failed: ");
    reveal_strlit("Exec failed: ");
    reveal_strlit("Spawn failed: ");
}

} // verus!
