//! The command-line front end: from the options of one invocation to the
//! plan that carries it out.

use vstd::prelude::*;
use crate::plan::{
    lemma_every_failure_is_said, lemma_planned_is_prepared, plan, planned, prepared, steps,
    Channel, Notice, Operation, OperationView, Step, StepView,
};

verus! {

/// What one invocation is for.
#[derive(Clone, Copy, Debug, PartialEq, Eq, Structural)]
pub enum Mode {
    List,
    Exec,
    Spawn,
}

/// How much the program says of what it does.
#[derive(Clone, Copy, Debug, PartialEq, Eq, Structural)]
pub enum LogLevel {
    Off,
    Error,
    Warn,
    Info,
    Debug,
    Trace,
}

impl LogLevel {
    /// The level for a number of `-v` flags: `Error` for none, `Warn` for
    /// one, `Info` for two, `Debug` for three, `Trace` for four or more.
    pub open spec fn spec_of_flags(flags: usize) -> LogLevel {
        if flags == 0 {
            LogLevel::Error
        } else if flags == 1 {
            LogLevel::Warn
        } else if flags == 2 {
            LogLevel::Info
        } else if flags == 3 {
            LogLevel::Debug
        } else {
            LogLevel::Trace
        }
    }

    /// Returns the level for a number of `-v` flags: `Error` for none,
    /// `Warn` for one, `Info` for two, `Debug` for three, `Trace` for four
    /// or more.
    pub fn of_flags(flags: usize) -> (level: LogLevel)
        ensures
            level == LogLevel::spec_of_flags(flags),
    {
        if flags == 0 {
            LogLevel::Error
        } else if flags == 1 {
            LogLevel::Warn
        } else if flags == 2 {
            LogLevel::Info
        } else if flags == 3 {
            LogLevel::Debug
        } else {
            LogLevel::Trace
        }
    }
}

/// The options of one invocation. `pid` and `cmd` count for `Exec` and
/// `Spawn` only; `verbose` is for the logger, and has no part in the plan.
#[derive(Clone, Debug, PartialEq, Eq)]
pub struct Options {
    pub mode: Mode,
    pub pid: u32,
    pub cmd: String,
    pub verbose: LogLevel,
}

/// The options, with the command as a sequence of characters.
pub struct OptionsView {
    pub mode: Mode,
    pub pid: u32,
    pub cmd: Seq<char>,
    pub verbose: LogLevel,
}

impl View for Options {
    type V = OptionsView;

    open spec fn view(&self) -> OptionsView {
        OptionsView { mode: self.mode, pid: self.pid, cmd: self.cmd@, verbose: self.verbose }
    }
}

/// The operation that an invocation asks for.
pub open spec fn asked(opt: OptionsView) -> OperationView {
    match opt.mode {
        Mode::List => OperationView::ListTokens,
        Mode::Exec => OperationView::Exec { pid: opt.pid, command: opt.cmd },
        Mode::Spawn => OperationView::Spawn { pid: opt.pid, command: opt.cmd },
    }
}

/// The plan of an invocation; what it says of a failure goes to the logger.
/// Every mode reports a privilege that cannot be enabled, and goes on to
/// its operation all the same.
pub open spec fn cli_plan(opt: OptionsView) -> Seq<StepView> {
    match opt.mode {
        Mode::List => planned(asked(opt), Notice::ListTokens, Channel::Log),
        Mode::Exec => planned(asked(opt), Notice::ExecMode, Channel::Log),
        Mode::Spawn => planned(asked(opt), Notice::SpawnMode, Channel::Log),
    }
}

/// The steps that carry out one invocation, in order. Each step is carried
/// out whether or not the one before it failed.
pub fn run_cli(opt: &Options) -> (carried: Vec<Step>)
    ensures
        steps(carried@) == cli_plan(opt@),
{
    match opt.mode {
        Mode::List => plan(Operation::ListTokens, Notice::ListTokens, Channel::Log),
        Mode::Exec => plan(
            Operation::Exec { pid: opt.pid, command: opt.cmd.clone() },
            Notice::ExecMode,
            Channel::Log,
        ),
        Mode::Spawn => plan(
            Operation::Spawn { pid: opt.pid, command: opt.cmd.clone() },
            Notice::SpawnMode,
            Channel::Log,
        ),
    }
}

/// Every invocation enables the privileges of its operation before the
/// operation itself, and ends with the operation that was asked for.
pub proof fn lemma_cli_plan_prepared(opt: OptionsView)
    ensures
        prepared(cli_plan(opt)),
        cli_plan(opt).len() > 0,
        cli_plan(opt).last().operation == asked(opt),
{
    lemma_planned_is_prepared(asked(opt), Notice::ListTokens, Channel::Log);
    lemma_planned_is_prepared(asked(opt), Notice::ExecMode, Channel::Log);
    lemma_planned_is_prepared(asked(opt), Notice::SpawnMode, Channel::Log);
}

/// No failure of an invocation is passed over: whichever step fails, a
/// privilege that cannot be enabled or the operation itself, the step says a
/// line that is not empty to the logger, and the next step follows.
pub proof fn lemma_cli_reports_every_failure(opt: OptionsView, i: int, message: Seq<char>)
    requires
        0 <= i < cli_plan(opt).len(),
    ensures
        cli_plan(opt)[i].sequel(Some(message)).said matches Some(said) && said.channel
            == Channel::Log && said.line.len() > 0,
        cli_plan(opt)[i].sequel(Some(message)).proceed,
{
    match opt.mode {
        Mode::List => lemma_every_failure_is_said(
            asked(opt),
            Notice::ListTokens,
            Channel::Log,
            i,
            message,
        ),
        Mode::Exec => lemma_every_failure_is_said(
            asked(opt),
            Notice::ExecMode,
            Channel::Log,
            i,
            message,
        ),
        Mode::Spawn => lemma_every_failure_is_said(
            asked(opt),
            Notice::SpawnMode,
            Channel::Log,
            i,
            message,
        ),
    }
}

} // verus!
