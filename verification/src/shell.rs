//! The interactive front end: from one line of input to the command it
//! gives, and from the command to what the shell says and does.

use vstd::prelude::*;
use vstd::string::StringExecFns;
use crate::number::{parse_number, parsed};
use crate::plan::{
    lemma_every_failure_is_said, lemma_planned_is_prepared, plan, planned, prepared, steps,
    Channel, Notice, Operation, OperationView, Step, StepView,
};
use crate::text::{
    join_from, joined, lemma_joined_is_empty, lemma_words_are_plain, lowercase, marks, same_text,
    split_words, texts, words,
};

verus! {

/// A command that takes arguments.
#[derive(Clone, Copy, Debug, PartialEq, Eq, Structural)]
pub enum Usage {
    Exec,
    Spawn,
}

/// What one line of input asks for.
#[derive(Clone, Debug, PartialEq, Eq)]
pub enum Command {
    /// The line holds no word.
    Blank,
    List,
    Exec { pid: u32, command: String },
    Spawn { pid: u32, binary: String },
    Help,
    Quit,
    /// A command that lacks its arguments.
    Usage(Usage),
    /// A first word that names no command, in lower case.
    Unknown(String),
}

/// A command, with its texts as sequences of characters.
pub enum CommandView {
    Blank,
    List,
    Exec { pid: u32, command: Seq<char> },
    Spawn { pid: u32, binary: Seq<char> },
    Help,
    Quit,
    Usage(Usage),
    Unknown(Seq<char>),
}

impl View for Command {
    type V = CommandView;

    open spec fn view(&self) -> CommandView {
        match self {
            Command::Blank => CommandView::Blank,
            Command::List => CommandView::List,
            Command::Exec { pid, command } => CommandView::Exec { pid: *pid, command: command@ },
            Command::Spawn { pid, binary } => CommandView::Spawn { pid: *pid, binary: binary@ },
            Command::Help => CommandView::Help,
            Command::Quit => CommandView::Quit,
            Command::Usage(u) => CommandView::Usage(*u),
            Command::Unknown(word) => CommandView::Unknown(word@),
        }
    }
}

/// The process id that `word` names: the number it writes, or 0 where it
/// writes none.
pub open spec fn pid_of(word: Seq<char>) -> u32 {
    match parsed(word) {
        Some(n) => n,
        None => 0,
    }
}

/// The command that `keyword`, a first word in lower case, makes with the
/// words after it. `exec` and `spawn` take a process id and then a command
/// of at least one character: the remaining words, joined by single spaces.
pub open spec fn command_of(keyword: Seq<char>, arguments: Seq<Seq<char>>) -> CommandView {
    let rest = joined(arguments.skip(1));
    if keyword == "list"@ {
        CommandView::List
    } else if keyword == "exec"@ {
        if arguments.len() == 0 || rest.len() == 0 {
            CommandView::Usage(Usage::Exec)
        } else {
            CommandView::Exec { pid: pid_of(arguments[0]), command: rest }
        }
    } else if keyword == "spawn"@ {
        if arguments.len() == 0 || rest.len() == 0 {
            CommandView::Usage(Usage::Spawn)
        } else {
            CommandView::Spawn { pid: pid_of(arguments[0]), binary: rest }
        }
    } else if keyword == "help"@ {
        CommandView::Help
    } else if keyword == "exit"@ || keyword == "quit"@ {
        CommandView::Quit
    } else {
        CommandView::Unknown(keyword)
    }
}

/// The command that `line` gives: none where it holds no word, else the one
/// that its first word, in lower case, makes with the words after it.
pub open spec fn line_command(line: Seq<char>) -> CommandView {
    let found = words(line);
    if found.len() == 0 {
        CommandView::Blank
    } else {
        command_of(lowercase(found[0]), found.skip(1))
    }
}

/// In a line, `exec` asks for usage exactly where fewer than two words
/// follow it; else the first of them names the process, and the others are
/// the command.
pub proof fn lemma_exec_wants_two_words(line: Seq<char>)
    requires
        words(line).len() > 0,
        lowercase(words(line)[0]) == "exec"@,
    ensures
        line_command(line) == if words(line).len() < 3 {
            CommandView::Usage(Usage::Exec)
        } else {
            CommandView::Exec {
                pid: pid_of(words(line)[1]),
                command: joined(words(line).skip(2)),
            }
        },
{
    reveal_strlit("exec");
    reveal_strlit("list");
    assert("exec"@[0] != "list"@[0]);
    lemma_rest_is_empty(line);
}

/// In a line, `spawn` asks for usage exactly where fewer than two words
/// follow it; else the first of them names the process, and the others are
/// the binary.
pub proof fn lemma_spawn_wants_two_words(line: Seq<char>)
    requires
        words(line).len() > 0,
        lowercase(words(line)[0]) == "spawn"@,
    ensures
        line_command(line) == if words(line).len() < 3 {
            CommandView::Usage(Usage::Spawn)
        } else {
            CommandView::Spawn {
                pid: pid_of(words(line)[1]),
                binary: joined(words(line).skip(2)),
            }
        },
{
    reveal_strlit("spawn");
    reveal_strlit("exec");
    reveal_strlit("list");
    assert("spawn"@[0] != "list"@[0]);
    assert("spawn"@[0] != "exec"@[0]);
    lemma_rest_is_empty(line);
}

/// What follows the second word of a line is empty exactly where the line
/// has no third word.
proof fn lemma_rest_is_empty(line: Seq<char>)
    requires
        words(line).len() > 0,
    ensures
        words(line).skip(1).len() == words(line).len() - 1,
        words(line).len() >= 2 ==> {
            &&& words(line).skip(1)[0] == words(line)[1]
            &&& words(line).skip(1).skip(1) == words(line).skip(2)
            &&& joined(words(line).skip(2)).len() == 0 <==> words(line).len() == 2
        },
{
    let found = words(line);
    lemma_words_are_plain(marks(line));
    if found.len() >= 2 {
        let rest = found.skip(2);
        assert(found.skip(1).skip(1) == rest);
        assert forall|i: int| 0 <= i < rest.len() implies (#[trigger] rest[i]).len() > 0 by {
            assert(rest[i] == found[i + 2]);
        }
        lemma_joined_is_empty(rest);
    }
}

/// The process id and the text that follow a keyword: `None` where the id
/// or the text is missing.
fn operands(found: &Vec<String>, from: usize) -> (got: Option<(u32, String)>)
    requires
        from <= found.len(),
    ensures
        ({
            let arguments = texts(found@).skip(from as int);
            let rest = joined(arguments.skip(1));
            match got {
                None => arguments.len() == 0 || rest.len() == 0,
                Some((pid, text)) => arguments.len() > 0 && rest.len() > 0 && pid == pid_of(
                    arguments[0],
                ) && text@ == rest,
            }
        }),
{
    let ghost arguments = texts(found@).skip(from as int);
    if from == found.len() {
        return None;
    }
    let pid = match parse_number(found[from].as_str()) {
        Some(n) => n,
        None => 0,
    };
    assert(arguments[0] == found@[from as int]@);
    let text = join_from(found, from + 1);
    assert(texts(found@).skip(from + 1) == arguments.skip(1));
    if text.as_str().is_empty() {
        None
    } else {
        Some((pid, text))
    }
}

fn command_from(keyword: &str, found: &Vec<String>, from: usize) -> (command: Command)
    requires
        from <= found.len(),
    ensures
        command@ == command_of(keyword@, texts(found@).skip(from as int)),
{
    if same_text(keyword, "list") {
        Command::List
    } else if same_text(keyword, "exec") {
        match operands(found, from) {
            Some((pid, command)) => Command::Exec { pid, command },
            None => Command::Usage(Usage::Exec),
        }
    } else if same_text(keyword, "spawn") {
        match operands(found, from) {
            Some((pid, binary)) => Command::Spawn { pid, binary },
            None => Command::Usage(Usage::Spawn),
        }
    } else if same_text(keyword, "help") {
        Command::Help
    } else if same_text(keyword, "exit") || same_text(keyword, "quit") {
        Command::Quit
    } else {
        Command::Unknown(String::from_str(keyword))
    }
}

/// The command that `keyword` makes with `arguments`. The keyword is taken
/// as it stands: only a keyword in lower case names a command.
pub fn interpret(keyword: &str, arguments: &Vec<String>) -> (command: Command)
    ensures
        command@ == command_of(keyword@, texts(arguments@)),
{
    assert(texts(arguments@).skip(0) == texts(arguments@));
    command_from(keyword, arguments, 0)
}

/// The command that one line of input gives.
pub fn parse_line(line: &str) -> (command: Command)
    ensures
        command@ == line_command(line@),
{
    let found = split_words(line);
    if found.len() == 0 {
        return Command::Blank;
    }
    let keyword = found[0].as_str().to_lowercase();
    assert(texts(found@)[0] == found@[0]@);
    command_from(keyword.as_str(), &found, 1)
}

/// What the shell does with one line of input.
#[derive(Clone, Debug, PartialEq, Eq)]
pub struct Turn {
    /// The lines to print, in order.
    pub say: Vec<String>,
    /// The steps to carry out after that, in order, each whether or not the
    /// one before it failed.
    pub plan: Vec<Step>,
    /// Whether the shell then reads another line.
    pub proceed: bool,
}

/// A turn, with its texts as sequences of characters.
pub struct TurnView {
    pub say: Seq<Seq<char>>,
    pub plan: Seq<StepView>,
    pub proceed: bool,
}

impl View for Turn {
    type V = TurnView;

    open spec fn view(&self) -> TurnView {
        TurnView { say: texts(self.say@), plan: steps(self.plan@), proceed: self.proceed }
    }
}

/// The line that tells how a command is used.
pub open spec fn usage_text(usage: Usage) -> Seq<char> {
    match usage {
        Usage::Exec => "Usage: exec <pid> <command>"@,
        Usage::Spawn => "Usage: spawn <pid> <binary_path>"@,
    }
}

/// The lines that `help` prints.
pub open spec fn help_text() -> Seq<Seq<char>> {
    seq![
        "Available commands:"@,
        "  list"@,
        "  exec <pid> <command>"@,
        "  spawn <pid> <binary>"@,
        "  exit"@,
    ]
}

/// The steps behind a command of the shell; what they say of a failure is
/// printed. A privilege that cannot be enabled is reported, and the
/// operation follows all the same.
pub open spec fn shell_plan(command: CommandView) -> Seq<StepView> {
    match command {
        CommandView::List => planned(
            OperationView::ListTokens,
            Notice::ListTokens,
            Channel::Print,
        ),
        CommandView::Exec { pid, command } => planned(
            OperationView::Exec { pid, command },
            Notice::Exec,
            Channel::Print,
        ),
        CommandView::Spawn { pid, binary } => planned(
            OperationView::Spawn { pid, command: binary },
            Notice::Spawn,
            Channel::Print,
        ),
        _ => Seq::empty(),
    }
}

/// The lines that the shell prints for a command, before it carries out
/// the command's steps.
pub open spec fn shell_says(command: CommandView) -> Seq<Seq<char>> {
    match command {
        CommandView::Help => help_text(),
        CommandView::Usage(usage) => seq![usage_text(usage)],
        CommandView::Unknown(word) => seq!["Unknown command: "@ + word],
        _ => Seq::empty(),
    }
}

/// What the shell does with a command: it goes on after every command but
/// `Quit`.
pub open spec fn turn_of(command: CommandView) -> TurnView {
    TurnView {
        say: shell_says(command),
        plan: shell_plan(command),
        proceed: !(command is Quit),
    }
}

/// What the shell does with what it read: at the end of input it stops,
/// saying and doing nothing; a line is answered by the turn of its command.
pub open spec fn shell_turn(input: Option<Seq<char>>) -> TurnView {
    match input {
        None => TurnView { say: Seq::empty(), plan: Seq::empty(), proceed: false },
        Some(line) => turn_of(line_command(line)),
    }
}

/// What the shell does with `command`.
pub fn respond(command: Command) -> (turn: Turn)
    ensures
        turn@ == turn_of(command@),
{
    let mut say: Vec<String> = Vec::new();
    let mut carried: Vec<Step> = Vec::new();
    let mut proceed = true;
    let ghost asked = command@;
    match command {
        Command::Blank => {},
        Command::List => {
            carried = plan(
                Operation::ListTokens,
                Notice::ListTokens,
                Channel::Print,
            );
        },
        Command::Exec { pid, command } => {
            carried = plan(
                Operation::Exec { pid, command },
                Notice::Exec,
                Channel::Print,
            );
        },
        Command::Spawn { pid, binary } => {
            carried = plan(
                Operation::Spawn { pid, command: binary },
                Notice::Spawn,
                Channel::Print,
            );
        },
        Command::Help => {
            say.push(String::from_str("Available commands:"));
            say.push(String::from_str("  list"));
            say.push(String::from_str("  exec <pid> <command>"));
            say.push(String::from_str("  spawn <pid> <binary>"));
            say.push(String::from_str("  exit"));
        },
        Command::Quit => {
            proceed = false;
        },
        Command::Usage(Usage::Exec) => {
            say.push(String::from_str("Usage: exec <pid> <command>"));
        },
        Command::Usage(Usage::Spawn) => {
            say.push(String::from_str("Usage: spawn <pid> <binary_path>"));
        },
        Command::Unknown(word) => {
            let mut line = String::from_str("Unknown command: ");
            line.append(word.as_str());
            say.push(line);
        },
    }
    assert(texts(say@) =~= shell_says(asked));
    assert(steps(carried@) =~= shell_plan(asked));
    Turn { say, plan: carried, proceed }
}

/// One turn of the shell: `input` is the line that was read, or `None` at
/// the end of input.
pub fn run_interactive(input: Option<&str>) -> (turn: Turn)
    ensures
        turn@ == shell_turn(
            match input {
                Some(line) => Some(line@),
                None => None,
            },
        ),
{
    match input {
        None => {
            let turn = Turn { say: Vec::new(), plan: Vec::new(), proceed: false };
            assert(texts(turn.say@) =~= Seq::<Seq<char>>::empty());
            assert(steps(turn.plan@) =~= Seq::<StepView>::empty());
            turn
        },
        Some(line) => respond(parse_line(line)),
    }
}

/// Every turn enables the privileges of its operation before the operation
/// itself.
pub proof fn lemma_shell_plan_prepared(command: CommandView)
    ensures
        prepared(shell_plan(command)),
{
    match command {
        CommandView::List => lemma_planned_is_prepared(
            OperationView::ListTokens,
            Notice::ListTokens,
            Channel::Print,
        ),
        CommandView::Exec { pid, command } => lemma_planned_is_prepared(
            OperationView::Exec { pid, command },
            Notice::Exec,
            Channel::Print,
        ),
        CommandView::Spawn { pid, binary } => lemma_planned_is_prepared(
            OperationView::Spawn { pid, command: binary },
            Notice::Spawn,
            Channel::Print,
        ),
        _ => {},
    }
}

/// No failure of a turn is passed over: whichever step fails, a privilege
/// that cannot be enabled or the operation itself, the step prints a line
/// that is not empty, and the next step follows.
pub proof fn lemma_shell_reports_every_failure(command: CommandView, i: int, message: Seq<char>)
    requires
        0 <= i < shell_plan(command).len(),
    ensures
        shell_plan(command)[i].sequel(Some(message)).said matches Some(said) && said.channel
            == Channel::Print && said.line.len() > 0,
        shell_plan(command)[i].sequel(Some(message)).proceed,
{
    match command {
        CommandView::List => lemma_every_failure_is_said(
            OperationView::ListTokens,
            Notice::ListTokens,
            Channel::Print,
            i,
            message,
        ),
        CommandView::Exec { pid, command } => lemma_every_failure_is_said(
            OperationView::Exec { pid, command },
            Notice::Exec,
            Channel::Print,
            i,
            message,
        ),
        CommandView::Spawn { pid, binary } => lemma_every_failure_is_said(
            OperationView::Spawn { pid, command: binary },
            Notice::Spawn,
            Channel::Print,
            i,
            message,
        ),
        _ => {},
    }
}

} // verus!
