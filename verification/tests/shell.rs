use irs::plan::{Channel, Notice, Operation, Privilege, Step};
use irs::shell::{interpret, parse_line, respond, run_interactive, Command, Turn, Usage};

fn exec(pid: u32, command: &str) -> Command {
    Command::Exec { pid, command: command.to_string() }
}

fn spawn(pid: u32, binary: &str) -> Command {
    Command::Spawn { pid, binary: binary.to_string() }
}

fn enabling(privilege: Privilege) -> Step {
    let notice = match privilege {
        Privilege::Debug => Notice::EnableDebug,
        Privilege::Impersonate => Notice::EnableImpersonate,
    };
    Step { operation: Operation::Enable(privilege), notice, channel: Channel::Print }
}

#[test]
fn a_line_without_words_is_blank() {
    assert_eq!(parse_line(""), Command::Blank);
    assert_eq!(parse_line("   "), Command::Blank);
    assert_eq!(parse_line("\t\r\n"), Command::Blank);
}

#[test]
fn list_is_recognised() {
    assert_eq!(parse_line("list"), Command::List);
    assert_eq!(parse_line("  list  \n"), Command::List);
    assert_eq!(parse_line("list and more"), Command::List);
}

#[test]
fn keywords_are_matched_in_lower_case() {
    assert_eq!(parse_line("LIST"), Command::List);
    assert_eq!(parse_line("Help"), Command::Help);
    assert_eq!(parse_line("eXiT"), Command::Quit);
    assert_eq!(parse_line("QUIT"), Command::Quit);
    assert_eq!(parse_line("EXEC 1 x"), exec(1, "x"));
    assert_eq!(parse_line("Spawn 1 x"), spawn(1, "x"));
}

#[test]
fn exec_takes_a_pid_and_a_command() {
    assert_eq!(parse_line("exec 42 whoami /all"), exec(42, "whoami /all"));
    assert_eq!(parse_line("exec 4294967295 x"), exec(u32::MAX, "x"));
}

#[test]
fn the_command_is_joined_by_single_spaces() {
    assert_eq!(parse_line("exec   42   cmd.exe   /c \t dir\n"), exec(42, "cmd.exe /c dir"));
}

#[test]
fn the_command_keeps_its_case() {
    assert_eq!(parse_line("EXEC 7 WhoAmI /ALL"), exec(7, "WhoAmI /ALL"));
}

#[test]
fn exec_without_its_arguments_asks_for_usage() {
    assert_eq!(parse_line("exec"), Command::Usage(Usage::Exec));
    assert_eq!(parse_line("exec 42"), Command::Usage(Usage::Exec));
    assert_eq!(parse_line("exec 42   "), Command::Usage(Usage::Exec));
    assert_eq!(parse_line("exec whoami"), Command::Usage(Usage::Exec));
}

#[test]
fn a_pid_that_is_no_number_is_zero() {
    assert_eq!(parse_line("exec abc whoami"), exec(0, "whoami"));
    assert_eq!(parse_line("exec -1 whoami"), exec(0, "whoami"));
    assert_eq!(parse_line("exec 4294967296 whoami"), exec(0, "whoami"));
    assert_eq!(parse_line("exec 0x10 whoami"), exec(0, "whoami"));
    assert_eq!(parse_line("exec +7 whoami"), exec(7, "whoami"));
    assert_eq!(parse_line("spawn 1.5 a.exe"), spawn(0, "a.exe"));
}

#[test]
fn spawn_takes_a_pid_and_a_binary() {
    assert_eq!(
        parse_line("spawn 4 C:\\Windows\\System32\\cmd.exe"),
        spawn(4, "C:\\Windows\\System32\\cmd.exe")
    );
    assert_eq!(parse_line("spawn 4 a.exe b c"), spawn(4, "a.exe b c"));
}

#[test]
fn spawn_without_its_arguments_asks_for_usage() {
    assert_eq!(parse_line("spawn"), Command::Usage(Usage::Spawn));
    assert_eq!(parse_line("spawn 4"), Command::Usage(Usage::Spawn));
}

#[test]
fn help_and_quit_are_recognised() {
    assert_eq!(parse_line("help"), Command::Help);
    assert_eq!(parse_line("exit"), Command::Quit);
    assert_eq!(parse_line("quit"), Command::Quit);
}

#[test]
fn another_first_word_is_unknown_in_lower_case() {
    assert_eq!(parse_line("frobnicate"), Command::Unknown("frobnicate".to_string()));
    assert_eq!(parse_line("FooBar 1 2"), Command::Unknown("foobar".to_string()));
    assert_eq!(parse_line("lists"), Command::Unknown("lists".to_string()));
    assert_eq!(parse_line("ÄB"), Command::Unknown("äb".to_string()));
}

#[test]
fn unicode_white_space_parts_words() {
    assert_eq!(parse_line("list\u{a0}"), Command::List);
    assert_eq!(parse_line("exec\u{3000}5\u{2003}x\u{2028}y"), exec(5, "x y"));
}

#[test]
fn interpret_takes_the_keyword_as_it_stands() {
    let none: Vec<String> = Vec::new();
    assert_eq!(interpret("list", &none), Command::List);
    assert_eq!(interpret("LIST", &none), Command::Unknown("LIST".to_string()));
    assert_eq!(interpret("", &none), Command::Unknown(String::new()));
    let args = vec!["9".to_string(), "a".to_string(), "b".to_string()];
    assert_eq!(interpret("exec", &args), exec(9, "a b"));
    assert_eq!(interpret("spawn", &args), spawn(9, "a b"));
    assert_eq!(interpret("help", &args), Command::Help);
    assert_eq!(interpret("quit", &args), Command::Quit);
    assert_eq!(interpret("exit", &args), Command::Quit);
}

#[test]
fn interpret_wants_a_command_of_at_least_one_character() {
    let args = vec!["9".to_string(), String::new()];
    assert_eq!(interpret("exec", &args), Command::Usage(Usage::Exec));
    let args = vec!["9".to_string(), String::new(), String::new()];
    assert_eq!(interpret("exec", &args), exec(9, " "));
}

#[test]
fn the_end_of_input_stops_the_shell() {
    let turn = run_interactive(None);
    assert_eq!(turn, Turn { say: vec![], plan: vec![], proceed: false });
}

#[test]
fn a_blank_line_does_nothing() {
    let turn = run_interactive(Some("  \n"));
    assert_eq!(turn, Turn { say: vec![], plan: vec![], proceed: true });
}

#[test]
fn quit_stops_the_shell() {
    assert_eq!(run_interactive(Some("quit\n")), Turn { say: vec![], plan: vec![], proceed: false });
    assert_eq!(run_interactive(Some("exit")), Turn { say: vec![], plan: vec![], proceed: false });
}

#[test]
fn help_prints_the_commands() {
    let turn = run_interactive(Some("help\n"));
    assert_eq!(
        turn.say,
        vec![
            "Available commands:",
            "  list",
            "  exec <pid> <command>",
            "  spawn <pid> <binary>",
            "  exit",
        ]
    );
    assert!(turn.plan.is_empty());
    assert!(turn.proceed);
}

#[test]
fn usage_is_printed_for_missing_arguments() {
    let turn = run_interactive(Some("exec 12"));
    assert_eq!(turn.say, vec!["Usage: exec <pid> <command>"]);
    assert!(turn.plan.is_empty() && turn.proceed);
    let turn = run_interactive(Some("spawn"));
    assert_eq!(turn.say, vec!["Usage: spawn <pid> <binary_path>"]);
    assert!(turn.plan.is_empty() && turn.proceed);
}

#[test]
fn an_unknown_command_is_named() {
    let turn = run_interactive(Some("Frob it"));
    assert_eq!(turn.say, vec!["Unknown command: frob"]);
    assert!(turn.plan.is_empty() && turn.proceed);
}

#[test]
fn list_enables_debug_then_lists() {
    let turn = run_interactive(Some("list"));
    assert!(turn.say.is_empty() && turn.proceed);
    assert_eq!(
        turn.plan,
        vec![
            enabling(Privilege::Debug),
            Step {
                operation: Operation::ListTokens,
                notice: Notice::ListTokens,
                channel: Channel::Print,
            },
        ]
    );
}

#[test]
fn exec_enables_both_privileges_then_runs() {
    let turn = run_interactive(Some("exec 77 cmd /c ver"));
    assert!(turn.say.is_empty() && turn.proceed);
    assert_eq!(
        turn.plan,
        vec![
            enabling(Privilege::Impersonate),
            enabling(Privilege::Debug),
            Step {
                operation: Operation::Exec { pid: 77, command: "cmd /c ver".to_string() },
                notice: Notice::Exec,
                channel: Channel::Print,
            },
        ]
    );
}

#[test]
fn spawn_enables_both_privileges_then_starts() {
    let turn = respond(spawn(78, "a.exe"));
    assert!(turn.say.is_empty() && turn.proceed);
    assert_eq!(
        turn.plan,
        vec![
            enabling(Privilege::Impersonate),
            enabling(Privilege::Debug),
            Step {
                operation: Operation::Spawn { pid: 78, command: "a.exe".to_string() },
                notice: Notice::Spawn,
                channel: Channel::Print,
            },
        ]
    );
}

#[test]
fn the_same_line_gives_the_same_turn() {
    for line in ["list", "exec 1 a b", "spawn 2 c", "help", "nope", "", "quit"] {
        assert_eq!(run_interactive(Some(line)), run_interactive(Some(line)));
    }
}

#[test]
fn the_shell_prints_a_privilege_that_cannot_be_enabled() {
    for line in ["list", "exec 4 cmd", "spawn 4 cmd.exe"] {
        let turn = run_interactive(Some(line));
        let (last, enablings) = turn.plan.split_last().unwrap();
        assert!(!enablings.is_empty());
        for step in enablings {
            let said = step.sequel(Some("permission denied")).said.unwrap();
            assert_eq!(said.channel, Channel::Print);
            assert!(said.line.starts_with("Failed to enable Se"));
            assert!(said.line.ends_with(": permission denied"));
        }
        assert!(last.sequel(Some("x")).proceed);
        assert!(turn.proceed);
    }
}
