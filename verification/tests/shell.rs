use firmware_runtime::shell::{
    echo, same_text, tokenize, CommandTable, Handler, Outcome, Shell, ShellAction, ShellEvent,
    ShellState,
};

const USAGE: &str =
    "Usage: echo <message>\nNote: to echo multiple words wrap the message in \"\".\n";

fn echo_table() -> CommandTable {
    let mut table = CommandTable::new();
    table.register("echo", "Echo message", Handler::Echo);
    table
}

#[test]
fn echo_writes_its_single_argument() {
    let mut out = String::new();
    echo(&mut out, &["echo", "hello"]);
    assert_eq!(out, "hello\n");
}

#[test]
fn echo_without_argument_writes_usage() {
    let mut out = String::new();
    echo(&mut out, &["echo"]);
    assert_eq!(out, USAGE);
}

#[test]
fn echo_with_two_arguments_writes_usage() {
    let mut out = String::new();
    echo(&mut out, &["echo", "a", "b"]);
    assert_eq!(out, USAGE);
}

#[test]
fn echo_usage_names_the_command_as_called() {
    let mut out = String::new();
    echo(&mut out, &["say"]);
    assert_eq!(
        out,
        "Usage: say <message>\nNote: to echo multiple words wrap the message in \"\".\n"
    );
}

#[test]
fn echo_appends_to_what_is_there() {
    let mut out = String::from("> ");
    echo(&mut out, &["echo", "x"]);
    assert_eq!(out, "> x\n");
}

#[test]
fn tokenize_splits_on_runs_of_blanks() {
    assert_eq!(tokenize("echo hello"), vec!["echo", "hello"]);
    assert_eq!(tokenize("  echo \t a   b \r\n"), vec!["echo", "a", "b"]);
    assert_eq!(tokenize("one"), vec!["one"]);
}

#[test]
fn tokenize_of_blank_line_is_empty() {
    assert!(tokenize("").is_empty());
    assert!(tokenize("   \t ").is_empty());
}

#[test]
fn tokenize_keeps_non_ascii_words() {
    assert_eq!(tokenize("écho  grüß dich"), vec!["écho", "grüß", "dich"]);
}

#[test]
fn same_text_compares_characters() {
    assert!(same_text("echo", "echo"));
    assert!(!same_text("echo", "Echo"));
    assert!(!same_text("echo", "echo "));
    assert!(same_text("", ""));
}

#[test]
fn lookup_is_exact_and_case_sensitive() {
    let mut table = echo_table();
    table.register("led", "Switch the LED", Handler::External(7));
    table.register("echo", "Shadowed", Handler::External(9));
    assert_eq!(table.len(), 3);
    assert_eq!(table.lookup("echo"), Some(0));
    assert_eq!(table.lookup("led"), Some(1));
    assert_eq!(table.lookup("ECHO"), None);
    assert_eq!(table.lookup("ech"), None);
    assert_eq!(table.get(1).unwrap().name(), "led");
    assert_eq!(table.get(1).unwrap().description(), "Switch the LED");
    assert_eq!(table.get(1).unwrap().handler(), Handler::External(7));
    assert!(table.get(3).is_none());
}

#[test]
fn line_echo_hello_produces_hello() {
    let table = echo_table();
    let mut out = String::new();
    assert_eq!(table.process_line("echo hello", &mut out), Outcome::Ran { command: 0 });
    assert_eq!(out, "hello\n");
}

#[test]
fn line_echo_without_argument_produces_usage() {
    let table = echo_table();
    let mut out = String::new();
    assert_eq!(table.process_line("echo", &mut out), Outcome::Ran { command: 0 });
    assert_eq!(out, USAGE);
    assert!(out.contains("echo"));
    assert_ne!(out, "\n");
}

#[test]
fn line_echo_with_two_arguments_produces_usage() {
    let table = echo_table();
    let mut out = String::new();
    assert_eq!(table.process_line("echo a b", &mut out), Outcome::Ran { command: 0 });
    assert_eq!(out, USAGE);
}

#[test]
fn empty_line_is_ignored() {
    let table = echo_table();
    let mut out = String::new();
    assert_eq!(table.process_line("", &mut out), Outcome::Ignored);
    assert_eq!(table.process_line("   ", &mut out), Outcome::Ignored);
    assert_eq!(out, "");
}

#[test]
fn unknown_command_is_reported() {
    let table = echo_table();
    let mut out = String::new();
    assert_eq!(table.process_line("reboot now", &mut out), Outcome::NotFound);
    assert_eq!(out, "shell: command not found: reboot\n");
}

#[test]
fn external_command_is_handed_back() {
    let mut table = echo_table();
    table.register("led", "Switch the LED", Handler::External(7));
    let mut out = String::new();
    assert_eq!(
        table.process_line("led on", &mut out),
        Outcome::Deferred { command: 1, token: 7, args: vec!["led", "on"] }
    );
    assert_eq!(out, "");
}

#[test]
fn shell_accepts_input_after_unknown_command() {
    let mut shell = Shell::new(echo_table());
    let mut out = String::new();
    assert_eq!(shell.state(), ShellState::WaitingForLine);
    assert_eq!(shell.step(ShellEvent::Line("nonsense"), &mut out), ShellAction::WriteOutput);
    assert_eq!(out, "shell: command not found: nonsense\n");
    assert_eq!(shell.state(), ShellState::AwaitingNextLine);
    assert_eq!(shell.step(ShellEvent::OutputWritten, &mut out), ShellAction::ReadLine);
    assert_eq!(shell.state(), ShellState::WaitingForLine);
    out.clear();
    assert_eq!(shell.step(ShellEvent::Line("echo hello"), &mut out), ShellAction::WriteOutput);
    assert_eq!(out, "hello\n");
}

#[test]
fn shell_waits_for_external_handler() {
    let mut table = echo_table();
    table.register("led", "Switch the LED", Handler::External(7));
    let mut shell = Shell::new(table);
    assert_eq!(shell.table().len(), 2);
    let mut out = String::new();
    assert_eq!(
        shell.step(ShellEvent::Line("led off"), &mut out),
        ShellAction::Run { command: 1, token: 7, args: vec!["led", "off"] }
    );
    assert_eq!(shell.state(), ShellState::Dispatching);
    assert_eq!(shell.step(ShellEvent::Line("echo x"), &mut out), ShellAction::AwaitHandler);
    assert_eq!(shell.step(ShellEvent::OutputWritten, &mut out), ShellAction::AwaitHandler);
    assert_eq!(shell.state(), ShellState::Dispatching);
    assert_eq!(shell.step(ShellEvent::HandlerReturned, &mut out), ShellAction::WriteOutput);
    assert_eq!(shell.state(), ShellState::AwaitingNextLine);
    assert_eq!(shell.step(ShellEvent::HandlerReturned, &mut out), ShellAction::WriteOutput);
    assert_eq!(shell.step(ShellEvent::Line("echo x"), &mut out), ShellAction::WriteOutput);
    assert_eq!(shell.state(), ShellState::AwaitingNextLine);
    assert_eq!(shell.step(ShellEvent::OutputWritten, &mut out), ShellAction::ReadLine);
    assert_eq!(shell.state(), ShellState::WaitingForLine);
    assert_eq!(out, "");
}

#[test]
fn shell_ignores_events_out_of_turn_while_waiting() {
    let mut shell = Shell::new(echo_table());
    let mut out = String::new();
    assert_eq!(shell.step(ShellEvent::HandlerReturned, &mut out), ShellAction::ReadLine);
    assert_eq!(shell.step(ShellEvent::OutputWritten, &mut out), ShellAction::ReadLine);
    assert_eq!(shell.state(), ShellState::WaitingForLine);
    assert_eq!(shell.step(ShellEvent::Line(""), &mut out), ShellAction::WriteOutput);
    assert_eq!(out, "");
}
