use console_parser::console::{clear_command, exit_command, help_command, ConsoleCommand};
use console_parser::{CommandRegistry, Field, FromValueError, PrintConsoleLine, ValueType};

#[test]
fn command_is_taken_once() {
    let mut cmd: ConsoleCommand<i64> = ConsoleCommand::new(Some(Ok(5)));
    assert_eq!(cmd.take(), Some(Ok(5)));
    assert_eq!(cmd.take(), None);
    let mut failed: ConsoleCommand<i64> =
        ConsoleCommand::new(Some(Err(FromValueError::NotEnoughArgs)));
    assert_eq!(failed.take(), Some(Err(FromValueError::NotEnoughArgs)));
}

#[test]
fn replies_are_printed_in_order() {
    let mut cmd: ConsoleCommand<()> = ConsoleCommand::new(None);
    cmd.reply("Hello".to_string());
    cmd.ok();
    cmd.reply_failed("no luck".to_string());
    cmd.reply_ok("done".to_string());
    cmd.failed();
    let lines: Vec<String> = cmd.into_lines().into_iter().map(|l| l.line).collect();
    assert_eq!(
        lines,
        vec!["Hello", "[ok]", "no luck", "[failed]", "done", "[ok]", "[failed]"]
    );
    assert_eq!(
        PrintConsoleLine::new("x".to_string()),
        PrintConsoleLine { line: "x".to_string() }
    );
}

#[test]
fn help_command_replies() {
    let mut registry = CommandRegistry::new();
    registry
        .register(
            "log".to_string(),
            "Prints given arguments to the console".to_string(),
            vec![Field {
                name: "msg".to_string(),
                value_type: ValueType::String,
                optional: false,
                description: "Message to print".to_string(),
            }],
            "Usage: log <msg>".to_string(),
        )
        .unwrap();
    registry
        .register("exit".to_string(), "Exits the app".to_string(), vec![], "Usage: exit".to_string())
        .unwrap();

    let mut all: ConsoleCommand<Option<String>> = ConsoleCommand::new(Some(Ok(None)));
    help_command(&mut all, &registry);
    let lines: Vec<String> = all.into_lines().into_iter().map(|l| l.line).collect();
    assert_eq!(
        lines,
        vec![
            "Available commands:",
            "  exit - Exits the app",
            "  log  - Prints given arguments to the console",
            ""
        ]
    );

    let mut one: ConsoleCommand<Option<String>> =
        ConsoleCommand::new(Some(Ok(Some("log".to_string()))));
    help_command(&mut one, &registry);
    let lines: Vec<String> = one.into_lines().into_iter().map(|l| l.line).collect();
    assert_eq!(lines, vec!["Usage: log <msg>"]);

    let mut missing: ConsoleCommand<Option<String>> =
        ConsoleCommand::new(Some(Ok(Some("warp".to_string()))));
    help_command(&mut missing, &registry);
    let lines: Vec<String> = missing.into_lines().into_iter().map(|l| l.line).collect();
    assert_eq!(lines, vec!["Command 'warp' does not exist"]);

    let mut none: ConsoleCommand<Option<String>> = ConsoleCommand::new(None);
    help_command(&mut none, &registry);
    assert!(none.into_lines().is_empty());
}

#[test]
fn exit_and_clear_commands() {
    let mut exit: ConsoleCommand<()> = ConsoleCommand::new(Some(Ok(())));
    assert!(exit_command(&mut exit));
    assert!(!exit_command(&mut exit));
    let lines: Vec<String> = exit.into_lines().into_iter().map(|l| l.line).collect();
    assert_eq!(lines, vec!["[ok]"]);

    let mut clear: ConsoleCommand<()> = ConsoleCommand::new(Some(Ok(())));
    assert!(clear_command(&mut clear));
    assert!(!clear_command(&mut clear));
    let mut bad: ConsoleCommand<()> = ConsoleCommand::new(Some(Err(FromValueError::TooManyArgs)));
    assert!(!clear_command(&mut bad));
}
