use calculator::expression::EvaluationError;
use calculator::history::History;
use calculator::session::{parse_command, Action, Command, Session};

#[test]
fn history_starts_empty() {
    let history = History::new();
    assert_eq!(history.len(), 0);
    assert!(history.is_empty());
    assert_eq!(history.entry(0), None);
    assert!(history.numbered().is_empty());
}

#[test]
fn record_appends_one_entry() {
    let mut history = History::new();
    history.record("5 + 3", "8");
    assert_eq!(history.len(), 1);
    assert!(!history.is_empty());
    assert_eq!(history.entry(0), Some("5 + 3 = 8"));
    assert_eq!(history.entry(1), None);
    history.record("1 / 4", "0.25");
    assert_eq!(history.len(), 2);
    assert_eq!(history.entry(0), Some("5 + 3 = 8"));
    assert_eq!(history.entry(1), Some("1 / 4 = 0.25"));
    assert_eq!(history.entry(2), None);
}

#[test]
fn entry_holds_the_line_and_the_shown_result() {
    let mut history = History::new();
    let line = "15 / 3";
    let result: f64 = 15.0 / 3.0;
    history.record(line, &format!("{}", result));
    assert_eq!(history.entry(0), Some("15 / 3 = 5"));
    history.record("", "");
    assert_eq!(history.entry(1), Some(" = "));
}

#[test]
fn clear_empties_the_history() {
    let mut history = History::new();
    history.record("5 + 3", "8");
    history.record("6 * 7", "42");
    history.clear();
    assert_eq!(history.len(), 0);
    assert!(history.is_empty());
    assert_eq!(history.entry(0), None);
    history.clear();
    assert_eq!(history.len(), 0);
    history.record("1 + 1", "2");
    assert_eq!(history.len(), 1);
    assert_eq!(history.entry(0), Some("1 + 1 = 2"));
}

#[test]
fn numbering_starts_at_one() {
    let mut history = History::new();
    history.record("5 + 3", "8");
    history.record("6 * 7", "42");
    history.record("1 - 1", "0");
    assert_eq!(
        history.numbered(),
        vec![
            (1, "5 + 3 = 8".to_string()),
            (2, "6 * 7 = 42".to_string()),
            (3, "1 - 1 = 0".to_string()),
        ]
    );
}

#[test]
fn commands_ignore_case_and_outer_whitespace() {
    assert_eq!(parse_command("quit"), Command::Quit);
    assert_eq!(parse_command("QUIT\n"), Command::Quit);
    assert_eq!(parse_command("q"), Command::Quit);
    assert_eq!(parse_command("  Q  "), Command::Quit);
    assert_eq!(parse_command("history"), Command::ShowHistory);
    assert_eq!(parse_command("History\r\n"), Command::ShowHistory);
    assert_eq!(parse_command("clear"), Command::ClearHistory);
    assert_eq!(parse_command("\tCLEAR"), Command::ClearHistory);
    assert_eq!(parse_command(""), Command::Nothing);
    assert_eq!(parse_command("\n"), Command::Nothing);
    assert_eq!(parse_command("  \t "), Command::Nothing);
    assert_eq!(parse_command("5 + 3"), Command::Evaluate);
    assert_eq!(parse_command("quit now"), Command::Evaluate);
    assert_eq!(parse_command("qu it"), Command::Evaluate);
    assert_eq!(parse_command("quits"), Command::Evaluate);
    assert_eq!(parse_command("qq"), Command::Evaluate);
    assert_eq!(parse_command("hello"), Command::Evaluate);
}

#[test]
fn session_steps() {
    let mut session = Session::new();
    assert_eq!(session.step("\n"), Action::Skip);
    assert_eq!(session.step("history\n"), Action::ShowHistory);
    assert_eq!(session.step("  5 + 3 \n"), Action::Evaluate { line: "5 + 3".to_string() });
    assert_eq!(session.history.len(), 0);
    assert_eq!(session.finish("5 + 3", &Ok("8".to_string())), "Result: 8");
    assert_eq!(session.history.len(), 1);
    assert_eq!(session.history.entry(0), Some("5 + 3 = 8"));
    assert_eq!(session.step("hello + 3"), Action::Evaluate { line: "hello + 3".to_string() });
    assert_eq!(
        session.finish("hello + 3", &Err(EvaluationError::InvalidOperand("hello".to_string()))),
        "Error: 'hello' is not a valid number"
    );
    assert_eq!(session.history.len(), 1);
    assert_eq!(session.finish("5 / 0", &Err(EvaluationError::DivisionByZero)), "Error: Cannot divide by zero!");
    assert_eq!(session.history.len(), 1);
    assert_eq!(session.history.entry(0), Some("5 + 3 = 8"));
    assert_eq!(session.finish("6 * 7", &Ok("42".to_string())), "Result: 42");
    assert_eq!(session.history.entry(1), Some("6 * 7 = 42"));
    assert_eq!(session.step("history"), Action::ShowHistory);
    assert_eq!(session.history.len(), 2);
    assert_eq!(session.step("Q"), Action::Quit { calculations: 2 });
    assert_eq!(session.history.len(), 2);
    assert_eq!(session.step("clear"), Action::Cleared);
    assert_eq!(session.history.len(), 0);
    assert_eq!(session.step("quit"), Action::Quit { calculations: 0 });
}
