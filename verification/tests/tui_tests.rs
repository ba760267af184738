use coding_agent::engine::EngineEvent;
use coding_agent::tui::{App, Key, KeyAction, Row};

fn app() -> App {
    App::new("Welcome!".to_string(), "Bot".to_string())
}

#[test]
fn new_session_shows_the_welcome() {
    let a = app();
    assert_eq!(a.messages, vec!["Welcome!"]);
    assert!(a.input.is_empty());
    assert!(!a.is_processing);
    assert!(a.pending_permission.is_none());
}

#[test]
fn reply_text_joins_the_speakers_line() {
    let mut a = app();
    a.apply_engine_event(EngineEvent::TextDelta("Hel\nlo".to_string()));
    a.apply_engine_event(EngineEvent::TextDelta(" there".to_string()));
    assert_eq!(a.messages, vec!["Welcome!", "Bot: Hello there"]);
    a.apply_engine_event(EngineEvent::ToolExecutionStarted("Bash".to_string()));
    a.apply_engine_event(EngineEvent::TextDelta("done".to_string()));
    assert_eq!(a.messages[2], "[Running Tool: Bash]");
    assert_eq!(a.messages[3], "Bot: done");
}

#[test]
fn errors_end_the_wait() {
    let mut a = app();
    a.is_processing = true;
    a.apply_engine_event(EngineEvent::ToolExecutionError("Glob".to_string(), "bad".to_string()));
    assert!(a.is_processing);
    a.apply_engine_event(EngineEvent::Error("overloaded".to_string()));
    assert!(!a.is_processing);
    assert_eq!(a.messages[1], "[Tool Error Glob]: bad");
    assert_eq!(a.messages[2], "API Error: overloaded");
}

#[test]
fn completed_turn_and_quiet_events() {
    let mut a = app();
    a.is_processing = true;
    a.apply_engine_event(EngineEvent::ToolExecutionCompleted("Bash".to_string(), "{}".to_string()));
    a.apply_engine_event(EngineEvent::ContextCompacted(10, 5));
    assert_eq!(a.messages.len(), 1);
    a.apply_engine_event(EngineEvent::TurnCompleted);
    assert!(!a.is_processing);
}

#[test]
fn typing_and_submitting() {
    let mut a = app();
    for c in "hiX".chars() {
        assert!(matches!(a.handle_key(Key::Char(c)), KeyAction::Nothing));
    }
    a.handle_key(Key::Backspace);
    assert_eq!(a.input, "hi");
    match a.handle_key(Key::Enter) {
        KeyAction::Submit(m) => assert_eq!(m, "hi"),
        other => panic!("unexpected {:?}", other),
    }
    assert!(a.input.is_empty());
    assert!(a.is_processing);
    assert_eq!(a.messages[1], "You: hi");
    a.handle_key(Key::Char('x'));
    assert!(matches!(a.handle_key(Key::Enter), KeyAction::Nothing));
    assert_eq!(a.input, "x");
}

#[test]
fn empty_input_is_not_submitted() {
    let mut a = app();
    a.handle_key(Key::Backspace);
    assert!(matches!(a.handle_key(Key::Enter), KeyAction::Nothing));
    assert!(matches!(a.handle_key(Key::Esc), KeyAction::Quit));
    assert!(matches!(a.handle_key(Key::Other), KeyAction::Nothing));
}

#[test]
fn permission_is_answered_once() {
    let mut a = app();
    a.apply_engine_event(EngineEvent::PermissionRequested("Bash".to_string(), "{\"command\":\"rm\"}".to_string()));
    assert_eq!(a.layout_rows(), vec![Row::Min(3), Row::Length(6), Row::Length(3)]);
    assert_eq!(
        a.permission_lines().unwrap(),
        vec![
            "Danger: Tool 'Bash' requested permission to run.",
            "Input:",
            "{\"command\":\"rm\"}",
            "Do you want to allow this? [y/N]",
        ]
    );
    assert!(matches!(a.handle_key(Key::Char('Y')), KeyAction::Permission(true)));
    assert!(a.pending_permission.is_none());
    assert_eq!(a.messages[1], "[User Allowed Tool Execution]");
    assert_eq!(a.layout_rows(), vec![Row::Min(3), Row::Length(3)]);
    assert!(a.permission_lines().is_none());
}

#[test]
fn enter_and_esc_deny_while_other_keys_type() {
    let mut a = app();
    a.apply_engine_event(EngineEvent::PermissionRequested("Bash".to_string(), "{}".to_string()));
    assert!(matches!(a.handle_key(Key::Char('q')), KeyAction::Nothing));
    assert_eq!(a.input, "q");
    assert!(a.pending_permission.is_some());
    assert!(matches!(a.handle_key(Key::Enter), KeyAction::Permission(false)));
    assert_eq!(a.messages[1], "[User Denied Tool Execution]");
    a.apply_engine_event(EngineEvent::PermissionRequested("Bash".to_string(), "{}".to_string()));
    assert!(matches!(a.handle_key(Key::Esc), KeyAction::Permission(false)));
}

#[test]
fn transcript_lines_split_at_line_breaks() {
    let mut a = app();
    a.messages.push("one\ntwo".to_string());
    a.messages.push("three\n".to_string());
    assert_eq!(a.transcript_lines(), vec!["Welcome!", "one", "two", "three", ""]);
}

#[test]
fn input_title_tells_whether_a_reply_is_awaited() {
    let mut a = app();
    assert_eq!(a.input_title(), " Input (Press Enter to submit, Esc to quit) ");
    a.is_processing = true;
    assert_eq!(a.input_title(), " Bot is typing... ");
    a.pending_permission = Some(("Bash".to_string(), "{}".to_string()));
    assert_eq!(a.input_title(), " Engine Suspended ");
}
