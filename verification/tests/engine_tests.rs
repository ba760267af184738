use coding_agent::api::{ContentBlock, Role};
use coding_agent::engine::{
    api_error_message, decide_tool_use, has_short_blank_runs, tool_action, Cl100k, EngineEvent, QueryEngine,
    ToolAction, ToolDecision, ToolOutcome, ToolRound, BLANK_RUN_LIMIT,
};
use coding_agent::stream::{StreamEvent, TurnAssembler};

fn engine() -> QueryEngine<&'static str> {
    QueryEngine::new("model-x".to_string(), Some("Be brief.".to_string()), Cl100k::new())
}

fn ev(kind: &str) -> StreamEvent {
    StreamEvent {
        event_type: Some(kind.to_string()),
        block_type: None,
        block_id: None,
        block_name: None,
        delta_type: None,
        delta_text: None,
        delta_partial_json: None,
    }
}

fn tool_reply(uses: &[(&str, &str)]) -> TurnAssembler {
    let mut a = TurnAssembler::new();
    for (id, name) in uses {
        let mut s = ev("content_block_start");
        s.block_type = Some("tool_use".to_string());
        s.block_id = Some(id.to_string());
        s.block_name = Some(name.to_string());
        a.on_event(&s);
        a.on_event(&ev("content_block_stop"));
    }
    a
}

#[test]
fn token_counts_use_cl100k() {
    let mut e = QueryEngine::<u8>::new("m".to_string(), None, Cl100k::new());
    assert_eq!(e.estimate_tokens(), 0);
    e.push_prompt("hello world");
    assert_eq!(e.estimate_tokens(), 2);
}

#[test]
fn system_prompt_counts_too() {
    let mut e = engine();
    let base = e.estimate_tokens();
    assert!(base > 0);
    e.push_prompt("hello world");
    assert_eq!(e.estimate_tokens(), base + 2);
}

#[test]
fn registering_a_name_again_replaces_the_tool() {
    let mut e = engine();
    e.register_tool("Bash".to_string(), "first");
    e.register_tool("Glob".to_string(), "glob");
    e.register_tool("Bash".to_string(), "second");
    assert_eq!(e.find_tool("Bash"), Some(&"second"));
    assert_eq!(e.find_tool("Glob"), Some(&"glob"));
    assert_eq!(e.find_tool("Agent"), None);
    let req = e.build_request();
    let names: Vec<&str> = req.tools.iter().map(|t| t.name.as_str()).collect();
    assert_eq!(names, vec!["Bash", "Glob"]);
}

#[test]
fn request_carries_the_conversation() {
    let mut e = engine();
    e.push_prompt("hi");
    let req = e.build_request();
    assert_eq!(req.model, "model-x");
    assert_eq!(req.max_tokens, 4096);
    assert_eq!(req.system.as_deref(), Some("Be brief."));
    assert_eq!(req.stream, Some(true));
    assert_eq!(req.messages.len(), 1);
    assert_eq!(req.messages[0].role, Role::User);
    assert!(req.tools.is_empty());
}

#[test]
fn tool_schema_is_generic() {
    let mut e = engine();
    e.register_tool("Bash".to_string(), "b");
    let req = e.build_request();
    assert_eq!(req.tools[0].description, "Auto-generated tool description");
    assert_eq!(req.tools[0].input_schema, "{\"type\":\"object\"}");
}

#[test]
fn small_conversations_are_not_compacted() {
    let mut e = engine();
    e.push_prompt("short");
    assert!(e.auto_compact_if_needed().is_none());
    assert_eq!(e.messages().len(), 1);
}

#[test]
fn large_conversations_keep_their_newer_half() {
    let mut e = engine();
    let big = " a".repeat(190_000);
    e.push_prompt(&big);
    e.push_prompt("two");
    e.push_prompt("three");
    e.push_prompt("four");
    e.push_prompt("five");
    let before = e.estimate_tokens();
    assert!(before >= 180_000);
    match e.auto_compact_if_needed() {
        Some(EngineEvent::ContextCompacted(b, a)) => {
            assert_eq!(b, before);
            assert_eq!(a, e.estimate_tokens());
            assert!(a < b);
        }
        other => panic!("unexpected {:?}", other),
    }
    let msgs = e.messages();
    assert_eq!(msgs.len(), 4);
    match &msgs[0].content[0] {
        ContentBlock::Text { text } => assert!(text.starts_with("<compact_boundary>")),
        other => panic!("unexpected {:?}", other),
    }
    match &msgs[1].content[0] {
        ContentBlock::Text { text } => assert_eq!(text, "three"),
        other => panic!("unexpected {:?}", other),
    }
}

#[test]
fn two_large_messages_are_kept_but_reported() {
    let mut e = engine();
    e.push_prompt(&" a".repeat(190_000));
    e.push_prompt("two");
    match e.auto_compact_if_needed() {
        Some(EngineEvent::ContextCompacted(b, a)) => assert_eq!(a, b),
        other => panic!("unexpected {:?}", other),
    }
    assert_eq!(e.messages().len(), 2);
}

#[test]
fn decisions_follow_the_tool_and_the_session() {
    assert_eq!(decide_tool_use(false, true, true), ToolDecision::Missing);
    assert_eq!(decide_tool_use(true, true, true), ToolDecision::AskPermission);
    assert_eq!(decide_tool_use(true, true, false), ToolDecision::Run);
    assert_eq!(decide_tool_use(true, false, true), ToolDecision::Run);
}

#[test]
fn every_tool_use_gets_one_result_in_order() {
    let mut e = engine();
    e.push_prompt("do things");
    let mut round = e.finish_reply(tool_reply(&[("a", "Bash"), ("b", "Nope"), ("c", "Glob"), ("d", "Agent")])).unwrap();
    let mut events = Vec::new();
    for outcome in [
        ToolOutcome::Denied,
        ToolOutcome::Missing,
        ToolOutcome::Completed("{\"matches\":[]}".to_string()),
        ToolOutcome::Failed("boom".to_string()),
    ] {
        assert!(!round.is_done());
        events.push(round.settle(outcome));
    }
    assert!(round.is_done());
    assert!(round.current().is_none());
    e.record_tool_results(round);
    let msgs = e.messages();
    assert_eq!(msgs.len(), 3);
    assert_eq!(msgs[1].role, Role::Assistant);
    assert_eq!(msgs[2].role, Role::User);
    let expected = [
        ("a", "User denied execution of this tool.", true),
        ("b", "Tool Nope not found", true),
        ("c", "{\"matches\":[]}", false),
        ("d", "Tool Error: boom", true),
    ];
    for (block, (id, content, err)) in msgs[2].content.iter().zip(expected) {
        match block {
            ContentBlock::ToolResult { tool_use_id, content: c, is_error } => {
                assert_eq!(tool_use_id, id);
                assert_eq!(c, content);
                assert_eq!(*is_error, Some(err));
            }
            other => panic!("unexpected {:?}", other),
        }
    }
    assert!(matches!(&events[0], Some(EngineEvent::ToolExecutionError(n, m)) if n == "Bash" && m == "User denied execution of this tool."));
    assert!(events[1].is_none());
    assert!(matches!(&events[2], Some(EngineEvent::ToolExecutionCompleted(n, _)) if n == "Glob"));
    assert!(matches!(&events[3], Some(EngineEvent::ToolExecutionError(n, m)) if n == "Agent" && m == "boom"));
}

#[test]
fn reply_without_tool_uses_ends_the_turn() {
    let mut e = engine();
    e.push_prompt("hi");
    assert!(e.finish_reply(TurnAssembler::new()).is_none());
    assert_eq!(e.messages().len(), 2);
    assert_eq!(e.messages()[1].role, Role::Assistant);
}

#[test]
fn round_points_at_the_next_use() {
    let blocks = vec![
        ContentBlock::Text { text: "x".to_string() },
        ContentBlock::ToolUse { id: "1".to_string(), name: "Bash".to_string(), input: "{}".to_string() },
    ];
    let round = ToolRound::new(&blocks);
    let u = round.current().unwrap();
    assert_eq!(u.id, "1");
    assert_eq!(u.name, "Bash");
}

#[test]
fn api_errors_are_prefixed() {
    assert_eq!(api_error_message("overloaded"), "API Error: overloaded");
}

#[test]
fn a_denied_or_unanswered_question_keeps_the_tool_from_running() {
    assert!(matches!(tool_action(ToolDecision::AskPermission, Some(true)), ToolAction::Run));
    assert!(matches!(tool_action(ToolDecision::AskPermission, Some(false)), ToolAction::Settle(ToolOutcome::Denied)));
    assert!(matches!(tool_action(ToolDecision::AskPermission, None), ToolAction::Settle(ToolOutcome::Denied)));
    assert!(matches!(tool_action(ToolDecision::Run, None), ToolAction::Run));
    assert!(matches!(tool_action(ToolDecision::Missing, Some(true)), ToolAction::Settle(ToolOutcome::Missing)));
}

#[test]
fn a_lookup_after_two_registrations_gives_the_later_tool_once() {
    let mut e = engine();
    e.register_tool("FileEdit".to_string(), "old");
    e.register_tool("FileEdit".to_string(), "new");
    assert_eq!(e.find_tool("FileEdit"), Some(&"new"));
    assert_eq!(e.find_tool("Bash"), None);
    let r = e.build_request();
    assert_eq!(r.tools.iter().filter(|t| t.name == "FileEdit").count(), 1);
}

#[test]
fn long_runs_of_white_space_are_detected() {
    assert!(has_short_blank_runs("a  b\n\n c"));
    assert!(has_short_blank_runs(""));
    let just_under = " ".repeat(BLANK_RUN_LIMIT - 1);
    assert!(has_short_blank_runs(&just_under));
    let at_limit = format!("x{}y", "\t".repeat(BLANK_RUN_LIMIT));
    assert!(!has_short_blank_runs(&at_limit));
    assert!(!has_short_blank_runs(&" ".repeat(BLANK_RUN_LIMIT)));
    let to_a_line_break = format!("x{} \t\ny", " ".repeat(BLANK_RUN_LIMIT));
    assert!(has_short_blank_runs(&to_a_line_break));
    let after_a_line_break = format!("x\n{}y", " ".repeat(BLANK_RUN_LIMIT));
    assert!(!has_short_blank_runs(&after_a_line_break));
}

#[test]
fn a_long_run_that_reaches_a_line_break_is_countable() {
    let mut e = QueryEngine::<u8>::new("m".to_string(), None, Cl100k::new());
    e.push_prompt(&format!("{}\nend", " ".repeat(BLANK_RUN_LIMIT + 10)));
    assert!(e.is_countable());
}

#[test]
fn an_engine_with_a_long_blank_run_is_not_countable() {
    let mut e = engine();
    assert!(e.is_countable());
    e.push_prompt("hello");
    assert!(e.is_countable());
    e.push_prompt(&" ".repeat(BLANK_RUN_LIMIT));
    assert!(!e.is_countable());
}
