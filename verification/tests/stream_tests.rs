use coding_agent::api::ContentBlock;
use coding_agent::stream::{chunk_payloads, stream_event_of, StreamEvent, StreamOutput, TurnAssembler};

fn event(kind: &str) -> StreamEvent {
    StreamEvent {
        event_type: Some(kind.to_string()),
        block_type: None,
        block_id: None,
        block_name: None,
        delta_type: None,
        delta_text: None,
        delta_partial_json: None,
    }
}

fn text_delta(t: &str) -> StreamEvent {
    let mut e = event("content_block_delta");
    e.delta_type = Some("text_delta".to_string());
    e.delta_text = Some(t.to_string());
    e
}

fn tool_start(id: &str, name: &str) -> StreamEvent {
    let mut e = event("content_block_start");
    e.block_type = Some("tool_use".to_string());
    e.block_id = Some(id.to_string());
    e.block_name = Some(name.to_string());
    e
}

fn json_delta(p: &str) -> StreamEvent {
    let mut e = event("content_block_delta");
    e.delta_type = Some("input_json_delta".to_string());
    e.delta_partial_json = Some(p.to_string());
    e
}

#[test]
fn data_lines_up_to_done() {
    let chunk = b"event: x\r\ndata: {\"a\":1}\r\ndata: [DONE]\ndata: after\n";
    assert_eq!(chunk_payloads(chunk), vec!["{\"a\":1}"]);
}

#[test]
fn chunk_without_done_keeps_every_payload() {
    let chunk = b"data: one\n\ndata: two";
    assert_eq!(chunk_payloads(chunk), vec!["one", "two"]);
}

#[test]
fn invalid_utf8_is_replaced() {
    let chunk = b"data: a\xffb\n";
    assert_eq!(chunk_payloads(chunk), vec!["a\u{FFFD}b"]);
}

#[test]
fn text_deltas_form_one_text_block() {
    let mut a = TurnAssembler::new();
    match a.on_event(&text_delta("Hel")) {
        StreamOutput::Text(t) => assert_eq!(t, "Hel"),
        other => panic!("unexpected {:?}", other),
    }
    a.on_event(&text_delta("lo"));
    assert!(matches!(a.on_event(&event("content_block_stop")), StreamOutput::Nothing));
    let (blocks, followup) = a.finish();
    assert!(!followup);
    assert_eq!(blocks.len(), 1);
    match &blocks[0] {
        ContentBlock::Text { text } => assert_eq!(text, "Hello"),
        other => panic!("unexpected {:?}", other),
    }
}

#[test]
fn tool_use_input_is_compacted() {
    let mut a = TurnAssembler::new();
    a.on_event(&tool_start("tu_1", "Bash"));
    a.on_event(&json_delta("{\"command\": "));
    a.on_event(&json_delta(" \"ls\" }"));
    match a.on_event(&event("content_block_stop")) {
        StreamOutput::ToolStarted(n) => assert_eq!(n, "Bash"),
        other => panic!("unexpected {:?}", other),
    }
    let (blocks, followup) = a.finish();
    assert!(followup);
    match &blocks[0] {
        ContentBlock::ToolUse { id, name, input } => {
            assert_eq!(id, "tu_1");
            assert_eq!(name, "Bash");
            assert_eq!(input, "{\"command\":\"ls\"}");
        }
        other => panic!("unexpected {:?}", other),
    }
}

#[test]
fn invalid_tool_input_becomes_empty_object() {
    let mut a = TurnAssembler::new();
    a.on_event(&tool_start("tu_2", "Glob"));
    a.on_event(&json_delta("{not json"));
    a.on_event(&event("content_block_stop"));
    let (blocks, _) = a.finish();
    match &blocks[0] {
        ContentBlock::ToolUse { input, .. } => assert_eq!(input, "{}"),
        other => panic!("unexpected {:?}", other),
    }
}

#[test]
fn stop_flushes_text_before_tool_use() {
    let mut a = TurnAssembler::new();
    a.on_event(&text_delta("Let me look."));
    a.on_event(&tool_start("tu_3", "FileRead"));
    a.on_event(&event("content_block_stop"));
    let (blocks, followup) = a.finish();
    assert!(followup);
    assert_eq!(blocks.len(), 2);
    assert!(matches!(blocks[0], ContentBlock::Text { .. }));
    assert!(matches!(blocks[1], ContentBlock::ToolUse { .. }));
}

#[test]
fn unknown_events_change_nothing() {
    let mut a = TurnAssembler::new();
    assert!(matches!(a.on_event(&event("message_start")), StreamOutput::Nothing));
    let mut nameless = event("content_block_start");
    nameless.block_type = Some("text".to_string());
    a.on_event(&nameless);
    a.on_event(&event("content_block_stop"));
    let (blocks, followup) = a.finish();
    assert!(blocks.is_empty());
    assert!(!followup);
}

#[test]
fn pending_text_without_stop_is_dropped() {
    let mut a = TurnAssembler::new();
    a.on_event(&text_delta("unfinished"));
    let (blocks, _) = a.finish();
    assert!(blocks.is_empty());
}

#[test]
fn payloads_are_read_into_events() {
    let e = stream_event_of(r#"{"type":"content_block_delta","delta":{"type":"text_delta","text":"hi"}}"#);
    assert_eq!(e.event_type.as_deref(), Some("content_block_delta"));
    assert_eq!(e.delta_type.as_deref(), Some("text_delta"));
    assert_eq!(e.delta_text.as_deref(), Some("hi"));
    assert_eq!(e.delta_partial_json, None);
    assert_eq!(e.block_type, None);
    let s = stream_event_of(r#"{"type":"content_block_start","content_block":{"type":"tool_use","id":"tu1","name":"Bash"}}"#);
    assert_eq!(s.block_type.as_deref(), Some("tool_use"));
    assert_eq!(s.block_id.as_deref(), Some("tu1"));
    assert_eq!(s.block_name.as_deref(), Some("Bash"));
    let p = stream_event_of(r#"{"type":"content_block_delta","delta":{"type":"input_json_delta","partial_json":"{\"a\""}}"#);
    assert_eq!(p.delta_partial_json.as_deref(), Some("{\"a\""));
}

#[test]
fn a_payload_that_is_not_json_carries_nothing() {
    let e = stream_event_of("not json");
    assert_eq!(e.event_type, None);
    assert_eq!(e.delta_text, None);
    let mut a = TurnAssembler::new();
    assert!(matches!(a.on_event(&e), StreamOutput::Nothing));
}
