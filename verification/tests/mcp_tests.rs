use coding_agent::mcp::{request_line, check_response, disconnected_error, JsonRpcResponse, McpClient};

fn response(id: Option<u64>, result: Option<&str>, error: Option<&str>) -> JsonRpcResponse {
    JsonRpcResponse {
        jsonrpc: "2.0".to_string(),
        id,
        result: result.map(|s| s.to_string()),
        error: error.map(|s| s.to_string()),
    }
}

#[test]
fn requests_are_numbered_from_one() {
    let mut c = McpClient::new("files");
    assert_eq!(c.name(), "files");
    let a = c.initialize_request("agent-client", "0.1.0");
    let b = c.next_request("tools/list", "{}".to_string());
    assert_eq!(a.id, 1);
    assert_eq!(b.id, 2);
    assert_eq!(a.jsonrpc, "2.0");
    assert_eq!(a.method, "initialize");
    assert_eq!(b.method, "tools/list");
    assert_eq!(
        a.params,
        "{\"protocolVersion\":\"2024-11-05\",\"capabilities\":{},\"clientInfo\":{\"name\":\"agent-client\",\"version\":\"0.1.0\"}}"
    );
}

#[test]
fn initialize_params_are_json() {
    let mut c = McpClient::new("s");
    let r = c.initialize_request("n", "1");
    let v: serde_json::Value = serde_json::from_str(&r.params).unwrap();
    assert_eq!(v["clientInfo"]["name"], "n");
    assert_eq!(v["protocolVersion"], "2024-11-05");
}

#[test]
fn initialize_params_escape_the_client_name() {
    let mut c = McpClient::new("s");
    let r = c.initialize_request("a \"quoted\" \\ name", "1.0\n");
    let v: serde_json::Value = serde_json::from_str(&r.params).unwrap();
    assert_eq!(v["clientInfo"]["name"], "a \"quoted\" \\ name");
    assert_eq!(v["clientInfo"]["version"], "1.0\n");
}

#[test]
fn a_matching_result_is_accepted() {
    assert_eq!(check_response(3, &response(Some(3), Some("{\"ok\":true}"), None)), Ok("{\"ok\":true}".to_string()));
}

#[test]
fn an_error_wins_over_everything() {
    assert_eq!(
        check_response(3, &response(Some(9), Some("1"), Some("Object {\"code\": Number(-1)}"))),
        Err("MCP Error: Object {\"code\": Number(-1)}".to_string())
    );
}

#[test]
fn a_foreign_id_is_refused() {
    assert_eq!(
        check_response(3, &response(Some(4), Some("1"), None)),
        Err("MCP Error: Response ID mismatch. Expected 3, got Some(4)".to_string())
    );
    assert_eq!(
        check_response(3, &response(None, Some("1"), None)),
        Err("MCP Error: Response ID mismatch. Expected 3, got None".to_string())
    );
}

#[test]
fn a_missing_result_is_refused() {
    assert_eq!(check_response(1, &response(Some(1), None, None)), Err("MCP Error: Missing result field".to_string()));
    assert_eq!(disconnected_error(), "MCP Server disconnected unexpectedly");
}

#[test]
fn initialize_params_escape_as_json_does() {
    let mut c = McpClient::new("s");
    let r = c.initialize_request("a\"b\\c\n\u{1}/\u{7f}é", "1");
    let expected = format!("\"name\":\"a\\\"b\\\\c\\n\\u0001/{}é\"", '\u{7f}');
    assert!(r.params.contains(&expected), "{}", r.params);
}

#[test]
fn the_request_line_is_the_request_as_compact_json() {
    let mut c = McpClient::new("s");
    let r = c.initialize_request("agent-client", "0.1.0");
    let line = request_line(&r).unwrap();
    assert_eq!(
        line,
        "{\"jsonrpc\":\"2.0\",\"id\":1,\"method\":\"initialize\",\"params\":{\"capabilities\":{},\"clientInfo\":{\"name\":\"agent-client\",\"version\":\"0.1.0\"},\"protocolVersion\":\"2024-11-05\"}}\n"
    );
    let bad = c.next_request("m", "not json".to_string());
    assert_eq!(bad.id, 2);
    assert_eq!(request_line(&bad), None);
}
