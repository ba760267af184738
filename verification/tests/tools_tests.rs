use coding_agent::tools::{
    read_failure_message, AgentTool, ArgValue, BashTool, FileEditTool, FileReadTool, GlobTool, ToolInput,
};

fn input(pairs: &[(&str, Option<&str>)]) -> ToolInput {
    ToolInput {
        entries: pairs
            .iter()
            .map(|(k, v)| (k.to_string(), match v { Some(s) => ArgValue::Str(s.to_string()), None => ArgValue::Other }))
            .collect(),
    }
}

#[test]
fn string_arguments_are_read_by_key() {
    let args = input(&[("a", Some("x")), ("n", None)]);
    assert_eq!(args.get_str("a").as_deref(), Some("x"));
    assert_eq!(args.get_str("n"), None);
    assert_eq!(args.get_str("missing"), None);
}

#[test]
fn tool_traits() {
    let none = input(&[]);
    assert_eq!(BashTool.name(), "Bash");
    assert!(BashTool.is_destructive(&none));
    assert!(!BashTool.is_concurrency_safe(&none));
    assert_eq!(AgentTool {}.name(), "Agent");
    assert!(!AgentTool {}.is_destructive(&none));
    assert!(AgentTool {}.is_concurrency_safe(&none));
    assert_eq!(FileReadTool.name(), "FileRead");
    assert!(!FileReadTool.is_destructive(&none));
    assert_eq!(FileEditTool.name(), "FileEdit");
    assert!(FileEditTool.is_destructive(&none));
    assert_eq!(GlobTool.name(), "Glob");
    assert!(!GlobTool.is_destructive(&none));
    assert_eq!(GlobTool.description(), "Searches for files matching a glob pattern.");
    assert_eq!(FileReadTool.description(), "Reads the contents of a file at the specified absolute_path.");
}

#[test]
fn bash_needs_a_command() {
    assert_eq!(BashTool.command(&input(&[("command", None)])), Err("command is required and must be a string".to_string()));
    assert_eq!(BashTool.command(&input(&[("command", Some("ls"))])), Ok("ls".to_string()));
}

#[test]
fn bash_report_decodes_output() {
    let r = BashTool.report(b"ok\n", b"bad \xff", None);
    assert_eq!(r.stdout, "ok\n");
    assert_eq!(r.stderr, "bad \u{FFFD}");
    assert_eq!(r.exit_code, -1);
    assert_eq!(BashTool.report(b"", b"", Some(2)).exit_code, 2);
}

#[test]
fn agent_launch_defaults_its_description() {
    let l = AgentTool {}.call(&input(&[("prompt", Some("scan"))])).unwrap();
    assert_eq!(l.prompt, "scan");
    assert_eq!(l.description, "subtask");
    assert_eq!(l.task_id.len(), 36);
    assert_eq!(
        l.message,
        format!("Worker agent spawned with ID: {}. Result will be delivered as a user message with <task-notification> when complete.", l.task_id)
    );
    let l2 = AgentTool {}.call(&input(&[("prompt", Some("p")), ("description", Some("d"))])).unwrap();
    assert_eq!(l2.description, "d");
    assert_eq!(AgentTool {}.call(&input(&[])).err().unwrap(), "prompt is required and must be a string");
}

#[test]
fn edit_arguments_are_checked_in_order() {
    let t = FileEditTool;
    assert_eq!(t.request(&input(&[])).err().unwrap(), "absolute_path is required and must be a string");
    assert_eq!(
        t.request(&input(&[("absolute_path", Some("/f"))])).err().unwrap(),
        "search_string is required and must be a string"
    );
    assert_eq!(
        t.request(&input(&[("absolute_path", Some("/f")), ("search_string", Some("a"))])).err().unwrap(),
        "replace_string is required and must be a string"
    );
    let req = t
        .request(&input(&[("absolute_path", Some("/f")), ("search_string", Some("a")), ("replace_string", Some("b"))]))
        .ok()
        .unwrap();
    assert_eq!((req.path.as_str(), req.search.as_str(), req.replace.as_str()), ("/f", "a", "b"));
}

#[test]
fn edit_tool_messages() {
    let t = FileEditTool;
    let req = t
        .request(&input(&[("absolute_path", Some("/f")), ("search_string", Some("a")), ("replace_string", Some("b"))]))
        .ok()
        .unwrap();
    assert_eq!(t.apply(&req, "xax"), Ok(("xbx".to_string(), "Successfully replaced 1 occurrence in /f".to_string())));
    assert_eq!(t.apply(&req, "xyz"), Err("The specified search_string was not found in the file '/f'".to_string()));
    assert_eq!(
        t.apply(&req, "aa"),
        Err("The search_string appears 2 times in the file. Please provide a more specific search string to ensure unique replacement.".to_string())
    );
    assert_eq!(t.write_failure_message("/f", "denied"), "Failed to write to file '/f': denied");
}

#[test]
fn read_and_glob_messages() {
    assert_eq!(FileReadTool.path(&input(&[("absolute_path", Some("/x"))])), Ok("/x".to_string()));
    assert_eq!(read_failure_message("/x", "not found"), "Failed to read file '/x': not found");
    assert_eq!(GlobTool.pattern(&input(&[])).err().unwrap(), "pattern is required and must be a string");
    assert_eq!(GlobTool.pattern_error("a[", "bad"), "Invalid glob pattern 'a[': bad");
    let found = vec![Ok("a".to_string()), Err("e".to_string()), Ok("b".to_string())];
    assert_eq!(GlobTool.matches(found), vec!["a", "b"]);
}
