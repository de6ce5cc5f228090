use sharp::tools::{
    command_outcome, open_app_label, open_app_outcome, powershell_outcome, route_tool,
    screenshot_result, skill_outcome, text_result, thought_result, unknown_tool_error, ArgValue,
    ToolArgs, ToolRequest, ToolResult,
};

fn args(entries: Vec<(&str, ArgValue)>) -> ToolArgs {
    ToolArgs { entries: entries.into_iter().map(|(k, v)| (k.to_string(), v)).collect() }
}

fn text(s: &str) -> ArgValue {
    ArgValue::Text(s.to_string())
}

#[test]
fn routes_powershell_and_open_app() {
    match route_tool("run_powershell", &args(vec![("command", text("Get-Date"))])) {
        ToolRequest::RunPowershell { command } => assert_eq!(command, "Get-Date"),
        other => panic!("{:?}", other),
    }
    match route_tool("open_app", &args(vec![("app", text("chrome"))])) {
        ToolRequest::OpenApp { app, url } => {
            assert_eq!(app, "chrome");
            assert_eq!(url, "");
        }
        other => panic!("{:?}", other),
    }
}

#[test]
fn missing_or_wrong_arguments_default() {
    match route_tool("mouse_click", &args(vec![("x", text("12")), ("button", ArgValue::Integer(3))])) {
        ToolRequest::MouseClick { x, y, button } => {
            assert_eq!((x, y), (0, 0));
            assert_eq!(button, "");
        }
        other => panic!("{:?}", other),
    }
}

#[test]
fn coordinates_are_cut_to_32_bits() {
    match route_tool(
        "mouse_move",
        &args(vec![("x", ArgValue::Integer(4294967297)), ("y", ArgValue::Integer(-7))]),
    ) {
        ToolRequest::MouseMove { x, y } => assert_eq!((x, y), (1, -7)),
        other => panic!("{:?}", other),
    }
}

#[test]
fn first_member_of_a_name_counts() {
    match route_tool("web_search", &args(vec![("query", text("a")), ("query", text("b"))])) {
        ToolRequest::WebSearch { query } => assert_eq!(query, "a"),
        other => panic!("{:?}", other),
    }
}

#[test]
fn screenshot_think_and_unknown() {
    assert!(matches!(route_tool("take_screenshot", &args(vec![])), ToolRequest::TakeScreenshot));
    match route_tool("think", &args(vec![("thought", text("hmm"))])) {
        ToolRequest::Think { thought } => assert_eq!(thought, "hmm"),
        other => panic!("{:?}", other),
    }
    match route_tool("fly", &args(vec![])) {
        ToolRequest::Unknown { name } => assert_eq!(name, "fly"),
        other => panic!("{:?}", other),
    }
    assert_eq!(unknown_tool_error("fly"), "Unknown tool: fly");
}

#[test]
fn routes_skills_and_gui_tools() {
    match route_tool(
        "create_skill",
        &args(vec![
            ("name", text("n")),
            ("description", text("d")),
            ("parameters", text("[]")),
            ("powershell_code", text("c")),
        ]),
    ) {
        ToolRequest::CreateSkill { name, description, parameters, powershell_code } => {
            assert_eq!((name.as_str(), description.as_str()), ("n", "d"));
            assert_eq!((parameters.as_str(), powershell_code.as_str()), ("[]", "c"));
        }
        other => panic!("{:?}", other),
    }
    assert!(matches!(route_tool("list_skills", &args(vec![])), ToolRequest::ListSkills));
    assert!(matches!(route_tool("use_skill", &args(vec![])), ToolRequest::UseSkill { .. }));
    assert!(matches!(route_tool("web_fetch", &args(vec![])), ToolRequest::WebFetch { .. }));
    assert!(matches!(route_tool("type_text", &args(vec![])), ToolRequest::TypeText { .. }));
    match route_tool("key_combo", &args(vec![("keys", text("ctrl+c"))])) {
        ToolRequest::KeyCombo { keys } => assert_eq!(keys, "ctrl+c"),
        other => panic!("{:?}", other),
    }
}

#[test]
fn tool_results_for_the_model() {
    match text_result(Err("boom".to_string())) {
        ToolResult::Text(t) => assert_eq!(t, "Error: boom"),
        other => panic!("{:?}", other),
    }
    match text_result(Ok("fine".to_string())) {
        ToolResult::Text(t) => assert_eq!(t, "fine"),
        other => panic!("{:?}", other),
    }
    match screenshot_result(Ok("/tmp/a.png".to_string())) {
        ToolResult::Screenshot(p) => assert_eq!(p, "/tmp/a.png"),
        other => panic!("{:?}", other),
    }
    match screenshot_result(Err("no monitor".to_string())) {
        ToolResult::Text(t) => assert_eq!(t, "Screenshot failed: no monitor"),
        other => panic!("{:?}", other),
    }
    match thought_result() {
        ToolResult::Text(t) => assert_eq!(t, "Thought noted."),
        other => panic!("{:?}", other),
    }
}

#[test]
fn command_success_reports() {
    assert_eq!(command_outcome("", " ", true, Some(0)), Ok("Done (no output).".to_string()));
    assert_eq!(command_outcome("  out \n", "", true, Some(0)), Ok("out".to_string()));
    assert_eq!(command_outcome("", " warn ", true, Some(0)), Ok("(stderr) warn".to_string()));
    assert_eq!(command_outcome("out", "warn", true, Some(0)), Ok("out\n(stderr) warn".to_string()));
}

#[test]
fn command_failure_reports() {
    assert_eq!(command_outcome("x", " bad \n", false, Some(1)), Err("bad".to_string()));
    assert_eq!(command_outcome(" partial ", "", false, Some(-3)), Err("Exit code -3: partial".to_string()));
    assert_eq!(command_outcome("", "", false, None), Err("Command failed with exit code -1".to_string()));
}

#[test]
fn command_bytes_are_decoded_lossily() {
    assert_eq!(powershell_outcome(b"hi\xff", b"", true, Some(0)), Ok("hi\u{fffd}".to_string()));
    assert_eq!(powershell_outcome("é".as_bytes(), b"", true, Some(0)), Ok("é".to_string()));
}

#[test]
fn skill_run_reports() {
    assert_eq!(skill_outcome(" out ", "", false), Err("out".to_string()));
    assert_eq!(skill_outcome("out", "err", false), Err("err".to_string()));
    assert_eq!(skill_outcome("", "", true), Ok("Done (no output).".to_string()));
}

#[test]
fn open_app_labels_and_outcomes() {
    assert_eq!(open_app_label("chrome", ""), "chrome");
    assert_eq!(open_app_label("chrome", "https://x.org"), "chrome https://x.org");
    assert_eq!(open_app_outcome("chrome", true, b""), Ok("Opened: chrome".to_string()));
    assert_eq!(open_app_outcome("chrome", false, b"  \n"), Ok("Opened: chrome".to_string()));
    assert_eq!(open_app_outcome("chrome", false, b" not found\r\n"), Err("not found".to_string()));
    assert_eq!(open_app_outcome("chrome", true, b"warn"), Ok("Opened: chrome".to_string()));
}
