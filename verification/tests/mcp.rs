use appfront::mcp::{
    answer, app_outcome, classify_method, method_not_found_message, navigate_outcome,
    param_description, request_for_line, route_tool, tool_description, McpAnswer,
    McpCommandResult, McpMethod, McpRequest, ToolOutcome, ToolRoute, METHOD_NOT_FOUND,
};

#[test]
fn methods_are_classified() {
    assert_eq!(classify_method("initialize"), McpMethod::Initialize);
    assert_eq!(classify_method("notifications/initialized"), McpMethod::Notification);
    assert_eq!(classify_method("notifications/cancelled"), McpMethod::Notification);
    assert_eq!(classify_method("tools/list"), McpMethod::ToolsList);
    assert_eq!(classify_method("tools/call"), McpMethod::ToolsCall);
    assert_eq!(classify_method("not/a/real/method"), McpMethod::Unknown);
    assert_eq!(classify_method(""), McpMethod::Unknown);
}

#[test]
fn unknown_method_error_text_and_code() {
    assert_eq!(METHOD_NOT_FOUND, -32601);
    assert_eq!(method_not_found_message("not/a/real/method"), "method not found: not/a/real/method");
}

#[test]
fn tool_calls_are_routed_by_name() {
    assert_eq!(route_tool("query_state"), ToolRoute::QueryState);
    assert_eq!(route_tool("navigate"), ToolRoute::Navigate);
    assert_eq!(route_tool("add_task"), ToolRoute::App);
}

#[test]
fn navigate_requires_route() {
    let missing = navigate_outcome(None);
    assert!(missing.is_error);
    assert_eq!(missing.text, "missing required `route` argument");
    let ok = navigate_outcome(Some("/dashboard"));
    assert!(!ok.is_error);
    assert_eq!(ok.text, "navigated to /dashboard");
}

#[test]
fn app_results_are_reported_as_is() {
    let r = app_outcome(McpCommandResult::ok("added task Buy milk"));
    assert!(!r.is_error);
    assert_eq!(r.text, "added task Buy milk");
    let r = app_outcome(McpCommandResult::err("unknown action: x"));
    assert!(r.is_error);
    assert_eq!(r.text, "unknown action: x");
}

#[test]
fn tool_descriptions() {
    assert_eq!(tool_description(Some("Add a new task"), Some("Add"), "button"), "Add a new task");
    assert_eq!(tool_description(None, Some("Add"), "button"), "Invoke the \"Add\" button");
    assert_eq!(tool_description(None, None, "input"), "Invoke the \"\" input");
    assert_eq!(param_description("Buy milk"), "e.g. Buy milk");
}

fn answer_line(line: &str) -> Option<McpAnswer> {
    answer(&request_for_line(line).expect("a request"))
}

#[test]
fn request_lines_are_parsed() {
    let req = request_for_line(
        r#"  {"jsonrpc":"2.0","id":5,"method":"tools/call","params":{"name":"add_task","arguments":{"title":"Buy milk"}}}  "#,
    )
    .unwrap();
    assert_eq!(req.id.as_deref(), Some("5"));
    assert_eq!(req.method.as_deref(), Some("tools/call"));
    assert_eq!(req.tool.as_deref(), Some("add_task"));
    assert_eq!(req.route, None);
    assert_eq!(req.arguments.as_deref(), Some(r#"{"title":"Buy milk"}"#));
    let note = request_for_line(r#"{"jsonrpc":"2.0","method":"notifications/initialized"}"#).unwrap();
    assert_eq!(note.id, None);
    assert_eq!(request_for_line("   "), None);
    assert_eq!(request_for_line("{not json"), None);
}

#[test]
fn initialize_and_tools_list_are_answered() {
    assert_eq!(
        answer_line(r#"{"jsonrpc":"2.0","id":1,"method":"initialize","params":{}}"#),
        Some(McpAnswer::Initialize)
    );
    assert_eq!(answer_line(r#"{"jsonrpc":"2.0","id":2,"method":"tools/list"}"#), Some(McpAnswer::ToolsList));
}

#[test]
fn notifications_get_no_answer() {
    assert_eq!(answer_line(r#"{"jsonrpc":"2.0","method":"notifications/initialized"}"#), None);
    assert_eq!(answer_line(r#"{"jsonrpc":"2.0","id":9,"method":"notifications/cancelled"}"#), None);
}

#[test]
fn tool_calls_are_routed() {
    assert_eq!(
        answer_line(r#"{"jsonrpc":"2.0","id":3,"method":"tools/call","params":{"name":"query_state","arguments":{}}}"#),
        Some(McpAnswer::QueryState)
    );
    assert_eq!(
        answer_line(r#"{"jsonrpc":"2.0","id":4,"method":"tools/call","params":{"name":"navigate","arguments":{}}}"#),
        Some(McpAnswer::Navigate {
            route: None,
            outcome: ToolOutcome { is_error: true, text: "missing required `route` argument".to_string() },
        })
    );
    assert_eq!(
        answer_line(r#"{"jsonrpc":"2.0","id":4,"method":"tools/call","params":{"name":"navigate","arguments":{"route":"/dashboard"}}}"#),
        Some(McpAnswer::Navigate {
            route: Some("/dashboard".to_string()),
            outcome: ToolOutcome { is_error: false, text: "navigated to /dashboard".to_string() },
        })
    );
    assert_eq!(
        answer_line(r#"{"jsonrpc":"2.0","id":5,"method":"tools/call","params":{"name":"add_task","arguments":{"title":"Buy milk"}}}"#),
        Some(McpAnswer::RunAction { action: "add_task".to_string() })
    );
}

#[test]
fn unknown_methods_error_only_with_an_id() {
    assert_eq!(
        answer_line(r#"{"jsonrpc":"2.0","id":6,"method":"not/a/real/method"}"#),
        Some(McpAnswer::MethodNotFound { message: "method not found: not/a/real/method".to_string() })
    );
    assert_eq!(answer_line(r#"{"jsonrpc":"2.0","method":"not/a/real/method"}"#), None);
    let bare = McpRequest { id: Some("7".to_string()), method: None, tool: None, route: None, arguments: None };
    assert_eq!(answer(&bare), Some(McpAnswer::MethodNotFound { message: "method not found: ".to_string() }));
}
