use lareview::tool_label::{
    fallback_server_for_tool, parse_tool_label_from_payload, parse_tool_label_from_title,
    tool_call_heading, tool_label_from_parts, tool_status_style, PayloadFields, ToolLabel,
    ToolPayload, ToolStatus,
};
use lareview::visuals::ThemeColor;

#[test]
fn test_tool_label_parsing() {
    // Case 1: Simple tool
    let label1 = tool_label_from_parts(Some("return_task"), None);
    assert_eq!(label1.server, "lareview-tasks");
    assert_eq!(label1.tool, "return_task");

    // Case 2: Tool with server in title
    let label2 = tool_label_from_parts(Some("my-server/my-tool"), None);
    assert_eq!(label2.server, "my-server");
    assert_eq!(label2.tool, "my-tool");

    // Case 3: Complex title
    let label3 = tool_label_from_parts(
        Some("return_task (lareview-tasks MCP Server): { ... }"),
        None,
    );
    assert_eq!(label3.server, "lareview-tasks");
    assert_eq!(label3.tool, "return_task");
}

#[test]
fn fallback_server_only_for_review_agent_tools() {
    assert_eq!(fallback_server_for_tool("repo_search"), Some("lareview-tasks"));
    assert_eq!(fallback_server_for_tool("finalize_review"), Some("lareview-tasks"));
    assert_eq!(fallback_server_for_tool("search"), None);
    assert_eq!(fallback_server_for_tool(" return_task"), None);
}

#[test]
fn title_rejects_blank_and_json_titles() {
    assert!(parse_tool_label_from_title("   ").is_none());
    assert!(parse_tool_label_from_title("{\"a\": 1}").is_none());
    assert!(parse_tool_label_from_title("[1, 2]").is_none());
    assert!(parse_tool_label_from_title("search").is_none());
}

#[test]
fn title_colon_form_needs_both_parts() {
    let l = parse_tool_label_from_title(" github : list_prs ").unwrap();
    assert_eq!(l.server, "github");
    assert_eq!(l.tool, "list_prs");
    assert!(parse_tool_label_from_title("github:").is_none());
}

#[test]
fn title_paren_form_strips_server_suffix() {
    let l = parse_tool_label_from_title("read_file ( fs MCP Server ) extra").unwrap();
    assert_eq!(l.server, "fs");
    assert_eq!(l.tool, "read_file");
    // an empty server inside the parentheses falls through to the slash form
    let l = parse_tool_label_from_title("a/b (MCP Server)").unwrap();
    assert_eq!(l.server, "a");
    assert_eq!(l.tool, "b (MCP Server)");
}

#[test]
fn title_slash_form_keeps_empty_parts() {
    let l = parse_tool_label_from_title("/tool").unwrap();
    assert_eq!(l.server, "");
    assert_eq!(l.tool, "tool");
}

#[test]
fn payload_text_is_parsed_as_json() {
    let p = ToolPayload::Text("{\"tool\": \"grep\", \"server\": \"fs\"}".to_string());
    let l = parse_tool_label_from_payload(&p).unwrap();
    assert_eq!(l.server, "fs");
    assert_eq!(l.tool, "grep");

    let p = ToolPayload::Text("{\"name\": \"return_plans\"}".to_string());
    let l = parse_tool_label_from_payload(&p).unwrap();
    assert_eq!(l.server, "lareview-tasks");
    assert_eq!(l.tool, "return_plans");

    let p = ToolPayload::Text("not json".to_string());
    assert!(parse_tool_label_from_payload(&p).is_none());
}

#[test]
fn payload_tool_member_shadows_name() {
    // `tool` is present but not a string: `name` is not consulted
    let p = ToolPayload::Value(PayloadFields {
        tool: Some(None),
        name: Some(Some("repo_search".to_string())),
        server: None,
    });
    assert!(parse_tool_label_from_payload(&p).is_none());
    let p = ToolPayload::Value(PayloadFields {
        tool: None,
        name: Some(Some("repo_search".to_string())),
        server: Some(None),
    });
    let l = parse_tool_label_from_payload(&p).unwrap();
    assert_eq!(l.server, "lareview-tasks");
    assert_eq!(l.tool, "repo_search");
}

#[test]
fn parts_prefer_payload_then_title_then_defaults() {
    let p = ToolPayload::Text("{\"tool\": \"t\", \"server\": \"s\"}".to_string());
    let l = tool_label_from_parts(Some("x/y"), Some(&p));
    assert_eq!((l.server.as_str(), l.tool.as_str()), ("s", "t"));

    let l = tool_label_from_parts(Some("  search  "), None);
    assert_eq!((l.server.as_str(), l.tool.as_str()), ("local", "search"));

    let l = tool_label_from_parts(Some("   "), None);
    assert_eq!((l.server.as_str(), l.tool.as_str()), ("local", "tool"));

    let l = tool_label_from_parts(None, None);
    assert_eq!((l.server.as_str(), l.tool.as_str()), ("local", "tool"));
}

#[test]
fn tool_call_heading_is_cut_at_forty_bytes() {
    let short = ToolLabel { server: "fs".to_string(), tool: "read".to_string() };
    assert_eq!(tool_call_heading(&short), "fs: read");
    let long = ToolLabel {
        server: "lareview-tasks".to_string(),
        tool: "a_very_long_tool_name_that_keeps_going".to_string(),
    };
    assert_eq!(tool_call_heading(&long), "lareview-tasks: a_very_long_tool_name...");
    let exact = ToolLabel { server: "s".repeat(18), tool: "t".repeat(20) };
    assert_eq!(tool_call_heading(&exact).len(), 40);
}

#[test]
fn tool_status_words() {
    assert_eq!(tool_status_style(ToolStatus::InProgress), (ThemeColor::Warning, "Running"));
    assert_eq!(tool_status_style(ToolStatus::Completed).1, "Done");
    assert_eq!(tool_status_style(ToolStatus::Failed).0, ThemeColor::Destructive);
    assert_eq!(tool_status_style(ToolStatus::Pending).1, "Pending");
    assert_eq!(tool_status_style(ToolStatus::Other).1, "Unknown");
}
