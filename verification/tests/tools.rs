use onechat::domain::ToolExecutionStatus;
use onechat::runner::McpTool;
use onechat::tools::{
    call_failure, finish_tool_execution, pending_execution, route_tool_call, start_tool_execution,
    tool_call_refusal, tool_result_text, ArgumentsShape, ToolCallOutput, ToolContent,
};

fn tool(server: &str, tool_name: &str, name: &str) -> McpTool {
    McpTool {
        server_id: server.into(),
        tool_name: tool_name.into(),
        name: name.into(),
        description: String::new(),
        input_schema: "{}".into(),
        enabled: true,
    }
}

#[test]
fn tool_replies_become_lines_of_text() {
    let output = ToolCallOutput {
        is_error: None,
        content: vec![
            ToolContent::Text("first".into()),
            ToolContent::Resource(String::new()),
            ToolContent::Resource("notes".into()),
            ToolContent::Image,
            ToolContent::Audio,
            ToolContent::ResourceLink,
            ToolContent::Other,
        ],
        structured: Some("{\"a\":1}".into()),
    };
    assert_eq!(
        tool_result_text(output),
        Ok("first\n[Unsupported binary MCP resource]\nnotes\n[Unsupported MCP image content]\n[Unsupported MCP audio content]\n[MCP resource link omitted]\n[Unsupported MCP content]\n{\"a\":1}".to_string())
    );
}

#[test]
fn empty_and_failed_replies() {
    let empty = ToolCallOutput { is_error: Some(false), content: Vec::new(), structured: None };
    assert_eq!(tool_result_text(empty), Ok("MCP tool completed without output.".to_string()));
    let failed = ToolCallOutput { is_error: Some(true), content: vec![ToolContent::Text("bad input".into())], structured: None };
    assert_eq!(tool_result_text(failed), Err("MCP tool returned an error:\nbad input".to_string()));
    let structured_only = ToolCallOutput { is_error: None, content: Vec::new(), structured: Some("[]".into()) };
    assert_eq!(tool_result_text(structured_only), Ok("[]".to_string()));
}

#[test]
fn long_replies_are_truncated() {
    let output = ToolCallOutput { is_error: None, content: vec![ToolContent::Text("x".repeat(300_000))], structured: None };
    let text = tool_result_text(output).unwrap();
    assert_eq!(text.len(), 256 * 1024);
    assert!(text.ends_with("\n[Tool result truncated by OneChat]"));
}

#[test]
fn calls_are_routed_to_the_first_tool_with_the_name() {
    let tools = vec![tool("s1", "search", "s1__search"), tool("s2", "search", "s2__search"), tool("s3", "other", "s2__search")];
    assert_eq!(route_tool_call(&tools, &"s2__search".to_string()), Some(1));
    assert_eq!(route_tool_call(&tools, &"missing".to_string()), None);

    let routed = pending_execution("e1".into(), Some("c1".into()), &"s2__search".to_string(), "{}".into(), &tools);
    assert_eq!(routed.server_id, "s2");
    assert_eq!(routed.tool_name, "search");
    assert_eq!(routed.status, ToolExecutionStatus::Pending);
    let unknown = pending_execution("e2".into(), None, &"missing".to_string(), "null".into(), &tools);
    assert_eq!(unknown.server_id, "unknown");
    assert_eq!(unknown.tool_name, "missing");
}

#[test]
fn calls_that_cannot_be_made_are_refused() {
    let name = "lookup".to_string();
    assert_eq!(
        tool_call_refusal(false, &name, ArgumentsShape::Object),
        Some("MCP tool call failed: tool was not offered: lookup".to_string())
    );
    assert_eq!(
        tool_call_refusal(true, &name, ArgumentsShape::Other),
        Some("MCP tool call failed: arguments must be a JSON object".to_string())
    );
    assert_eq!(tool_call_refusal(true, &name, ArgumentsShape::Null), None);
    assert_eq!(tool_call_refusal(true, &name, ArgumentsShape::Object), None);
    assert_eq!(call_failure(&"timeout".to_string()), "MCP tool call failed: timeout");
}

#[test]
fn a_call_is_recorded_as_it_runs_and_ends() {
    let tools = vec![tool("s1", "search", "search")];
    let mut execution = pending_execution("e1".into(), None, &"search".to_string(), "{}".into(), &tools);
    start_tool_execution(&mut execution, 10);
    assert_eq!(execution.status, ToolExecutionStatus::Running);
    assert_eq!(execution.started_at, Some(10));
    let text = finish_tool_execution(&mut execution, Ok("found".into()), false, 5, 15);
    assert_eq!(text, "found");
    assert_eq!(execution.status, ToolExecutionStatus::Completed);
    assert_eq!(execution.result.as_deref(), Some("found"));
    assert_eq!((execution.duration_ms, execution.finished_at), (Some(5), Some(15)));

    let mut stopped = pending_execution("e2".into(), None, &"search".to_string(), "{}".into(), &tools);
    assert_eq!(finish_tool_execution(&mut stopped, Err("cancelled".into()), true, 1, 2), "cancelled");
    assert_eq!(stopped.status, ToolExecutionStatus::Stopped);
    let mut failed = pending_execution("e3".into(), None, &"search".to_string(), "{}".into(), &tools);
    finish_tool_execution(&mut failed, Err("boom".into()), false, 1, 2);
    assert_eq!(failed.status, ToolExecutionStatus::Failed);
    assert_eq!(failed.error.as_deref(), Some("boom"));
}
