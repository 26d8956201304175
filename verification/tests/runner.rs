use onechat::domain::{GenerationErrorKind, ToolSelection};
use onechat::prompt::PromptRenderError;
use onechat::runner::{prompt_render_error, selected_tools, truncate_tool_result, McpTool};

fn tool(server: &str, name: &str, enabled: bool) -> McpTool {
    McpTool {
        server_id: server.into(),
        tool_name: name.into(),
        name: format!("{server}__{name}"),
        description: String::new(),
        input_schema: "{}".into(),
        enabled,
    }
}

#[test]
fn short_tool_results_are_kept() {
    let mut output = "result".to_string();
    truncate_tool_result(&mut output);
    assert_eq!(output, "result");
}

#[test]
fn long_tool_results_are_cut_at_a_character_boundary() {
    let mut output = "é".repeat(200_000);
    truncate_tool_result(&mut output);
    assert!(output.len() <= 256 * 1024);
    assert!(output.ends_with("\n[Tool result truncated by OneChat]"));
    let kept = output.len() - "\n[Tool result truncated by OneChat]".len();
    assert_eq!(kept, 262_108);
}

#[test]
fn overrides_decide_which_tools_a_conversation_uses() {
    let selection = ToolSelection { overrides: vec![("fs".into(), "read".into(), false), ("web".into(), "fetch".into(), true)] };
    let tools = selected_tools(vec![tool("fs", "read", true), tool("fs", "write", true), tool("web", "fetch", false), tool("web", "search", false)], &selection);
    let names: Vec<_> = tools.iter().map(|t| t.name.as_str()).collect();
    assert_eq!(names, vec!["fs__write", "web__fetch"]);
}

#[test]
fn prompt_failures_become_generation_errors() {
    let cancelled = prompt_render_error(PromptRenderError::Cancelled);
    assert_eq!(cancelled.kind, GenerationErrorKind::UserCancelled);
    let failed = prompt_render_error(PromptRenderError::InvalidTemplate("bad".into()));
    assert_eq!(failed.kind, GenerationErrorKind::Unknown);
    assert_eq!(failed.message, "System prompt evaluation failed");
    assert_eq!(failed.detail.as_deref(), Some("bad"));
}
