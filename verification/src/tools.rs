//! Calling MCP tools during a generation: which offered tool a call goes to, when a call is
//! refused before it is made, how a tool's reply becomes the text the model receives, and how
//! the record of the call changes as it runs.
use vstd::prelude::*;

use crate::domain::{Timestamp, ToolExecution, ToolExecutionStatus};
use crate::runner::{limited_tool_result, truncate_tool_result, McpTool};
use crate::text::{chars_of, push_all, push_str, string_of};

verus! {

/// One block of what an MCP tool returned.
#[derive(Debug)]
pub enum ToolContent {
    Text(String),
    /// An embedded resource, with its text (empty for a binary resource).
    Resource(String),
    Image,
    Audio,
    ResourceLink,
    Other,
}

/// What an MCP tool returned: its blocks, whether it reported an error, and its structured
/// content written as JSON.
#[derive(Debug)]
pub struct ToolCallOutput {
    pub is_error: Option<bool>,
    pub content: Vec<ToolContent>,
    pub structured: Option<String>,
}

/// The text a block stands for.
pub open spec fn content_text(c: ToolContent) -> Seq<char> {
    match c {
        ToolContent::Text(t) => t@,
        ToolContent::Resource(t) => if t@.len() == 0 {
            "[Unsupported binary MCP resource]"@
        } else {
            t@
        },
        ToolContent::Image => "[Unsupported MCP image content]"@,
        ToolContent::Audio => "[Unsupported MCP audio content]"@,
        ToolContent::ResourceLink => "[MCP resource link omitted]"@,
        ToolContent::Other => "[Unsupported MCP content]"@,
    }
}

/// The parts of a reply: the text of each block, then the structured content.
pub open spec fn output_parts(output: ToolCallOutput) -> Seq<Seq<char>> {
    let blocks = output.content@.map_values(|c: ToolContent| content_text(c));
    match output.structured {
        Some(s) => blocks.push(s@),
        None => blocks,
    }
}

/// Parts joined by line breaks.
pub open spec fn joined_lines(parts: Seq<Seq<char>>) -> Seq<char>
    decreases parts.len(),
{
    if parts.len() == 0 {
        Seq::empty()
    } else if parts.len() == 1 {
        parts[0]
    } else {
        joined_lines(parts.drop_last()) + "\n"@ + parts.last()
    }
}

/// The text a model receives for a reply: its parts on separate lines (a fixed sentence when
/// there are none), preceded by a notice when the tool reported an error, and limited to
/// 256 KiB. A reply that reports an error is a failure.
pub open spec fn tool_result(output: ToolCallOutput) -> Result<Seq<char>, Seq<char>> {
    let parts = output_parts(output);
    let text = if parts.len() == 0 {
        "MCP tool completed without output."@
    } else {
        joined_lines(parts)
    };
    if output.is_error == Some(true) {
        Err(limited_tool_result("MCP tool returned an error:\n"@ + text))
    } else {
        Ok(limited_tool_result(text))
    }
}

fn block_text(c: &ToolContent) -> (r: Vec<char>)
    ensures
        r@ == content_text(*c),
{
    match c {
        ToolContent::Text(t) => chars_of(t.as_str()),
        ToolContent::Resource(t) => {
            let v = chars_of(t.as_str());
            if v.len() == 0 {
                chars_of("[Unsupported binary MCP resource]")
            } else {
                v
            }
        },
        ToolContent::Image => chars_of("[Unsupported MCP image content]"),
        ToolContent::Audio => chars_of("[Unsupported MCP audio content]"),
        ToolContent::ResourceLink => chars_of("[MCP resource link omitted]"),
        ToolContent::Other => chars_of("[Unsupported MCP content]"),
    }
}

/// The text a model receives for a tool's reply, or the failure it reported.
pub fn tool_result_text(output: ToolCallOutput) -> (r: Result<String, String>)
    ensures
        match tool_result(output) {
            Ok(t) => r matches Ok(s) && s@ == t,
            Err(t) => r matches Err(s) && s@ == t,
        },
{
    let ghost parts = output_parts(output);
    let ghost blocks = output.content@.map_values(|c: ToolContent| content_text(c));
    let mut text: Vec<char> = Vec::new();
    let mut count: usize = 0;
    let mut i: usize = 0;
    while i < output.content.len()
        invariant
            i <= output.content@.len(),
            count == i,
            blocks == output.content@.map_values(|c: ToolContent| content_text(c)),
            text@ == joined_lines(blocks.take(i as int)),
        decreases output.content.len() - i,
    {
        let part = block_text(&output.content[i]);
        proof {
            reveal_strlit("\n");
            assert(blocks.take(i as int + 1).drop_last() =~= blocks.take(i as int));
            assert(blocks.take(i as int + 1).last() == part@);
        }
        if count > 0 {
            push_str(&mut text, "\n");
        }
        push_all(&mut text, &part);
        proof {
            if i == 0 {
                assert(blocks.take(1) =~= seq![part@]);
            }
        }
        count += 1;
        i += 1;
    }
    assert(blocks.take(output.content@.len() as int) =~= blocks);
    let mut any = count > 0;
    match &output.structured {
        Some(s) => {
            let structured = chars_of(s.as_str());
            proof {
                reveal_strlit("\n");
                assert(parts.drop_last() =~= blocks);
            }
            if count > 0 {
                push_str(&mut text, "\n");
            }
            push_all(&mut text, &structured);
            proof {
                if count == 0 {
                    assert(parts =~= seq![s@]);
                }
            }
            any = true;
        },
        None => {},
    }
    assert(any == (parts.len() > 0));
    let mut body: Vec<char> = Vec::new();
    let failed = match output.is_error {
        Some(true) => true,
        _ => false,
    };
    if failed {
        push_str(&mut body, "MCP tool returned an error:\n");
    }
    if !any {
        push_str(&mut body, "MCP tool completed without output.");
    } else {
        push_all(&mut body, &text);
    }
    let mut result = string_of(&body);
    truncate_tool_result(&mut result);
    if failed {
        Err(result)
    } else {
        Ok(result)
    }
}

/// The offered tool a call goes to: the first one with the called name.
pub fn route_tool_call(tools: &Vec<McpTool>, name: &String) -> (r: Option<usize>)
    ensures
        match r {
            Some(i) => i < tools@.len() && tools@[i as int].name@ == name@ && forall|j: int| 0 <= j < i ==> tools@[j].name@ != name@,
            None => forall|j: int| 0 <= j < tools@.len() ==> tools@[j].name@ != name@,
        },
{
    let key = chars_of(name.as_str());
    let mut i: usize = 0;
    while i < tools.len()
        invariant
            i <= tools@.len(),
            key@ == name@,
            forall|j: int| 0 <= j < i ==> tools@[j].name@ != name@,
        decreases tools.len() - i,
    {
        let candidate = chars_of(tools[i].name.as_str());
        if crate::text::chars_equal(&candidate, &key) {
            return Some(i);
        }
        i += 1;
    }
    None
}

/// The record of a tool call before it runs: it names the server and tool it was routed to,
/// or the server `unknown` and the called name when no offered tool has that name.
pub fn pending_execution(
    id: String,
    call_id: Option<String>,
    name: &String,
    arguments: String,
    tools: &Vec<McpTool>,
) -> (r: ToolExecution)
    ensures
        r.id == id,
        r.provider_call_id == call_id,
        r.arguments == arguments,
        r.status == ToolExecutionStatus::Pending,
        r.result is None && r.error is None,
        r.started_at is None && r.finished_at is None && r.duration_ms is None,
        match route_tool_call_spec(tools@, name@) {
            Some(i) => r.server_id == tools@[i].server_id && r.tool_name == tools@[i].tool_name,
            None => r.server_id@ == "unknown"@ && r.tool_name == name,
        },
{
    let route = route_tool_call(tools, name);
    let (server_id, tool_name) = match route {
        Some(i) => (tools[i].server_id.clone(), tools[i].tool_name.clone()),
        None => (String::from_str("unknown"), name.clone()),
    };
    proof {
        lemma_route_unique(tools@, name@, route);
    }
    ToolExecution {
        id,
        provider_call_id: call_id,
        server_id,
        tool_name,
        arguments,
        status: ToolExecutionStatus::Pending,
        result: None,
        error: None,
        started_at: None,
        finished_at: None,
        duration_ms: None,
    }
}

/// The first position with the called name, as an index.
pub open spec fn route_tool_call_spec(tools: Seq<McpTool>, name: Seq<char>) -> Option<int>
    decreases tools.len(),
{
    if tools.len() == 0 {
        None
    } else if tools[0].name@ == name {
        Some(0)
    } else {
        match route_tool_call_spec(tools.drop_first(), name) {
            Some(i) => Some(i + 1),
            None => None,
        }
    }
}

proof fn lemma_route_unique(tools: Seq<McpTool>, name: Seq<char>, found: Option<usize>)
    requires
        match found {
            Some(i) => i < tools.len() && tools[i as int].name@ == name && forall|j: int| 0 <= j < i ==> tools[j].name@ != name,
            None => forall|j: int| 0 <= j < tools.len() ==> tools[j].name@ != name,
        },
    ensures
        match found {
            Some(i) => route_tool_call_spec(tools, name) == Some(i as int),
            None => route_tool_call_spec(tools, name) is None,
        },
    decreases tools.len(),
{
    if tools.len() > 0 {
        match found {
            Some(i) => {
                if i > 0 {
                    assert forall|j: int| 0 <= j < i - 1 implies tools.drop_first()[j].name@ != name by {
                        assert(tools.drop_first()[j] == tools[j + 1]);
                    }
                    assert(tools.drop_first()[i - 1] == tools[i as int]);
                    lemma_route_unique(tools.drop_first(), name, Some((i - 1) as usize));
                }
            },
            None => {
                assert forall|j: int| 0 <= j < tools.drop_first().len() implies tools.drop_first()[j].name@ != name by {
                    assert(tools.drop_first()[j] == tools[j + 1]);
                }
                lemma_route_unique(tools.drop_first(), name, None);
            },
        }
    }
}

/// The JSON kind of a call's arguments.
#[derive(Clone, Copy, Debug, PartialEq, Eq, Structural)]
pub enum ArgumentsShape {
    Object,
    Null,
    Other,
}

/// Why a call is not made: no offered tool has the called name, or its arguments are not a
/// JSON object (no arguments at all are sent as an empty object).
pub open spec fn call_refusal(routed: bool, name: Seq<char>, arguments: ArgumentsShape) -> Option<Seq<char>> {
    if !routed {
        Some("MCP tool call failed: tool was not offered: "@ + name)
    } else if arguments == ArgumentsShape::Other {
        Some("MCP tool call failed: arguments must be a JSON object"@)
    } else {
        None
    }
}

/// The reason a call is refused before it is made, if it is.
pub fn tool_call_refusal(routed: bool, name: &String, arguments: ArgumentsShape) -> (r: Option<String>)
    ensures
        match call_refusal(routed, name@, arguments) {
            Some(m) => r matches Some(s) && s@ == m,
            None => r is None,
        },
{
    if !routed {
        let mut m: Vec<char> = Vec::new();
        push_str(&mut m, "MCP tool call failed: tool was not offered: ");
        push_str(&mut m, name.as_str());
        proof {
            reveal_strlit("MCP tool call failed: tool was not offered: ");
        }
        return Some(string_of(&m));
    }
    match arguments {
        ArgumentsShape::Other => Some(String::from_str("MCP tool call failed: arguments must be a JSON object")),
        _ => None,
    }
}

/// The failure of a call that the MCP client could not complete.
pub fn call_failure(error: &String) -> (r: String)
    ensures
        r@ == "MCP tool call failed: "@ + error@,
{
    let mut m: Vec<char> = Vec::new();
    push_str(&mut m, "MCP tool call failed: ");
    push_str(&mut m, error.as_str());
    proof {
        reveal_strlit("MCP tool call failed: ");
    }
    string_of(&m)
}

/// A call starts running at `now`.
pub fn start_tool_execution(execution: &mut ToolExecution, now: Timestamp)
    ensures
        *final(execution) == (ToolExecution {
            status: ToolExecutionStatus::Running,
            started_at: Some(now),
            ..*old(execution)
        }),
{
    execution.status = ToolExecutionStatus::Running;
    execution.started_at = Some(now);
}

/// A call ends with its outcome: a result completes it; an error fails it, or stops it when
/// the generation was cancelled. The model receives the result or the error.
pub fn finish_tool_execution(
    execution: &mut ToolExecution,
    outcome: Result<String, String>,
    cancelled: bool,
    duration_ms: u64,
    now: Timestamp,
) -> (r: String)
    ensures
        final(execution).id == old(execution).id,
        final(execution).provider_call_id == old(execution).provider_call_id,
        final(execution).server_id == old(execution).server_id,
        final(execution).tool_name == old(execution).tool_name,
        final(execution).arguments == old(execution).arguments,
        final(execution).started_at == old(execution).started_at,
        final(execution).duration_ms == Some(duration_ms),
        final(execution).finished_at == Some(now),
        match outcome {
            Ok(s) => {
                &&& final(execution).status == ToolExecutionStatus::Completed
                &&& final(execution).result == Some(s)
                &&& final(execution).error == old(execution).error
                &&& r == s
            },
            Err(e) => {
                &&& final(execution).status == (if cancelled {
                    ToolExecutionStatus::Stopped
                } else {
                    ToolExecutionStatus::Failed
                })
                &&& final(execution).error == Some(e)
                &&& final(execution).result == old(execution).result
                &&& r == e
            },
        },
{
    execution.duration_ms = Some(duration_ms);
    execution.finished_at = Some(now);
    match outcome {
        Ok(result) => {
            execution.status = ToolExecutionStatus::Completed;
            execution.result = Some(result.clone());
            result
        },
        Err(error) => {
            execution.status = if cancelled {
                ToolExecutionStatus::Stopped
            } else {
                ToolExecutionStatus::Failed
            };
            execution.error = Some(error.clone());
            error
        },
    }
}

} // verus!
