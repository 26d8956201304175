//! What a running generation reports, and the rules it applies to tool results and to a
//! continuation that failed.
use vstd::prelude::*;

use vstd::utf8::{encode_scalar, encode_utf8};

use crate::domain::{
    same_response, AssistantResponse, GenerationError, GenerationErrorKind, RequestInfo,
    RequestStatus, Timestamp, ToolSelection,
};
use crate::prompt::PromptRenderError;
use crate::text::{chars_of, push_str, string_of};

verus! {

pub const MAX_TOOL_RESULT_BYTES: usize = 262144;

/// The state of a generation as it is shown and stored.
pub struct GenerationSnapshot {
    pub response: AssistantResponse,
    pub request: RequestInfo,
    pub terminal: bool,
    pub finished_reasoning_ids: Vec<String>,
}

/// What a running generation reports.
pub enum GenerationUpdate {
    Snapshot(Box<GenerationSnapshot>),
    PersistenceFailed(String),
}

/// The length of a text in UTF-8 bytes.
pub open spec fn byte_len(s: Seq<char>) -> int {
    encode_utf8(s).len() as int
}

/// The number of UTF-8 bytes of one character.
pub open spec fn char_width(c: char) -> int {
    encode_scalar(c as u32).len() as int
}

proof fn lemma_encode_append(a: Seq<char>, b: Seq<char>)
    ensures
        encode_utf8(a + b) == encode_utf8(a) + encode_utf8(b),
    decreases a.len(),
{
    if a.len() == 0 {
        assert(a + b =~= b);
        assert(Seq::<u8>::empty() + encode_utf8(b) =~= encode_utf8(b));
    } else {
        assert((a + b).drop_first() =~= a.drop_first() + b);
        assert((a + b)[0] == a[0]);
        lemma_encode_append(a.drop_first(), b);
        assert(encode_scalar(a[0] as u32) + (encode_utf8(a.drop_first()) + encode_utf8(b))
            =~= encode_scalar(a[0] as u32) + encode_utf8(a.drop_first()) + encode_utf8(b));
    }
}

proof fn lemma_byte_len_push(s: Seq<char>, c: char)
    ensures
        byte_len(s.push(c)) == byte_len(s) + char_width(c),
{
    lemma_encode_append(s, seq![c]);
    assert(s.push(c) =~= s + seq![c]);
    let one = seq![c];
    assert(one.drop_first() =~= Seq::<char>::empty());
    assert(one[0] == c);
    assert(encode_utf8(one.drop_first()) =~= Seq::<u8>::empty());
    assert(encode_utf8(one) == encode_scalar(one[0] as u32) + encode_utf8(one.drop_first()));
    assert(encode_utf8(one) =~= encode_scalar(c as u32));
}

fn width(c: char) -> (r: usize)
    ensures
        r == char_width(c),
        1 <= r <= 4,
{
    let v = c as u32;
    if v < 0x80 {
        1
    } else if v < 0x800 {
        2
    } else if v < 0x10000 {
        3
    } else {
        4
    }
}

/// The number of leading characters, from `k` on, that fit in `budget` bytes.
pub open spec fn fitting_prefix(s: Seq<char>, budget: int, k: int) -> int
    decreases s.len() - k,
{
    if 0 <= k < s.len() && byte_len(s.take(k + 1)) <= budget {
        fitting_prefix(s, budget, k + 1)
    } else {
        k
    }
}

pub open spec fn truncation_notice() -> Seq<char> {
    "\n[Tool result truncated by OneChat]"@
}

/// A tool result as a model receives it: unchanged when it fits in 256 KiB, else its longest
/// prefix of whole characters that leaves room for the truncation notice, and the notice.
pub open spec fn limited_tool_result(output: Seq<char>) -> Seq<char> {
    if byte_len(output) <= MAX_TOOL_RESULT_BYTES {
        output
    } else {
        output.take(
            fitting_prefix(output, MAX_TOOL_RESULT_BYTES - truncation_notice().len(), 0),
        ) + truncation_notice()
    }
}

/// Cuts a tool result down to 256 KiB.
pub fn truncate_tool_result(output: &mut String)
    ensures
        final(output)@ == limited_tool_result(old(output)@),
{
    proof {
        reveal_strlit("\n[Tool result truncated by OneChat]");
    }
    let total = output.as_str().as_bytes().len();
    if total <= MAX_TOOL_RESULT_BYTES {
        return;
    }
    let chars = chars_of(output.as_str());
    let ghost s = chars@;
    let budget: usize = MAX_TOOL_RESULT_BYTES - 35;
    let mut used: usize = 0;
    let mut k: usize = 0;
    assert(s.take(0) =~= Seq::<char>::empty());
    while k < chars.len()
        invariant
            0 <= k <= s.len(),
            s == chars@,
            budget == MAX_TOOL_RESULT_BYTES - 35,
            used == byte_len(s.take(k as int)),
            used <= budget,
            fitting_prefix(s, budget as int, 0) == fitting_prefix(s, budget as int, k as int),
        ensures
            0 <= k <= s.len(),
            fitting_prefix(s, budget as int, 0) == k,
        decreases s.len() - k,
    {
        let w = width(chars[k]);
        proof {
            lemma_byte_len_push(s.take(k as int), s[k as int]);
            assert(s.take(k + 1) =~= s.take(k as int).push(s[k as int]));
        }
        if used + w > budget {
            break;
        }
        used = used + w;
        k += 1;
    }
    let mut out = crate::text::slice_chars(&chars, 0, k);
    assert(out@ =~= s.take(k as int));
    push_str(&mut out, "\n[Tool result truncated by OneChat]");
    *output = string_of(&out);
}

/// What a prompt that could not be rendered makes of a generation: a cancellation stays a
/// cancellation, anything else fails it with the reason as detail.
pub fn prompt_render_error(error: PromptRenderError) -> (r: GenerationError)
    ensures
        error is Cancelled ==> r.kind == GenerationErrorKind::UserCancelled && r.message@
            == crate::domain::cancelled_message() && r.detail is None,
        !(error is Cancelled) ==> r.kind == GenerationErrorKind::Unknown && r.message@
            == "System prompt evaluation failed"@ && r.detail == Some(r.detail->Some_0)
            && r.detail->Some_0@ == crate::prompt::fault_text(error@),
{
    match error {
        PromptRenderError::Cancelled => GenerationError::cancelled(),
        other => {
            let detail = other.message();
            GenerationError::new(
                GenerationErrorKind::Unknown,
                String::from_str("System prompt evaluation failed"),
            ).with_detail(detail)
        },
    }
}

/// After a continuation that did not complete, the response returns to what it was before
/// (every field the baseline's), but for the new request's id and the time.
pub fn restore_failed_continuation(
    response: &mut AssistantResponse,
    request: &RequestInfo,
    baseline: Option<&AssistantResponse>,
    now: Timestamp,
)
    ensures
        request.status == RequestStatus::Completed || baseline is None ==> *final(response)
            == *old(response),
        request.status != RequestStatus::Completed && baseline is Some ==> {
            let b = baseline->Some_0;
            &&& final(response).request_id == Some(request.id)
            &&& final(response).updated_at == now
            &&& final(response).id == b.id
            &&& final(response).model_id == b.model_id
            &&& final(response).model_name == b.model_name
            &&& final(response).provider_id == b.provider_id
            &&& final(response).provider_name == b.provider_name
            &&& final(response).status == b.status
            &&& final(response).content == b.content
            &&& final(response).thinking == b.thinking
            &&& final(response).blocks@ == b.blocks@
            &&& crate::domain::message_views(final(response).transcript@)
                == crate::domain::message_views(b.transcript@)
            &&& final(response).tool_executions@ == b.tool_executions@
            &&& final(response).created_at == b.created_at
        },
{
    if request.status == RequestStatus::Completed {
        return;
    }
    match baseline {
        None => {},
        Some(b) => {
            let mut restored = b.clone();
            restored.request_id = Some(request.id.clone());
            restored.updated_at = now;
            *response = restored;
        },
    }
}


/// A tool an MCP server offers.
#[derive(Debug)]
pub struct McpTool {
    pub server_id: String,
    pub tool_name: String,
    pub name: String,
    pub description: String,
    pub input_schema: String,
    pub enabled: bool,
}

/// Whether a conversation uses a tool.
pub open spec fn tool_selected(selection: ToolSelection, tool: McpTool) -> bool {
    crate::domain::resolves_from(selection.overrides@, tool.server_id@, tool.tool_name@, tool.enabled, 0)
}

/// The tools a conversation uses, in the order they were offered.
pub fn selected_tools(tools: Vec<McpTool>, selection: &ToolSelection) -> (r: Vec<McpTool>)
    ensures
        r@ == tools@.filter(|t: McpTool| tool_selected(*selection, t)),
{
    assert(tools@.len() == tools.len());
    let ghost all = tools@;
    let ghost pred = |t: McpTool| tool_selected(*selection, t);
    let mut rest = tools;
    let mut kept: Vec<McpTool> = Vec::new();
    let mut i: usize = 0;
    proof {
        reveal(Seq::filter);
        assert(all.take(0).filter(pred) =~= Seq::<McpTool>::empty());
    }
    while rest.len() > 0
        invariant
            i + rest@.len() == all.len(),
            all.len() <= usize::MAX,
            rest@ == all.skip(i as int),
            kept@ == all.take(i as int).filter(pred),
            pred == (|t: McpTool| tool_selected(*selection, t)),
        decreases rest.len(),
    {
        let tool = rest.remove(0);
        assert(tool == all[i as int]);
        let keep = selection.resolves(&tool.server_id, &tool.tool_name, tool.enabled);
        assert(pred(tool) == keep);
        proof {
            reveal(Seq::filter);
            let t = all.take(i + 1);
            assert(t.drop_last() =~= all.take(i as int));
            assert(t.last() == tool);
            assert(t.filter(pred) == (if pred(t.last()) {
                t.drop_last().filter(pred).push(t.last())
            } else {
                t.drop_last().filter(pred)
            }));
        }
        if keep {
            kept.push(tool);
        }
        i += 1;
        proof {
            assert(rest@ =~= all.skip(i as int));
        }
    }
    assert(all.take(all.len() as int) =~= all);
    kept
}

proof fn lemma_ascii_byte_len(s: Seq<char>)
    requires
        forall|i: int| 0 <= i < s.len() ==> (#[trigger] s[i] as u32) < 0x80,
    ensures
        byte_len(s) == s.len(),
    decreases s.len(),
{
    if s.len() > 0 {
        assert forall|i: int| 0 <= i < s.drop_first().len() implies (#[trigger] s.drop_first()[i] as u32) < 0x80 by {
            assert(s.drop_first()[i] == s[i + 1]);
        }
        lemma_ascii_byte_len(s.drop_first());
    }
}

proof fn lemma_fitting_prefix(s: Seq<char>, budget: int, k: int)
    requires
        0 <= k <= s.len(),
        byte_len(s.take(k)) <= budget,
    ensures
        k <= fitting_prefix(s, budget, k) <= s.len(),
        byte_len(s.take(fitting_prefix(s, budget, k))) <= budget,
    decreases s.len() - k,
{
    if k < s.len() && byte_len(s.take(k + 1)) <= budget {
        lemma_fitting_prefix(s, budget, k + 1);
    }
}

/// A tool result a model receives is never longer than 256 KiB.
pub proof fn lemma_tool_result_fits(output: Seq<char>)
    ensures
        byte_len(limited_tool_result(output)) <= MAX_TOOL_RESULT_BYTES,
{
    if byte_len(output) > MAX_TOOL_RESULT_BYTES {
        reveal_strlit("\n[Tool result truncated by OneChat]");
        let notice = truncation_notice();
        assert(notice.len() == 35);
        assert forall|i: int| 0 <= i < notice.len() implies (#[trigger] notice[i] as u32) < 0x80 by {
            reveal_strlit("\n[Tool result truncated by OneChat]");
        }
        lemma_ascii_byte_len(notice);
        assert(output.take(0) =~= Seq::<char>::empty());
        lemma_fitting_prefix(output, MAX_TOOL_RESULT_BYTES - 35, 0);
        let k = fitting_prefix(output, MAX_TOOL_RESULT_BYTES - 35, 0);
        lemma_encode_append(output.take(k), notice);
    }
}

} // verus!
