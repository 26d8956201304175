//! Applies the events of a provider stream to the response being written and to the record
//! of its request.
use vstd::prelude::*;
use crate::domain::{
    closed_id, continue_last_assistant, error_kind_text, execution_upserted, opt_view,
    output_appended, reasoning_appended, reasoning_closed, reasoning_closed_id,
    tool_call_observed, AssistantResponse, GenerationError, GenerationErrorKind,
    GenerationEvent, Message, MessageRole, MessageStatus, RequestError, RequestInfo,
    RequestStatus, Timestamp, TokenUsage, ToolExecution,
};

verus! {

/// What applying one event produced.
#[derive(Clone, Debug, Default)]
pub struct EventOutcome {
    pub terminal: bool,
    pub finished_reasoning_id: Option<String>,
}

/// Adds two optional token counts, saturating; a missing count is no count.
pub open spec fn sum_tokens_spec(left: Option<u64>, right: Option<u64>) -> Option<u64> {
    match (left, right) {
        (Some(l), Some(r)) => Some(if l + r > u64::MAX { u64::MAX } else { (l + r) as u64 }),
        (Some(l), None) => Some(l),
        (None, r) => r,
    }
}

fn sum_tokens(left: Option<u64>, right: Option<u64>) -> (r: Option<u64>)
    ensures
        r == sum_tokens_spec(left, right),
{
    match (left, right) {
        (Some(l), Some(r)) => Some(l.saturating_add(r)),
        (Some(l), None) => Some(l),
        (None, r) => r,
    }
}

/// Four characters make one token, rounding up.
pub open spec fn tokens_for_characters(characters: nat) -> nat {
    (characters + 3) / 4
}

pub fn estimate_tokens(characters: usize) -> (r: u64)
    ensures
        r == tokens_for_characters(characters as nat),
{
    (characters / 4 + if characters % 4 == 0 { 0 } else { 1 }) as u64
}

/// The first event that shows output records the time to the first token.
pub open spec fn marked(r: RequestInfo, elapsed: u64, now: Timestamp) -> RequestInfo {
    if r.ttft_ms is None {
        RequestInfo {
            first_token_at: Some(now),
            ttft_ms: Some(elapsed),
            status: RequestStatus::Streaming,
            ..r
        }
    } else {
        RequestInfo { status: RequestStatus::Streaming, ..r }
    }
}

/// The end of the first reasoning block records how long the model thought.
pub open spec fn thinking_recorded(r: RequestInfo, elapsed: u64, finished: bool) -> RequestInfo {
    if finished && r.thinking_duration_ms is None {
        RequestInfo { thinking_duration_ms: Some(elapsed), ..r }
    } else {
        r
    }
}

/// The request ends with `status` at `now`, after `elapsed` milliseconds.
pub open spec fn finished(
    r: RequestInfo,
    status: RequestStatus,
    elapsed: u64,
    now: Timestamp,
) -> RequestInfo {
    RequestInfo { status, finished_at: Some(now), duration_ms: Some(elapsed), ..r }
}

/// Output tokens are estimated from the response's text when the provider did not report them.
pub open spec fn output_estimated(r: RequestInfo, a: AssistantResponse) -> RequestInfo {
    if r.usage.output_tokens is None {
        RequestInfo {
            usage: TokenUsage {
                output_tokens: Some(
                    tokens_for_characters(a.content@.len() + a.thinking@.len()) as u64,
                ),
                estimated: true,
                ..r.usage
            },
            ..r
        }
    } else {
        r
    }
}

/// Reported usage replaces an estimate and is otherwise added step by step.
pub open spec fn usage_applied(r: RequestInfo, u: TokenUsage) -> RequestInfo {
    RequestInfo {
        last_step_input_tokens: u.input_tokens,
        usage: if r.usage.estimated || u.estimated {
            u
        } else {
            TokenUsage {
                input_tokens: sum_tokens_spec(r.usage.input_tokens, u.input_tokens),
                output_tokens: sum_tokens_spec(r.usage.output_tokens, u.output_tokens),
                ..r.usage
            }
        },
        ..r
    }
}

/// The total duration of the finished tool executions, saturating; `None` when none finished.
pub open spec fn total_tool_duration(executions: Seq<ToolExecution>) -> Option<u64>
    decreases executions.len(),
{
    if executions.len() == 0 {
        None
    } else {
        let rest = total_tool_duration(executions.drop_last());
        match executions.last().duration_ms {
            None => rest,
            Some(d) => match rest {
                None => Some(d),
                Some(t) => Some(if t + d > u64::MAX { u64::MAX } else { (t + d) as u64 }),
            },
        }
    }
}

fn tool_duration(executions: &Vec<ToolExecution>) -> (r: Option<u64>)
    ensures
        r == total_tool_duration(executions@),
{
    let mut total: Option<u64> = None;
    let mut i: usize = 0;
    while i < executions.len()
        invariant
            0 <= i <= executions.len(),
            total == total_tool_duration(executions@.subrange(0, i as int)),
        decreases executions.len() - i,
    {
        proof {
            assert(executions@.subrange(0, i + 1).drop_last() =~= executions@.subrange(
                0,
                i as int,
            ));
        }
        match executions[i].duration_ms {
            None => {},
            Some(d) => {
                total = match total {
                    None => Some(d),
                    Some(t) => Some(t.saturating_add(d)),
                };
            },
        }
        i += 1;
    }
    assert(executions@.subrange(0, executions@.len() as int) =~= executions@);
    total
}

/// The stored form of a generation error.
pub open spec fn request_error_of(e: RequestError, g: GenerationError) -> bool {
    e.kind@ == error_kind_text(g.kind) && e.message@ == g.message@ && opt_view(e.detail)
        == opt_view(g.detail)
}

fn request_error(error: &GenerationError) -> (r: RequestError)
    ensures
        request_error_of(r, *error),
{
    RequestError {
        kind: String::from_str(error.kind.as_str()),
        message: error.message.clone(),
        detail: match &error.detail {
            Some(d) => Some(d.clone()),
            None => None,
        },
    }
}

/// The effect of one event on the response (`a0` to `a1`), on the request (`r0` to `r1`) and
/// the outcome reported, at `elapsed` milliseconds into the request and wall-clock time `now`.
pub open spec fn event_effect(
    event: GenerationEvent,
    a0: AssistantResponse,
    a1: AssistantResponse,
    r0: RequestInfo,
    r1: RequestInfo,
    elapsed: u64,
    now: Timestamp,
    terminal: bool,
    finished_id: Option<Seq<char>>,
) -> bool {
    match event {
        GenerationEvent::Started => {
            &&& a1 == a0
            &&& r1 == RequestInfo { status: RequestStatus::Streaming, ..r0 }
            &&& !terminal
            &&& finished_id is None
        },
        GenerationEvent::TextDelta(delta) => {
            let done = if delta@.len() > 0 {
                closed_id(a0.blocks@)
            } else {
                None
            };
            &&& if delta@.len() > 0 {
                output_appended(a0, a1, delta@, elapsed)
            } else {
                AssistantResponse { updated_at: a0.updated_at, ..a1 } == a0
            }
            &&& a1.updated_at == now
            &&& r1 == thinking_recorded(marked(r0, elapsed, now), elapsed, done is Some)
            &&& !terminal
            &&& finished_id == done
        },
        GenerationEvent::ThinkingDelta { provider_id, delta } => {
            let done = if delta@.len() > 0 {
                reasoning_closed_id(a0, provider_id)
            } else {
                None
            };
            &&& if delta@.len() > 0 {
                reasoning_appended(a0, a1, provider_id, delta@, elapsed)
            } else {
                AssistantResponse { updated_at: a0.updated_at, ..a1 } == a0
            }
            &&& a1.updated_at == now
            &&& r1 == thinking_recorded(marked(r0, elapsed, now), elapsed, done is Some)
            &&& !terminal
            &&& finished_id == done
        },
        GenerationEvent::ToolCallObserved { internal_call_id, provider_tool_call_id } => {
            let done = closed_id(a0.blocks@);
            &&& tool_call_observed(a0, a1, internal_call_id@, provider_tool_call_id, elapsed)
            &&& a1.updated_at == now
            &&& r1 == thinking_recorded(marked(r0, elapsed, now), elapsed, done is Some)
            &&& !terminal
            &&& finished_id == done
        },
        GenerationEvent::StepStarted { estimated_input_tokens } => {
            let done = closed_id(a0.blocks@);
            &&& reasoning_closed(a0, a1, elapsed)
            &&& a1.updated_at == a0.updated_at
            &&& r1 == RequestInfo {
                last_step_input_tokens: None,
                last_step_estimated_input_tokens: Some(estimated_input_tokens),
                ..thinking_recorded(r0, elapsed, done is Some)
            }
            &&& !terminal
            &&& finished_id == done
        },
        GenerationEvent::UsageUpdated(usage) => {
            &&& a1 == a0
            &&& r1 == usage_applied(r0, usage)
            &&& !terminal
            &&& finished_id is None
        },
        GenerationEvent::ToolExecutionUpdated(execution) => {
            let done = closed_id(a0.blocks@);
            &&& execution_upserted(a0, a1, execution, elapsed)
            &&& a1.updated_at == now
            &&& r1 == RequestInfo {
                tool_call_count: a1.tool_executions@.len() as u64,
                tool_duration_ms: total_tool_duration(a1.tool_executions@),
                status: RequestStatus::Streaming,
                ..thinking_recorded(r0, elapsed, done is Some)
            }
            &&& !terminal
            &&& finished_id == done
        },
        GenerationEvent::TranscriptAppended(message) => {
            &&& AssistantResponse { updated_at: a0.updated_at, transcript: a0.transcript, ..a1 }
                == a0
            &&& a1.transcript@ == a0.transcript@.push(message)
            &&& a1.updated_at == now
            &&& r1 == if message.role == MessageRole::Assistant {
                marked(r0, elapsed, now)
            } else {
                r0
            }
            &&& !terminal
            &&& finished_id is None
        },
        GenerationEvent::TranscriptContinued(message) => {
            &&& AssistantResponse { updated_at: a0.updated_at, transcript: a0.transcript, ..a1 }
                == a0
            &&& continued(a0.transcript@, a1.transcript@, message)
            &&& a1.updated_at == now
            &&& r1 == marked(r0, elapsed, now)
            &&& !terminal
            &&& finished_id is None
        },
        GenerationEvent::Completed => {
            let done = closed_id(a0.blocks@);
            &&& reasoning_closed(a0, AssistantResponse { status: a0.status, ..a1 }, elapsed)
            &&& a1.status == MessageStatus::Completed
            &&& a1.updated_at == a0.updated_at
            &&& r1 == finished(
                output_estimated(thinking_recorded(r0, elapsed, done is Some), a1),
                RequestStatus::Completed,
                elapsed,
                now,
            )
            &&& terminal
            &&& finished_id == done
        },
        GenerationEvent::Failed(error) => {
            let done = closed_id(a0.blocks@);
            let cancelled = error.kind == GenerationErrorKind::UserCancelled;
            &&& reasoning_closed(a0, AssistantResponse { status: a0.status, ..a1 }, elapsed)
            &&& a1.status == if cancelled {
                MessageStatus::Stopped
            } else {
                MessageStatus::Failed
            }
            &&& a1.updated_at == a0.updated_at
            &&& RequestInfo { error: None, ..r1 } == finished(
                RequestInfo {
                    error: None,
                    ..output_estimated(thinking_recorded(r0, elapsed, done is Some), a1)
                },
                if cancelled {
                    RequestStatus::Stopped
                } else {
                    RequestStatus::Failed
                },
                elapsed,
                now,
            )
            &&& if cancelled {
                r1.error is None
            } else {
                r1.error matches Some(e) && request_error_of(e, error)
            }
            &&& terminal
            &&& finished_id == done
        },
    }
}

/// A continued message extends the transcript's last assistant message, or is appended when
/// the transcript does not end with one.
pub open spec fn continued(t0: Seq<Message>, t1: Seq<Message>, m: Message) -> bool {
    if t0.len() > 0 && t0.last().role == MessageRole::Assistant {
        &&& t1.len() == t0.len()
        &&& t1.drop_last() == t0.drop_last()
        &&& t1.last().role == MessageRole::Assistant
        &&& t1.last().text@ == t0.last().text@ + m.text@
        &&& t1.last().reasoning@ == t0.last().reasoning@ + m.reasoning@
        &&& t1.last().images@ == t0.last().images@ + m.images@
    } else {
        t1 == t0.push(m)
    }
}

fn mark_first_token(request: &mut RequestInfo, elapsed_ms: u64, now: Timestamp)
    ensures
        *final(request) == marked(*old(request), elapsed_ms, now),
{
    if request.ttft_ms.is_none() {
        request.first_token_at = Some(now);
        request.ttft_ms = Some(elapsed_ms);
    }
    request.status = RequestStatus::Streaming;
}

fn record_thinking_duration(request: &mut RequestInfo, elapsed_ms: u64, reasoning_finished: bool)
    ensures
        *final(request) == thinking_recorded(*old(request), elapsed_ms, reasoning_finished),
{
    if reasoning_finished && request.thinking_duration_ms.is_none() {
        request.thinking_duration_ms = Some(elapsed_ms);
    }
}

fn finish_request(request: &mut RequestInfo, status: RequestStatus, elapsed_ms: u64, now: Timestamp)
    ensures
        *final(request) == finished(*old(request), status, elapsed_ms, now),
{
    request.status = status;
    request.finished_at = Some(now);
    request.duration_ms = Some(elapsed_ms);
}

fn estimate_output_usage(assistant: &AssistantResponse, request: &mut RequestInfo)
    ensures
        *final(request) == output_estimated(*old(request), *assistant),
{
    if request.usage.output_tokens.is_none() {
        let content = crate::text::chars_of(assistant.content.as_str());
        let thinking = crate::text::chars_of(assistant.thinking.as_str());
        let characters: u128 = content.len() as u128 + thinking.len() as u128;
        let tokens: u128 = (characters + 3) / 4;
        request.usage.output_tokens = Some(tokens as u64);
        request.usage.estimated = true;
    }
}

fn opt_id(o: &Option<String>) -> (r: bool)
    ensures
        r == o is Some,
{
    o.is_some()
}

/// Applies one event at wall-clock time `now`.
pub fn apply_event_at(
    event: GenerationEvent,
    assistant: &mut AssistantResponse,
    request: &mut RequestInfo,
    elapsed_ms: u64,
    now: Timestamp,
) -> (outcome: EventOutcome)
    requires
        old(assistant).blocks@.len() < u64::MAX,
    ensures
        event_effect(
            event,
            *old(assistant),
            *final(assistant),
            *old(request),
            *final(request),
            elapsed_ms,
            now,
            outcome.terminal,
            opt_view(outcome.finished_reasoning_id),
        ),
{
    match event {
        GenerationEvent::Started => {
            request.status = RequestStatus::Streaming;
            EventOutcome { terminal: false, finished_reasoning_id: None }
        },
        GenerationEvent::TextDelta(delta) => {
            mark_first_token(request, elapsed_ms, now);
            let finished_reasoning_id = if !delta.as_str().is_empty() {
                assistant.append_output(&delta, elapsed_ms)
            } else {
                None
            };
            record_thinking_duration(request, elapsed_ms, opt_id(&finished_reasoning_id));
            assistant.updated_at = now;
            EventOutcome { terminal: false, finished_reasoning_id }
        },
        GenerationEvent::ThinkingDelta { provider_id, delta } => {
            mark_first_token(request, elapsed_ms, now);
            let finished_reasoning_id = if !delta.as_str().is_empty() {
                assistant.append_reasoning(provider_id, &delta, elapsed_ms)
            } else {
                None
            };
            record_thinking_duration(request, elapsed_ms, opt_id(&finished_reasoning_id));
            assistant.updated_at = now;
            EventOutcome { terminal: false, finished_reasoning_id }
        },
        GenerationEvent::ToolCallObserved { internal_call_id, provider_tool_call_id } => {
            mark_first_token(request, elapsed_ms, now);
            let finished_reasoning_id = assistant.observe_tool_call(
                &internal_call_id,
                provider_tool_call_id,
                elapsed_ms,
            );
            record_thinking_duration(request, elapsed_ms, opt_id(&finished_reasoning_id));
            assistant.updated_at = now;
            EventOutcome { terminal: false, finished_reasoning_id }
        },
        GenerationEvent::StepStarted { estimated_input_tokens } => {
            let finished_reasoning_id = assistant.finish_reasoning(elapsed_ms);
            record_thinking_duration(request, elapsed_ms, opt_id(&finished_reasoning_id));
            request.last_step_input_tokens = None;
            request.last_step_estimated_input_tokens = Some(estimated_input_tokens);
            EventOutcome { terminal: false, finished_reasoning_id }
        },
        GenerationEvent::UsageUpdated(usage) => {
            request.last_step_input_tokens = usage.input_tokens;
            if request.usage.estimated || usage.estimated {
                request.usage = usage;
            } else {
                request.usage.input_tokens = sum_tokens(
                    request.usage.input_tokens,
                    usage.input_tokens,
                );
                request.usage.output_tokens = sum_tokens(
                    request.usage.output_tokens,
                    usage.output_tokens,
                );
            }
            EventOutcome { terminal: false, finished_reasoning_id: None }
        },
        GenerationEvent::ToolExecutionUpdated(execution) => {
            let finished_reasoning_id = assistant.upsert_tool_execution(execution, elapsed_ms);
            record_thinking_duration(request, elapsed_ms, opt_id(&finished_reasoning_id));
            request.tool_call_count = assistant.tool_executions.len() as u64;
            request.tool_duration_ms = tool_duration(&assistant.tool_executions);
            request.status = RequestStatus::Streaming;
            assistant.updated_at = now;
            EventOutcome { terminal: false, finished_reasoning_id }
        },
        GenerationEvent::TranscriptAppended(message) => {
            if message.role == MessageRole::Assistant {
                mark_first_token(request, elapsed_ms, now);
            }
            assistant.transcript.push(message);
            assistant.updated_at = now;
            EventOutcome { terminal: false, finished_reasoning_id: None }
        },
        GenerationEvent::TranscriptContinued(message) => {
            mark_first_token(request, elapsed_ms, now);
            continue_last_assistant(&mut assistant.transcript, message);
            assistant.updated_at = now;
            EventOutcome { terminal: false, finished_reasoning_id: None }
        },
        GenerationEvent::Completed => {
            let finished_reasoning_id = assistant.finish_reasoning(elapsed_ms);
            record_thinking_duration(request, elapsed_ms, opt_id(&finished_reasoning_id));
            estimate_output_usage(assistant, request);
            assistant.status = MessageStatus::Completed;
            finish_request(request, RequestStatus::Completed, elapsed_ms, now);
            EventOutcome { terminal: true, finished_reasoning_id }
        },
        GenerationEvent::Failed(error) => {
            let finished_reasoning_id = assistant.finish_reasoning(elapsed_ms);
            record_thinking_duration(request, elapsed_ms, opt_id(&finished_reasoning_id));
            estimate_output_usage(assistant, request);
            let cancelled = error.kind == GenerationErrorKind::UserCancelled;
            assistant.status = if cancelled {
                MessageStatus::Stopped
            } else {
                MessageStatus::Failed
            };
            request.error = if cancelled {
                None
            } else {
                Some(request_error(&error))
            };
            finish_request(
                request,
                if cancelled {
                    RequestStatus::Stopped
                } else {
                    RequestStatus::Failed
                },
                elapsed_ms,
                now,
            );
            EventOutcome { terminal: true, finished_reasoning_id }
        },
    }
}

/// Applies one event to the response and its request, `elapsed_ms` milliseconds after the
/// request started; time stamps take the current wall-clock time.
pub fn apply_event(
    event: GenerationEvent,
    assistant: &mut AssistantResponse,
    request: &mut RequestInfo,
    elapsed_ms: u64,
) -> (outcome: EventOutcome)
    requires
        old(assistant).blocks@.len() < u64::MAX,
    ensures
        exists|now: Timestamp|
            #[trigger] event_effect(
                event,
                *old(assistant),
                *final(assistant),
                *old(request),
                *final(request),
                elapsed_ms,
                now,
                outcome.terminal,
                opt_view(outcome.finished_reasoning_id),
            ),
{
    let now = crate::time::now_timestamp();
    apply_event_at(event, assistant, request, elapsed_ms, now)
}

pub open spec fn interrupted_message() -> Seq<char> {
    "Provider stream closed unexpectedly"@
}

/// The failure reported when a provider stream ends without a terminal event.
pub fn interrupted_event() -> (r: GenerationEvent)
    ensures
        r matches GenerationEvent::Failed(e) && e.kind == GenerationErrorKind::StreamInterrupted
            && e.message@ == interrupted_message() && e.detail is None,
{
    GenerationEvent::Failed(
        GenerationError::new(
            GenerationErrorKind::StreamInterrupted,
            String::from_str("Provider stream closed unexpectedly"),
        ),
    )
}


/// Stopping is not failing: a generation that ends because the user cancelled it leaves the
/// response and the request stopped, with no error recorded; any other failure leaves both
/// failed, with the error recorded. Either way the generation has ended and its finish time
/// and duration are set.
pub proof fn lemma_cancellation_stops(
    error: GenerationError,
    a0: AssistantResponse,
    a1: AssistantResponse,
    r0: RequestInfo,
    r1: RequestInfo,
    elapsed: u64,
    now: Timestamp,
    terminal: bool,
    finished_id: Option<Seq<char>>,
)
    requires
        event_effect(GenerationEvent::Failed(error), a0, a1, r0, r1, elapsed, now, terminal, finished_id),
    ensures
        terminal,
        r1.finished_at == Some(now),
        r1.duration_ms == Some(elapsed),
        error.kind == GenerationErrorKind::UserCancelled ==> a1.status == MessageStatus::Stopped
            && r1.status == RequestStatus::Stopped && r1.error is None,
        error.kind != GenerationErrorKind::UserCancelled ==> a1.status == MessageStatus::Failed
            && r1.status == RequestStatus::Failed && r1.error is Some,
{
    let done = closed_id(a0.blocks@);
    let base = RequestInfo { error: None, ..output_estimated(thinking_recorded(r0, elapsed, done is Some), a1) };
    let status = if error.kind == GenerationErrorKind::UserCancelled {
        RequestStatus::Stopped
    } else {
        RequestStatus::Failed
    };
    assert(RequestInfo { error: None, ..r1 }.status == finished(base, status, elapsed, now).status);
    assert(RequestInfo { error: None, ..r1 }.finished_at == finished(base, status, elapsed, now).finished_at);
    assert(RequestInfo { error: None, ..r1 }.duration_ms == finished(base, status, elapsed, now).duration_ms);
}

/// Only the end of a generation finishes it: exactly a completion or a failure is terminal.
/// A completion leaves the response and the request completed, with the finish time and the
/// duration set and any recorded error kept; every other event leaves the finish time, the
/// duration and the error as they were.
pub proof fn lemma_only_endings_finish(
    event: GenerationEvent,
    a0: AssistantResponse,
    a1: AssistantResponse,
    r0: RequestInfo,
    r1: RequestInfo,
    elapsed: u64,
    now: Timestamp,
    terminal: bool,
    finished_id: Option<Seq<char>>,
)
    requires
        event_effect(event, a0, a1, r0, r1, elapsed, now, terminal, finished_id),
    ensures
        terminal <==> (event is Completed || event is Failed),
        event is Completed ==> a1.status == MessageStatus::Completed && r1.status == RequestStatus::Completed
            && r1.finished_at == Some(now) && r1.duration_ms == Some(elapsed) && r1.error == r0.error,
        !terminal ==> r1.finished_at == r0.finished_at && r1.duration_ms == r0.duration_ms && r1.error == r0.error,
{
}

} // verus!
