//! The tool-call loop of a generation, as decisions from state and event to next state and
//! action: a step is streamed, its message goes into the transcript (continuing the prefilled
//! assistant message on the first step only), its tool calls run and their results go into
//! the transcript, until a step makes no tool call, the user cancels, a step fails, or the
//! loop has used its eight model steps.
use vstd::prelude::*;

use crate::domain::{cancelled_message, GenerationError, GenerationErrorKind};

verus! {

/// The number of model steps one generation may take.
pub const MAX_MODEL_STEPS: u8 = 8;

/// Where the loop stands: how many model steps it has started, and whether the first step's
/// message still has to continue the prefilled assistant message.
#[derive(Clone, Copy, Debug, PartialEq, Eq, Structural)]
pub struct AgentLoopState {
    pub steps: u8,
    pub prefill_owed: bool,
}

/// What the loop learns.
#[derive(Debug)]
pub enum AgentEvent {
    /// The loop may go on; `cancelled` tells whether the user has cancelled.
    Ready { cancelled: bool },
    /// The streamed step is done; its message asks for `tool_calls` tool calls.
    StepStreamed { tool_calls: usize },
    /// Every tool call of the step has a result; `cancelled` tells whether the user
    /// cancelled meanwhile.
    ToolsDone { cancelled: bool },
    /// Streaming the step, or reporting an event, failed with this error.
    StepFailed(GenerationError),
}

/// How the loop ends.
#[derive(Debug)]
pub enum AgentOutcome {
    /// The last step made no tool call.
    Completed,
    /// The user cancelled.
    Cancelled,
    /// The model still asked for tools after its last allowed step.
    StepLimit,
    /// A step failed.
    Failed(GenerationError),
}

/// What the loop does next.
#[derive(Debug)]
pub enum AgentAction {
    /// Report the start of a step with the estimated input tokens, and stream the step.
    StreamStep,
    /// Put the step's message into the transcript (continuing the last assistant message when
    /// `continued`, appending it otherwise), then run its tool calls.
    RecordAndRunTools { continued: bool },
    /// Put the step's message into the transcript as above, then finish as completed.
    RecordAndComplete { continued: bool },
    /// Append the tool results to the transcript, then finish as cancelled when `cancelled`,
    /// or go on.
    AppendResults { cancelled: bool },
    /// Finish.
    Finish(AgentOutcome),
}

/// The next state and action of the loop.
pub open spec fn agent_next(state: AgentLoopState, event: AgentEvent) -> (AgentLoopState, AgentAction) {
    match event {
        AgentEvent::Ready { cancelled } => if cancelled {
            (state, AgentAction::Finish(AgentOutcome::Cancelled))
        } else if state.steps >= MAX_MODEL_STEPS {
            (state, AgentAction::Finish(AgentOutcome::StepLimit))
        } else {
            (AgentLoopState { steps: (state.steps + 1) as u8, ..state }, AgentAction::StreamStep)
        },
        AgentEvent::StepStreamed { tool_calls } => {
            let next = AgentLoopState { prefill_owed: false, ..state };
            if tool_calls == 0 {
                (next, AgentAction::RecordAndComplete { continued: state.prefill_owed })
            } else {
                (next, AgentAction::RecordAndRunTools { continued: state.prefill_owed })
            }
        },
        AgentEvent::ToolsDone { cancelled } => (state, AgentAction::AppendResults { cancelled }),
        AgentEvent::StepFailed(error) => (state, AgentAction::Finish(AgentOutcome::Failed(error))),
    }
}

impl AgentLoopState {
    /// A loop that has taken no step; `continue_prefill` tells whether the first step
    /// continues a prefilled assistant message.
    pub fn new(continue_prefill: bool) -> (r: AgentLoopState)
        ensures
            r.steps == 0,
            r.prefill_owed == continue_prefill,
    {
        AgentLoopState { steps: 0, prefill_owed: continue_prefill }
    }
}

/// Decides the loop's next action on an event, and moves its state on.
pub fn agent_step(state: &mut AgentLoopState, event: AgentEvent) -> (action: AgentAction)
    ensures
        (*final(state), action) == agent_next(*old(state), event),
{
    match event {
        AgentEvent::Ready { cancelled } => {
            if cancelled {
                AgentAction::Finish(AgentOutcome::Cancelled)
            } else if state.steps >= MAX_MODEL_STEPS {
                AgentAction::Finish(AgentOutcome::StepLimit)
            } else {
                state.steps = state.steps + 1;
                AgentAction::StreamStep
            }
        },
        AgentEvent::StepStreamed { tool_calls } => {
            let continued = state.prefill_owed;
            state.prefill_owed = false;
            if tool_calls == 0 {
                AgentAction::RecordAndComplete { continued }
            } else {
                AgentAction::RecordAndRunTools { continued }
            }
        },
        AgentEvent::ToolsDone { cancelled } => AgentAction::AppendResults { cancelled },
        AgentEvent::StepFailed(error) => AgentAction::Finish(AgentOutcome::Failed(error)),
    }
}

/// The error message of a loop stopped by the step limit.
pub open spec fn step_limit_message() -> Seq<char> {
    "The model did not finish within 8 model steps."@
}

impl AgentOutcome {
    /// The generation's result: success for a completed loop, the cancellation error, the
    /// step-limit error, or the step's own error.
    pub fn into_result(self) -> (r: Result<(), GenerationError>)
        ensures
            match self {
                AgentOutcome::Completed => r is Ok,
                AgentOutcome::Cancelled => r matches Err(e) && e.kind == GenerationErrorKind::UserCancelled
                    && e.message@ == cancelled_message() && e.detail is None,
                AgentOutcome::StepLimit => r matches Err(e) && e.kind == GenerationErrorKind::Unknown
                    && e.message@ == step_limit_message() && e.detail is None,
                AgentOutcome::Failed(error) => r == Err::<(), GenerationError>(error),
            },
    {
        match self {
            AgentOutcome::Completed => Ok(()),
            AgentOutcome::Cancelled => Err(GenerationError::cancelled()),
            AgentOutcome::StepLimit => Err(
                GenerationError::new(
                    GenerationErrorKind::Unknown,
                    String::from_str("The model did not finish within 8 model steps."),
                ),
            ),
            AgentOutcome::Failed(error) => Err(error),
        }
    }
}

/// The state after a run of events, and the number of steps streamed on the way.
pub open spec fn run(state: AgentLoopState, events: Seq<AgentEvent>) -> (AgentLoopState, nat)
    decreases events.len(),
{
    if events.len() == 0 {
        (state, 0)
    } else {
        let (next, action) = agent_next(state, events[0]);
        let (last, streamed) = run(next, events.drop_first());
        (last, streamed + if action is StreamStep {
            1nat
        } else {
            0nat
        })
    }
}

/// Whatever the loop learns, it streams at most eight model steps: each streamed step is
/// counted in the state, which never passes the limit, and only a step that is still
/// within the limit is streamed.
pub proof fn lemma_at_most_eight_steps(state: AgentLoopState, events: Seq<AgentEvent>)
    requires
        state.steps <= MAX_MODEL_STEPS,
    ensures
        run(state, events).0.steps <= MAX_MODEL_STEPS,
        state.steps + run(state, events).1 == run(state, events).0.steps,
    decreases events.len(),
{
    if events.len() > 0 {
        let (next, action) = agent_next(state, events[0]);
        lemma_at_most_eight_steps(next, events.drop_first());
    }
}

/// Only the first streamed step continues the prefilled message: once a step's message is
/// recorded, no later one is continued.
pub proof fn lemma_prefill_continued_once(state: AgentLoopState, event: AgentEvent)
    requires
        !state.prefill_owed,
    ensures
        !agent_next(state, event).0.prefill_owed,
        agent_next(state, event).1 matches AgentAction::RecordAndRunTools { continued } ==> !continued,
        agent_next(state, event).1 matches AgentAction::RecordAndComplete { continued } ==> !continued,
{
}

} // verus!
