use onechat::agent::{agent_step, AgentAction, AgentEvent, AgentLoopState, AgentOutcome, MAX_MODEL_STEPS};
use onechat::domain::{GenerationError, GenerationErrorKind};

#[test]
fn a_step_without_tool_calls_completes_and_continues_the_prefill_once() {
    let mut state = AgentLoopState::new(true);
    assert!(matches!(agent_step(&mut state, AgentEvent::Ready { cancelled: false }), AgentAction::StreamStep));
    assert_eq!(state.steps, 1);
    assert!(matches!(
        agent_step(&mut state, AgentEvent::StepStreamed { tool_calls: 2 }),
        AgentAction::RecordAndRunTools { continued: true }
    ));
    assert!(!state.prefill_owed);
    assert!(matches!(
        agent_step(&mut state, AgentEvent::ToolsDone { cancelled: false }),
        AgentAction::AppendResults { cancelled: false }
    ));
    assert!(matches!(agent_step(&mut state, AgentEvent::Ready { cancelled: false }), AgentAction::StreamStep));
    assert!(matches!(
        agent_step(&mut state, AgentEvent::StepStreamed { tool_calls: 0 }),
        AgentAction::RecordAndComplete { continued: false }
    ));
    assert_eq!(state.steps, 2);
}

#[test]
fn cancellation_and_failures_finish_the_loop() {
    let mut state = AgentLoopState::new(false);
    assert!(matches!(
        agent_step(&mut state, AgentEvent::Ready { cancelled: true }),
        AgentAction::Finish(AgentOutcome::Cancelled)
    ));
    assert_eq!(state.steps, 0);
    assert!(matches!(
        agent_step(&mut state, AgentEvent::ToolsDone { cancelled: true }),
        AgentAction::AppendResults { cancelled: true }
    ));
    let failure = GenerationError::new(GenerationErrorKind::StreamInterrupted, "dropped".into());
    match agent_step(&mut state, AgentEvent::StepFailed(failure)) {
        AgentAction::Finish(outcome) => {
            let error = outcome.into_result().unwrap_err();
            assert_eq!(error.kind, GenerationErrorKind::StreamInterrupted);
            assert_eq!(error.message, "dropped");
        }
        other => panic!("unexpected {other:?}"),
    }
    let cancelled = AgentOutcome::Cancelled.into_result().unwrap_err();
    assert_eq!(cancelled.kind, GenerationErrorKind::UserCancelled);
    assert_eq!(cancelled.message, "Generation was cancelled");
    assert!(AgentOutcome::Completed.into_result().is_ok());
}

#[test]
fn the_loop_takes_at_most_eight_model_steps() {
    let mut state = AgentLoopState::new(false);
    let mut streamed = 0;
    loop {
        match agent_step(&mut state, AgentEvent::Ready { cancelled: false }) {
            AgentAction::StreamStep => streamed += 1,
            AgentAction::Finish(outcome) => {
                let error = outcome.into_result().unwrap_err();
                assert_eq!(error.kind, GenerationErrorKind::Unknown);
                assert_eq!(error.message, "The model did not finish within 8 model steps.");
                break;
            }
            other => panic!("unexpected {other:?}"),
        }
        agent_step(&mut state, AgentEvent::StepStreamed { tool_calls: 1 });
        agent_step(&mut state, AgentEvent::ToolsDone { cancelled: false });
    }
    assert_eq!(streamed, 8);
    assert_eq!(state.steps, MAX_MODEL_STEPS);
}
