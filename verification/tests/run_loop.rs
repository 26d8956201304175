use onechat::domain::{
    AssistantResponse, AutoTitleState, Conversation, GenerationConfig, GenerationError,
    GenerationErrorKind, GenerationEvent, HistoryLimit, MessageStatus, Model, ModelCapabilities,
    Provider, RequestStatus, ToolSelection, Turn, UserMessage,
};
use onechat::prepare::{ContextPolicy, GenerationIds, PreparedGeneration};
use onechat::run_loop::GenerationRun;

fn conversation() -> Conversation {
    Conversation {
        id: "conversation-1".into(),
        title: "Chat".into(),
        model_id: None,
        system_prompt: String::new(),
        assistant_opening: String::new(),
        generation_config: GenerationConfig { reasoning_preset: None, max_output_tokens: None },
        tool_selection: ToolSelection::default(),
        history_limit_override: None,
        temporary: false,
        auto_title_state: AutoTitleState::Pending,
        pinned: false,
        created_at: 0,
        updated_at: 0,
    }
}

fn response(id: &str, content: &str) -> AssistantResponse {
    AssistantResponse {
        id: id.into(),
        model_id: "model-1".into(),
        model_name: "Model".into(),
        provider_id: "provider-1".into(),
        provider_name: "Provider".into(),
        request_id: None,
        status: MessageStatus::Completed,
        content: content.into(),
        thinking: String::new(),
        blocks: Vec::new(),
        transcript: Vec::new(),
        tool_executions: Vec::new(),
        created_at: 0,
        updated_at: 0,
    }
}

fn user(id: &str, content: &str) -> UserMessage {
    UserMessage { id: id.into(), content: content.into(), attachments: Vec::new(), created_at: 0, updated_at: 0 }
}

fn prepared() -> PreparedGeneration {
    let c = conversation();
    let turns = vec![Turn::new("turn-1".into(), &c, None, user("u1", "one"), response("r1", "first"))];
    let provider = Provider { id: "provider-1".into(), name: "Provider".into(), enabled: true };
    let model = Model {
        id: "model-1".into(),
        provider_id: "provider-1".into(),
        remote_id: "remote".into(),
        display_name: "Model".into(),
        context_window_tokens: None,
        capabilities: ModelCapabilities { vision: false, audio_input: false, tools: false, reasoning: false, streaming: true },
    };
    let ids = GenerationIds { turn_id: "turn-2".into(), response_id: "r2".into(), request_id: "q2".into(), now: 1 };
    let policy = ContextPolicy::new(HistoryLimit::All, Vec::new());
    PreparedGeneration::new(&c, &provider, &model, &turns, Some("r1".into()), user("u2", "two"), &policy, &ids).unwrap()
}

#[test]
fn a_quiet_tick_does_nothing() {
    let mut run = GenerationRun::start(prepared(), true);
    let step = run.step(Vec::new(), false, 10, 10, 5);
    assert!(!step.persist && step.snapshot.is_none() && !step.finished);
    assert!(!run.dirty && !run.terminal);
}

#[test]
fn events_are_applied_reported_and_written_at_the_end() {
    let mut run = GenerationRun::start(prepared(), true);
    let first = run.step(vec![GenerationEvent::TextDelta("Hel".into())], false, 10, 40, 5);
    assert!(!first.persist);
    assert!(run.dirty);
    let snapshot = first.snapshot.unwrap();
    assert_eq!(snapshot.response.content, "Hel");
    assert!(!snapshot.terminal && !first.finished);

    let due = run.step(Vec::new(), false, 20, 400, 6);
    assert!(due.persist);
    assert!(due.snapshot.is_none());
    run.persisted(true);
    assert!(!run.dirty);

    let last = run.step(vec![GenerationEvent::TextDelta("lo".into()), GenerationEvent::Completed], false, 30, 10, 7);
    assert!(last.persist && last.finished);
    let snapshot = last.snapshot.unwrap();
    assert!(snapshot.terminal);
    assert_eq!(snapshot.response.content, "Hello");
    assert_eq!(snapshot.request.status, RequestStatus::Completed);
    run.persisted(false);
    assert!(run.dirty);
}

#[test]
fn a_closed_stream_without_an_end_is_an_interruption() {
    let mut run = GenerationRun::start(prepared(), false);
    let step = run.step(Vec::new(), true, 10, 10, 5);
    assert!(step.finished);
    assert!(!step.persist);
    assert!(!run.dirty);
    let snapshot = step.snapshot.unwrap();
    assert_eq!(snapshot.request.status, RequestStatus::Failed);
    assert_eq!(snapshot.request.error.unwrap().message, "Provider stream closed unexpectedly");

    let after = run.step(Vec::new(), true, 20, 400, 6);
    assert!(after.snapshot.is_none() && !after.finished);
}

#[test]
fn a_failure_ends_the_generation() {
    let mut run = GenerationRun::start(prepared(), true);
    let error = GenerationError::new(GenerationErrorKind::Unknown, "boom".into());
    let step = run.step(vec![GenerationEvent::Failed(error)], false, 10, 0, 5);
    assert!(step.finished && step.persist);
    assert!(run.terminal);
    assert_eq!(run.request.status, RequestStatus::Failed);
}
