use onechat::domain::{
    AssistantResponse, Attachment, AttachmentKind, AutoTitleState, Conversation, GenerationConfig,
    GenerationErrorKind, HistoryLimit, MessageRole, MessageStatus, Model, ModelCapabilities,
    Provider, RequestKind, ToolSelection, Turn, UserMessage,
};
use onechat::history::{history_for_new_turn, history_for_turn, history_preview_for_new_turn};
use onechat::prepare::{ContextPolicy, GenerationIds, GenerationStart, PreparedGeneration};

fn conversation(opening: &str) -> Conversation {
    Conversation {
        id: "conversation-1".into(),
        title: "Chat".into(),
        model_id: None,
        system_prompt: String::new(),
        assistant_opening: opening.into(),
        generation_config: GenerationConfig { reasoning_preset: Some("high".into()), max_output_tokens: None },
        tool_selection: ToolSelection::default(),
        history_limit_override: None,
        temporary: false,
        auto_title_state: AutoTitleState::Pending,
        pinned: false,
        created_at: 0,
        updated_at: 0,
    }
}

fn response(id: &str, content: &str) -> AssistantResponse {
    AssistantResponse {
        id: id.into(),
        model_id: "model-1".into(),
        model_name: "Model".into(),
        provider_id: "provider-1".into(),
        provider_name: "Provider".into(),
        request_id: None,
        status: MessageStatus::Completed,
        content: content.into(),
        thinking: String::new(),
        blocks: Vec::new(),
        transcript: Vec::new(),
        tool_executions: Vec::new(),
        created_at: 0,
        updated_at: 0,
    }
}

fn user(id: &str, content: &str) -> UserMessage {
    UserMessage { id: id.into(), content: content.into(), attachments: Vec::new(), created_at: 0, updated_at: 0 }
}

fn chain(conversation: &Conversation) -> Vec<Turn> {
    vec![
        Turn::new("turn-1".into(), conversation, None, user("u1", "one"), response("r1", "first")),
        Turn::new("turn-2".into(), conversation, Some("r1".into()), user("u2", "two"), response("r2", "second")),
        Turn::new("turn-3".into(), conversation, Some("r2".into()), user("u3", "three"), response("r3", "third")),
    ]
}

fn texts(messages: &[onechat::domain::Message]) -> Vec<String> {
    messages.iter().map(|m| m.text.clone()).collect()
}

fn model(window: Option<u32>, vision: bool) -> Model {
    Model {
        id: "model-1".into(),
        provider_id: "provider-1".into(),
        remote_id: "remote".into(),
        display_name: "Model".into(),
        context_window_tokens: window,
        capabilities: ModelCapabilities { vision, audio_input: false, tools: false, reasoning: true, streaming: true },
    }
}

fn ids() -> GenerationIds {
    GenerationIds { turn_id: "turn-new".into(), response_id: "response-new".into(), request_id: "request-new".into(), now: 42 }
}

#[test]
fn history_follows_the_lineage_of_the_turn() {
    let c = conversation("");
    let turns = chain(&c);
    let all = history_for_turn(&turns, &turns[2], HistoryLimit::All);
    assert_eq!(texts(&all), vec!["one", "first", "two", "second", "three"]);
    assert_eq!(all[1].role, MessageRole::Assistant);
    let last = history_for_turn(&turns, &turns[2], HistoryLimit::Last(1));
    assert_eq!(texts(&last), vec!["two", "second", "three"]);
}

#[test]
fn a_new_turn_continues_the_shown_branch() {
    let c = conversation("");
    let mut turns = chain(&c);
    turns.push(Turn::new("turn-4".into(), &c, Some("r1".into()), user("u4", "branch"), response("r4", "other")));
    let history = history_for_new_turn(&turns, HistoryLimit::All);
    assert_eq!(texts(&history), vec!["one", "first", "branch", "other"]);
    let preview = history_preview_for_new_turn(&turns, HistoryLimit::Last(1));
    assert_eq!(preview.available_turns, 2);
    assert_eq!(preview.included_turns, 1);
}

#[test]
fn a_cycle_of_responses_ends_the_lineage() {
    let c = conversation("");
    let turns = vec![
        Turn::new("turn-1".into(), &c, Some("r2".into()), user("u1", "one"), response("r1", "first")),
        Turn::new("turn-2".into(), &c, Some("r1".into()), user("u2", "two"), response("r2", "second")),
    ];
    let history = history_for_turn(&turns, &turns[1], HistoryLimit::All);
    assert_eq!(texts(&history), vec!["two", "second", "one", "first", "two"]);
}

#[test]
fn a_new_turn_is_prepared_with_the_opening_and_its_history() {
    let c = conversation("Welcome");
    let turns = chain(&c);
    let provider = Provider { id: "provider-1".into(), name: "Provider".into(), enabled: true };
    let policy = ContextPolicy::new(HistoryLimit::All, Vec::new());
    let prepared = PreparedGeneration::new(&c, &provider, &model(None, false), &turns, Some("r2".into()), user("u-new", "next"), &policy, &ids())
        .unwrap();
    assert_eq!(texts(&prepared.provider_request.messages), vec!["Welcome", "one", "first", "two", "second", "next"]);
    assert_eq!(prepared.request_info.kind, RequestKind::Initial);
    assert_eq!(prepared.request_info.id, "request-new");
    assert_eq!(prepared.response.id, "response-new");
    assert_eq!(prepared.response.request_id.as_deref(), Some("request-new"));
    assert_eq!(prepared.response.status, MessageStatus::Streaming);
    let context = prepared.request_info.context.unwrap();
    assert_eq!(context.available_history_turns, 2);
    assert_eq!(context.included_history_turns, 2);
    assert!(matches!(&prepared.start, GenerationStart::NewTurn(turn) if turn.id == "turn-new"));
    assert!(prepared.request_info.usage.estimated);
}

#[test]
fn a_failed_user_message_conversion_refuses_the_request() {
    let c = conversation("");
    let turns = chain(&c);
    let provider = Provider { id: "provider-1".into(), name: "Provider".into(), enabled: true };
    let policy = ContextPolicy::new(HistoryLimit::All, vec![("u1".into(), Err("attachment missing".into()))]);
    let result = PreparedGeneration::new(&c, &provider, &model(None, false), &turns, Some("r2".into()), user("u-new", "next"), &policy, &ids());
    assert_eq!(result.err().as_deref(), Some("attachment missing"));
}

#[test]
fn the_context_window_drops_the_oldest_history_first() {
    let c = conversation("");
    let turns = chain(&c);
    let provider = Provider { id: "provider-1".into(), name: "Provider".into(), enabled: true };
    let policy = ContextPolicy::new(HistoryLimit::All, Vec::new());
    let mut prepared = PreparedGeneration::new(&c, &provider, &model(Some(5), false), &turns, Some("r2".into()), user("u-new", "next"), &policy, &ids())
        .unwrap();
    prepared.finalize_context().unwrap();
    assert_eq!(texts(&prepared.provider_request.messages), vec!["two", "second", "next"]);
    let context = prepared.request_info.context.unwrap();
    assert_eq!(context.included_history_turns, 1);
    assert!(context.limited_by_context_window);
}

#[test]
fn a_request_that_cannot_fit_is_refused() {
    let c = conversation("");
    let turns = chain(&c);
    let provider = Provider { id: "provider-1".into(), name: "Provider".into(), enabled: true };
    let policy = ContextPolicy::new(HistoryLimit::All, Vec::new());
    let mut prepared = PreparedGeneration::new(&c, &provider, &model(Some(1), false), &turns, Some("r2".into()), user("u-new", &"x".repeat(40)), &policy, &ids())
        .unwrap();
    let error = prepared.finalize_context().unwrap_err();
    assert_eq!(error.kind, GenerationErrorKind::ContextLengthExceeded);
    assert_eq!(error.message, "Prompt setup and current message exceed the model context window");
    assert_eq!(error.detail.as_deref(), Some("Estimated 10 input tokens for a configured 1-token context window"));
    assert_eq!(prepared.provider_request.messages.len(), 1);
}

#[test]
fn images_need_a_vision_model() {
    let c = conversation("");
    let provider = Provider { id: "provider-1".into(), name: "Provider".into(), enabled: true };
    let policy = ContextPolicy::new(HistoryLimit::All, Vec::new());
    let mut message = user("u-new", "look");
    message.attachments.push(Attachment { id: "a".into(), name: "a.png".into(), kind: AttachmentKind::Image, files: Vec::new(), audio: None });
    let mut prepared = PreparedGeneration::new(&c, &provider, &model(None, false), &[], None, message, &policy, &ids()).unwrap();
    let error = prepared.finalize_context().unwrap_err();
    assert_eq!(error.kind, GenerationErrorKind::UnsupportedParameter);
    assert_eq!(error.message, "The selected model cannot read an image or PDF in the current message");
}

#[test]
fn regeneration_and_continuation_reuse_the_response() {
    let c = conversation("");
    let turns = chain(&c);
    let provider = Provider { id: "provider-1".into(), name: "Provider".into(), enabled: true };
    let policy = ContextPolicy::new(HistoryLimit::All, Vec::new());
    let previous = response("r3", "third");
    let again = PreparedGeneration::regenerate(&c, &provider, &model(None, false), &turns, &turns[2], &previous, &policy, &ids()).unwrap();
    assert_eq!(again.response.id, "r3");
    assert_eq!(again.response.content, "");
    assert_eq!(again.request_info.kind, RequestKind::Regenerate);
    assert_eq!(again.provider_request.config.reasoning_preset.as_deref(), Some("high"));
    let refused = PreparedGeneration::continuation(&c, &provider, &model(None, false), &turns, &turns[2], &previous, &policy, &ids());
    assert_eq!(refused.err().as_deref(), Some("The response has no assistant transcript to continue"));
    let empty = response("r3", "");
    let refused = PreparedGeneration::continuation(&c, &provider, &model(None, false), &turns, &turns[2], &empty, &policy, &ids());
    assert_eq!(refused.err().as_deref(), Some("Only a response with output can be continued"));
    let added = PreparedGeneration::additional(&c, &provider, &model(None, false), &turns, &turns[2], &policy, &ids()).unwrap();
    assert_eq!(added.response.id, "response-new");
    assert_eq!(added.request_info.kind, RequestKind::Additional);
}

#[test]
fn rendered_prompts_replace_the_system_prompt_and_the_opening() {
    let mut c = conversation("Welcome {{name}}");
    c.system_prompt = "You are {{name}}.".into();
    let turns = chain(&c);
    let provider = Provider { id: "provider-1".into(), name: "Provider".into(), enabled: true };
    let policy = ContextPolicy::new(HistoryLimit::All, Vec::new());
    let mut prepared = PreparedGeneration::new(&c, &provider, &model(None, false), &turns, Some("r2".into()), user("u-new", "next"), &policy, &ids())
        .unwrap();
    let templates = prepared.prompt_templates();
    assert_eq!(templates, vec!["You are {{name}}.".to_string(), "Welcome {{name}}".to_string()]);

    let references = onechat::rendering::collect_references(&templates).unwrap();
    let evaluation = onechat::domain::PromptEvaluation { name: "name".into(), source: "text".into(), duration_ms: 0 };
    let rendered = onechat::rendering::assemble_snapshots(templates, references.per_template, vec![Ok((evaluation, "Orion".into()))]);
    let before = prepared.request_info.usage.input_tokens.unwrap();
    assert!(prepared.apply_prompt_snapshots(rendered).is_ok());
    assert_eq!(prepared.provider_request.system_prompt, "You are Orion.");
    assert_eq!(prepared.provider_request.messages[0].text, "Welcome Orion");
    assert_eq!(prepared.provider_request.messages[0].role, MessageRole::Assistant);
    assert_eq!(prepared.request_info.system_prompt.as_ref().unwrap().template, "You are {{name}}.");
    assert_eq!(prepared.request_info.assistant_opening.as_ref().unwrap().resolved, "Welcome Orion");
    assert_eq!(prepared.request_info.assistant_opening.as_ref().unwrap().variables.len(), 1);
    assert!(prepared.request_info.usage.input_tokens.unwrap() < before);
}

#[test]
fn a_failed_rendering_records_the_templates_without_text() {
    let mut c = conversation("Welcome {{name}}");
    c.system_prompt = "You are {{name}}.".into();
    let turns = chain(&c);
    let provider = Provider { id: "provider-1".into(), name: "Provider".into(), enabled: true };
    let policy = ContextPolicy::new(HistoryLimit::All, Vec::new());
    let mut prepared = PreparedGeneration::new(&c, &provider, &model(None, false), &turns, Some("r2".into()), user("u-new", "next"), &policy, &ids())
        .unwrap();
    let error = onechat::prompt::PromptRenderError::Cancelled;
    assert_eq!(prepared.apply_prompt_snapshots(Err(error.clone())), Err(error));
    let system = prepared.request_info.system_prompt.as_ref().unwrap();
    assert_eq!(system.template, "You are {{name}}.");
    assert_eq!(system.resolved, "");
    let opening = prepared.request_info.assistant_opening.as_ref().unwrap();
    assert_eq!(opening.template, "Welcome {{name}}");
    assert!(opening.variables.is_empty());
    assert_eq!(prepared.provider_request.system_prompt, "You are {{name}}.");
    assert_eq!(prepared.provider_request.messages[0].text, "Welcome {{name}}");
}
