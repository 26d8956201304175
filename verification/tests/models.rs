use onechat::domain::{
    AssistantResponse, AutoTitleState, Conversation, GenerationConfig, MessageStatus, Model, ModelCapabilities,
    Provider, ToolSelection, Turn, UserMessage,
};
use onechat::models::{
    additional_response_refusal, continuation_refusal, current_model, filtered_models, generation_target,
    initial_model_selection, model_availability, model_choice, model_for_new_conversation, selected_model,
    ModelChoice,
};

fn provider(id: &str, name: &str, enabled: bool) -> Provider {
    Provider { id: id.into(), name: name.into(), enabled }
}

fn model(id: &str, provider_id: &str, remote: &str, name: &str, streaming: bool) -> Model {
    Model {
        id: id.into(),
        provider_id: provider_id.into(),
        remote_id: remote.into(),
        display_name: name.into(),
        context_window_tokens: None,
        capabilities: ModelCapabilities { vision: false, audio_input: false, tools: false, reasoning: false, streaming },
    }
}

fn conversation(model_id: Option<&str>) -> Conversation {
    Conversation {
        id: "c".into(),
        title: "Chat".into(),
        model_id: model_id.map(String::from),
        system_prompt: String::new(),
        assistant_opening: String::new(),
        generation_config: GenerationConfig::default(),
        tool_selection: ToolSelection::default(),
        history_limit_override: None,
        temporary: false,
        auto_title_state: AutoTitleState::Pending,
        pinned: false,
        created_at: 0,
        updated_at: 0,
    }
}

fn response(id: &str, model_id: &str, status: MessageStatus, content: &str) -> AssistantResponse {
    AssistantResponse {
        id: id.into(),
        model_id: model_id.into(),
        model_name: "Model".into(),
        provider_id: "p".into(),
        provider_name: "Provider".into(),
        request_id: None,
        status,
        content: content.into(),
        thinking: String::new(),
        blocks: Vec::new(),
        transcript: Vec::new(),
        tool_executions: Vec::new(),
        created_at: 0,
        updated_at: 0,
    }
}

fn turn(id: &str, first: AssistantResponse) -> Turn {
    let c = conversation(None);
    let user = UserMessage { id: format!("u-{id}"), content: "hello".into(), attachments: Vec::new(), created_at: 0, updated_at: 0 };
    Turn::new(id.into(), &c, None, user, first)
}

fn catalogue() -> (Vec<Model>, Vec<Provider>) {
    let providers = vec![provider("openai", "OpenAI", true), provider("local", "Local Server", false)];
    let models = vec![
        model("gpt", "openai", "gpt-4o", "GPT 4o", true),
        model("mini", "openai", "gpt-4o-mini", "Mini", true),
        model("llama", "local", "llama-3", "Llama", true),
        model("batch", "openai", "batch-1", "Batch", false),
        model("orphan", "gone", "orphan-1", "Orphan", true),
    ];
    (models, providers)
}

#[test]
fn availability_names_the_first_reason_a_model_cannot_generate() {
    let (models, providers) = catalogue();
    assert_eq!(model_availability(&models[0], &providers), Ok(()));
    assert_eq!(model_availability(&models[2], &providers), Err("Provider disabled"));
    assert_eq!(model_availability(&models[3], &providers), Err("Streaming disabled"));
    assert_eq!(model_availability(&models[4], &providers), Err("Missing provider"));
}

#[test]
fn the_conversation_model_falls_back_to_the_primary_model() {
    let (models, _) = catalogue();
    let primary = Some("mini".to_string());
    assert_eq!(current_model(None, &primary, &models), None);
    assert_eq!(current_model(Some(&conversation(Some("gpt"))), &primary, &models), Some(0));
    assert_eq!(current_model(Some(&conversation(Some("deleted"))), &primary, &models), Some(1));
    assert_eq!(current_model(Some(&conversation(None)), &None, &models), None);
    assert_eq!(selected_model(None, &Some("llama".into()), &primary, &models), Some(2));
    assert_eq!(selected_model(None, &None, &primary, &models), Some(1));
    assert_eq!(selected_model(Some(&conversation(Some("batch"))), &Some("llama".into()), &primary, &models), Some(3));
}

#[test]
fn a_generation_target_needs_a_conversation_a_streaming_model_and_an_enabled_provider() {
    let (models, providers) = catalogue();
    let none: Option<String> = None;
    assert_eq!(
        generation_target(None, &none, &none, &models, &providers),
        Err("Create or select a conversation first.".to_string())
    );
    let plain = conversation(None);
    assert_eq!(
        generation_target(Some(&plain), &none, &none, &models, &providers),
        Err("Choose a model before sending.".to_string())
    );
    assert_eq!(
        generation_target(Some(&plain), &Some("batch".into()), &none, &models, &providers),
        Err("The selected model does not support streaming.".to_string())
    );
    assert_eq!(
        generation_target(Some(&plain), &Some("orphan".into()), &none, &models, &providers),
        Err("The selected model has no provider.".to_string())
    );
    assert_eq!(
        generation_target(Some(&plain), &Some("llama".into()), &none, &models, &providers),
        Err("The selected provider is disabled.".to_string())
    );
    assert_eq!(generation_target(Some(&plain), &none, &Some("mini".into()), &models, &providers), Ok((1, 0)));
    let own = conversation(Some("gpt"));
    assert_eq!(generation_target(Some(&own), &none, &Some("mini".into()), &models, &providers), Ok((0, 0)));
    assert_eq!(generation_target(Some(&own), &Some("mini".into()), &none, &models, &providers), Ok((1, 0)));
}

#[test]
fn a_new_message_needs_a_completed_response_to_continue_from() {
    assert_eq!(continuation_refusal(&Vec::new()), None);
    let mut t = turn("t1", response("r1", "gpt", MessageStatus::Completed, "done"));
    assert_eq!(continuation_refusal(&vec![t]), None);
    t = turn("t1", response("r1", "gpt", MessageStatus::Failed, "partial"));
    assert_eq!(continuation_refusal(&vec![t]), Some("Choose a completed response before continuing."));
    t = turn("t1", response("r1", "gpt", MessageStatus::Completed, ""));
    assert_eq!(continuation_refusal(&vec![t]), Some("Choose a completed response before continuing."));
    t = turn("t1", response("r1", "gpt", MessageStatus::Completed, "done"));
    t.continuation_response_id = None;
    assert_eq!(continuation_refusal(&vec![t]), Some("Choose a completed response before continuing."));
}

#[test]
fn a_model_answers_a_message_once() {
    let mut t = turn("t1", response("r1", "gpt", MessageStatus::Completed, "done"));
    t.responses.push(response("r2", "mini", MessageStatus::Completed, "also"));
    assert_eq!(additional_response_refusal(&t, &"llama".to_string()), None);
    assert_eq!(
        additional_response_refusal(&t, &"mini".to_string()),
        Some("This model has already answered this message.")
    );
}

#[test]
fn picking_a_model_answers_a_turn_keeps_a_draft_or_switches_the_conversation() {
    let (models, providers) = catalogue();
    assert_eq!(model_choice(&"unknown".into(), &models, &providers, None, false), ModelChoice::NotFound);
    assert_eq!(
        model_choice(&"llama".into(), &models, &providers, None, false),
        ModelChoice::Unavailable("Model is unavailable: Provider disabled.".into())
    );
    assert_eq!(model_choice(&"mini".into(), &models, &providers, None, true), ModelChoice::AnswerTurn(1));
    assert_eq!(model_choice(&"mini".into(), &models, &providers, None, false), ModelChoice::UseForDraft(1));
    let own = conversation(Some("mini"));
    assert_eq!(model_choice(&"mini".into(), &models, &providers, Some(&own), false), ModelChoice::AlreadyChosen(1));
    assert_eq!(model_choice(&"gpt".into(), &models, &providers, Some(&own), false), ModelChoice::Switch(0));
}

#[test]
fn the_picker_matches_names_remote_ids_and_providers_without_case() {
    let (models, providers) = catalogue();
    let turns: Vec<Turn> = Vec::new();
    assert_eq!(filtered_models(&models, &providers, &turns, &None, "  "), vec![0, 1, 2, 3, 4]);
    assert_eq!(filtered_models(&models, &providers, &turns, &None, " GPT-4O "), vec![0, 1]);
    assert_eq!(filtered_models(&models, &providers, &turns, &None, "server"), vec![2]);
    assert_eq!(filtered_models(&models, &providers, &turns, &None, "mini"), vec![1]);
    assert_eq!(filtered_models(&models, &providers, &turns, &None, "orphan-1"), vec![4]);
    assert_eq!(filtered_models(&models, &providers, &turns, &None, "nothing"), Vec::<usize>::new());
}

#[test]
fn the_picker_for_another_response_leaves_out_models_that_answered() {
    let (models, providers) = catalogue();
    let mut t = turn("t1", response("r1", "gpt", MessageStatus::Completed, "done"));
    t.responses.push(response("r2", "batch", MessageStatus::Failed, ""));
    let turns = vec![t];
    assert_eq!(filtered_models(&models, &providers, &turns, &Some("t1".into()), ""), vec![1, 2, 4]);
    assert_eq!(filtered_models(&models, &providers, &turns, &Some("t9".into()), ""), vec![0, 1, 2, 3, 4]);
}

#[test]
fn the_picker_opens_on_the_selected_model_else_the_first_available_one() {
    let (models, providers) = catalogue();
    let turns: Vec<Turn> = Vec::new();
    assert_eq!(initial_model_selection(&models, &providers, &turns, &None, "", &Some("mini".into())), 1);
    assert_eq!(initial_model_selection(&models, &providers, &turns, &None, "", &Some("llama".into())), 0);
    assert_eq!(initial_model_selection(&models, &providers, &turns, &None, "", &None), 0);
    assert_eq!(initial_model_selection(&models, &providers, &turns, &None, "local", &Some("llama".into())), 0);
    assert_eq!(initial_model_selection(&models, &providers, &turns, &None, "batch", &None), 0);
    let mut t = turn("t1", response("r1", "gpt", MessageStatus::Completed, "done"));
    t.responses.push(response("r2", "mini", MessageStatus::Completed, "done"));
    let answered = vec![t];
    assert_eq!(initial_model_selection(&models, &providers, &answered, &Some("t1".into()), "", &None), 0);
    let reordered = vec![models[2].clone(), models[3].clone(), models[1].clone()];
    assert_eq!(initial_model_selection(&reordered, &providers, &turns, &None, "", &None), 2);
    assert_eq!(initial_model_selection(&reordered, &providers, &turns, &None, "", &Some("gpt".into())), 2);
}

#[test]
fn a_new_conversation_takes_the_draft_model_else_the_primary_one() {
    let (models, providers) = catalogue();
    let none: Option<String> = None;
    assert_eq!(model_for_new_conversation(false, &Some("gpt".into()), &Some("mini".into()), &models, &providers), Ok(0));
    assert_eq!(model_for_new_conversation(true, &Some("gpt".into()), &Some("mini".into()), &models, &providers), Ok(1));
    assert_eq!(model_for_new_conversation(false, &none, &Some("mini".into()), &models, &providers), Ok(1));
    assert_eq!(
        model_for_new_conversation(false, &Some("deleted".into()), &Some("mini".into()), &models, &providers),
        Err("Choose a model before creating a conversation.".to_string())
    );
    assert_eq!(
        model_for_new_conversation(false, &none, &none, &models, &providers),
        Err("Choose a model before creating a conversation.".to_string())
    );
    assert_eq!(
        model_for_new_conversation(false, &none, &Some("batch".into()), &models, &providers),
        Err("Choose an available model before creating a conversation: Streaming disabled.".to_string())
    );
}
