use onechat::domain::{
    AppSettings, Attachment, AttachmentKind, AutoTitleState, Conversation, GenerationConfig,
    Model, ModelCapabilities, Provider, TitleModelSource, ToolSelection, UserMessage,
};
use onechat::title::{normalize_title, resolve_title_target, title_request, truncate};

fn model(id: &str, remote: &str, name: &str) -> Model {
    Model {
        id: id.into(),
        provider_id: "provider-1".into(),
        remote_id: remote.into(),
        display_name: name.into(),
        context_window_tokens: None,
        capabilities: ModelCapabilities { vision: false, audio_input: false, tools: false, reasoning: true, streaming: true },
    }
}

fn conversation(title: &str, model_id: Option<&str>) -> Conversation {
    Conversation {
        id: "conversation-1".into(),
        title: title.into(),
        model_id: model_id.map(|id| id.to_string()),
        system_prompt: String::new(),
        assistant_opening: String::new(),
        generation_config: GenerationConfig::default(),
        tool_selection: ToolSelection::default(),
        history_limit_override: None,
        temporary: false,
        auto_title_state: AutoTitleState::Pending,
        pinned: false,
        created_at: 0,
        updated_at: 0,
    }
}

#[test]
fn current_source_uses_the_target_conversations_model_and_reasoning() {
    let primary = model("model-primary", "primary", "Primary");
    let current = model("model-current", "current", "Current");
    let mut conversation = conversation("Chat", Some("model-current"));
    conversation.generation_config.reasoning_preset = Some("high".into());
    let settings = AppSettings {
        primary_model_id: Some(primary.id.clone()),
        title_generation_reasoning_preset: Some("low".into()),
        ..AppSettings::default()
    };

    let current_id = current.id.clone();
    let models = [primary, current];
    let (resolved, reasoning) = resolve_title_target(&settings, &conversation, &models).unwrap();

    assert_eq!(resolved.id, current_id);
    assert_eq!(reasoning.as_deref(), Some("high"));
}

#[test]
fn fixed_source_uses_the_title_reasoning_setting() {
    let primary = model("model-primary", "primary", "Primary");
    let current = model("model-current", "current", "Current");
    let mut conversation = conversation("Chat", Some("model-current"));
    conversation.generation_config.reasoning_preset = Some("high".into());
    let settings = AppSettings {
        primary_model_id: Some(primary.id.clone()),
        title_generation_model: TitleModelSource::Primary,
        title_generation_reasoning_preset: Some("low".into()),
        ..AppSettings::default()
    };

    let primary_id = primary.id.clone();
    let models = [primary, current];
    let (resolved, reasoning) = resolve_title_target(&settings, &conversation, &models).unwrap();

    assert_eq!(resolved.id, primary_id);
    assert_eq!(reasoning.as_deref(), Some("low"));
}

#[test]
fn current_source_falls_back_to_the_primary_model() {
    let primary = model("model-primary", "primary", "Primary");
    let conversation = conversation("Chat", Some("missing"));
    let settings = AppSettings { primary_model_id: Some(primary.id.clone()), ..AppSettings::default() };
    let models = [primary];
    let (resolved, _) = resolve_title_target(&settings, &conversation, &models).unwrap();
    assert_eq!(resolved.id, "model-primary");
    let none = AppSettings { title_generation_model: TitleModelSource::Model("other".into()), ..AppSettings::default() };
    assert!(resolve_title_target(&none, &conversation, &models).is_none());
}

#[test]
fn title_request_uses_selected_reasoning_preset() {
    let provider = Provider { id: "provider-1".into(), name: "OpenAI".into(), enabled: true };
    let mut model = model("model-1", "gpt-test", "GPT Test");
    model.context_window_tokens = Some(1);
    let user = UserMessage {
        id: "user-1".into(),
        content: "Question".into(),
        attachments: vec![Attachment {
            id: "attachment-1".into(),
            name: "report.pdf".into(),
            kind: AttachmentKind::Pdf,
            files: Vec::new(),
            audio: None,
        }],
        created_at: 0,
        updated_at: 0,
    };
    let request = title_request(
        provider,
        model,
        "Generate a title".into(),
        Some("low".into()),
        vec![(user, "Answer".into())],
    );

    assert_eq!(request.config.reasoning_preset.as_deref(), Some("low"));
    assert_eq!(request.messages.len(), 1);
    let transcript = &request.messages[0].text;
    assert!(transcript.contains("Question"));
    assert!(transcript.contains("Answer"));
    assert!(transcript.contains("[Attachment: report.pdf]"));
    assert_eq!(
        transcript.as_str(),
        "<conversation>\n<turn>\n<user>\nQuestion\n[Attachment: report.pdf]\n</user>\n<assistant>\nAnswer\n</assistant>\n</turn>\n</conversation>"
    );
}

#[test]
fn titles_are_taken_from_the_first_line_and_unwrapped() {
    assert_eq!(normalize_title("\n\n## **\"Plan\"**\nmore").unwrap(), "Plan");
    assert_eq!(normalize_title("- Groceries").unwrap(), "Groceries");
    assert_eq!(normalize_title("“Quoted”").unwrap(), "Quoted");
    assert!(normalize_title("   \n  ").is_err());
    assert!(normalize_title("\"\"").is_err());
}

#[test]
fn long_titles_are_shortened_to_sixty_graphemes() {
    let long = "a".repeat(70);
    let title = normalize_title(&long).unwrap();
    assert_eq!(title.chars().count(), 60);
    assert!(title.ends_with('…'));
    assert_eq!(normalize_title(&"b".repeat(60)).unwrap(), "b".repeat(60));
}

#[test]
fn truncate_keeps_whole_characters() {
    assert_eq!(truncate("héllo", 2), "hé");
    assert_eq!(truncate("hi", 10), "hi");
}

#[test]
fn unwrapping_twice_changes_nothing_more() {
    let once: String = onechat::title::strip_wrappers("**`Title`**".chars().collect()).into_iter().collect();
    assert_eq!(once, "Title");
    let twice: String = onechat::title::strip_wrappers(once.chars().collect()).into_iter().collect();
    assert_eq!(twice, once);
    let quoted: String = onechat::title::strip_wrappers("“ 'Plan' ”".chars().collect()).into_iter().collect();
    assert_eq!(quoted, "Plan");
    assert!("“ 'Plan' ”".contains(&quoted));
}
