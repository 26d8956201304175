use onechat::domain::{
    AssistantResponse, AutoTitleState, Conversation, GenerationConfig, HistoryLimit, MessageRole,
    MessageStatus, RequestInfo, RequestKind, ToolSelection, Turn, UserMessage,
};
use onechat::workspace::{
    current_context_messages, current_request, prompt_preset_for_setup, prompt_setup_label, visible_response,
    PromptPreset,
};

fn conversation() -> Conversation {
    Conversation {
        id: "c".into(),
        title: "Chat".into(),
        model_id: None,
        system_prompt: String::new(),
        assistant_opening: String::new(),
        generation_config: GenerationConfig { reasoning_preset: None, max_output_tokens: None },
        tool_selection: ToolSelection::default(),
        history_limit_override: None,
        temporary: false,
        auto_title_state: AutoTitleState::Pending,
        pinned: false,
        created_at: 0,
        updated_at: 0,
    }
}

fn response(id: &str, request: Option<&str>) -> AssistantResponse {
    AssistantResponse {
        id: id.into(),
        model_id: "m".into(),
        model_name: "Model".into(),
        provider_id: "p".into(),
        provider_name: "Provider".into(),
        request_id: request.map(String::from),
        status: MessageStatus::Completed,
        content: format!("answer {id}"),
        thinking: String::new(),
        blocks: Vec::new(),
        transcript: Vec::new(),
        tool_executions: Vec::new(),
        created_at: 0,
        updated_at: 0,
    }
}

fn user(id: &str, content: &str) -> UserMessage {
    UserMessage { id: id.into(), content: content.into(), attachments: Vec::new(), created_at: 0, updated_at: 0 }
}

fn request(id: &str) -> RequestInfo {
    RequestInfo::new(id.into(), &"c".to_string(), &"t".to_string(), &"r".to_string(), 0)
}

#[test]
fn the_shown_response_follows_the_choice_then_the_continuation() {
    let c = conversation();
    let mut turn = Turn::new("t1".into(), &c, None, user("u1", "one"), response("r1", None));
    turn.responses.push(response("r2", None));
    turn.continuation_response_id = Some("r2".into());
    assert_eq!(visible_response(&turn, &Some("r1".into())), Some(0));
    assert_eq!(visible_response(&turn, &Some("missing".into())), Some(1));
    assert_eq!(visible_response(&turn, &None), Some(1));
    turn.continuation_response_id = None;
    assert_eq!(visible_response(&turn, &None), Some(0));
    turn.responses.clear();
    assert_eq!(visible_response(&turn, &None), None);
}

#[test]
fn the_shown_request_is_the_running_one_or_that_of_the_latest_turn() {
    let c = conversation();
    let turns = vec![
        Turn::new("t1".into(), &c, None, user("u1", "one"), response("r1", Some("q1"))),
        Turn::new("t2".into(), &c, Some("r1".into()), user("u2", "two"), response("r2", Some("q2"))),
    ];
    let requests = vec![request("q1"), request("q2"), request("q3")];
    assert_eq!(current_request(&Some("q3".into()), &turns, &requests), Some(2));
    assert_eq!(current_request(&Some("gone".into()), &turns, &requests), None);
    assert_eq!(current_request(&None, &turns, &requests), Some(1));
    assert_eq!(current_request(&None, &Vec::new(), &requests), None);
    assert_eq!(requests[0].kind, RequestKind::Initial);
}

#[test]
fn the_context_starts_with_the_trimmed_opening() {
    let c = conversation();
    let turns = vec![Turn::new("t1".into(), &c, None, user("u1", "one"), response("r1", None))];
    let messages = current_context_messages(&turns, HistoryLimit::All, "  Hello!  ");
    assert_eq!(messages.iter().map(|m| m.text.as_str()).collect::<Vec<_>>(), vec!["Hello!", "one", "answer r1"]);
    assert_eq!(messages[0].role, MessageRole::Assistant);
    let without = current_context_messages(&turns, HistoryLimit::Last(0), " ");
    assert!(without.is_empty());
}

#[test]
fn prompt_setups_are_named_after_their_preset() {
    let presets = vec![
        PromptPreset { name: "Writer".into(), system_prompt: "Write well.".into(), assistant_opening: String::new() },
        PromptPreset { name: "Twin".into(), system_prompt: "Write well.".into(), assistant_opening: String::new() },
    ];
    assert_eq!(prompt_setup_label(&presets, &None, "", "  "), "None");
    assert_eq!(prompt_setup_label(&presets, &None, " Write well.\n", ""), "Writer");
    assert_eq!(prompt_setup_label(&presets, &Some("Twin".into()), "Write well.", ""), "Twin");
    assert_eq!(prompt_setup_label(&presets, &Some("Twin".into()), "Other", ""), "Custom");
    assert_eq!(prompt_preset_for_setup(&presets, &Some("Missing".into()), "Write well.", ""), Some(0));
}
