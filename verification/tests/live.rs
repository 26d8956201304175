use onechat::domain::{
    AssistantResponse, AutoTitleState, Conversation, GenerationConfig, MessageStatus, RequestInfo, RequestStatus,
    ToolSelection, Turn, UserMessage,
};
use onechat::live::{
    apply_generation_snapshot, completed_in_background, continuation_is_usable, markdown_sources_to_parse, title_turn,
};

fn conversation() -> Conversation {
    Conversation {
        id: "c".into(),
        title: "Chat".into(),
        model_id: None,
        system_prompt: String::new(),
        assistant_opening: String::new(),
        generation_config: GenerationConfig::default(),
        tool_selection: ToolSelection::default(),
        history_limit_override: None,
        temporary: false,
        auto_title_state: AutoTitleState::Pending,
        pinned: false,
        created_at: 0,
        updated_at: 0,
    }
}

fn response(id: &str, status: MessageStatus, content: &str) -> AssistantResponse {
    AssistantResponse {
        id: id.into(),
        model_id: "m".into(),
        model_name: "Model".into(),
        provider_id: "p".into(),
        provider_name: "Provider".into(),
        request_id: Some(format!("q-{id}")),
        status,
        content: content.into(),
        thinking: String::new(),
        blocks: Vec::new(),
        transcript: Vec::new(),
        tool_executions: Vec::new(),
        created_at: 0,
        updated_at: 0,
    }
}

fn user() -> UserMessage {
    UserMessage { id: "u".into(), content: "hi".into(), attachments: Vec::new(), created_at: 0, updated_at: 0 }
}

fn request(id: &str, turn: &str, response_id: &str) -> RequestInfo {
    RequestInfo::new(id.into(), &"c".to_string(), &turn.to_string(), &response_id.to_string(), 0)
}

#[test]
fn a_streamed_copy_replaces_the_stored_response_and_request() {
    let c = conversation();
    let mut turns = vec![Turn::new("t1".into(), &c, None, user(), response("r1", MessageStatus::Streaming, ""))];
    let mut requests = vec![request("q-r1", "t1", "r1")];
    let mut finished = request("q-r1", "t1", "r1");
    finished.status = RequestStatus::Completed;
    let shown = apply_generation_snapshot(
        &mut turns,
        &mut requests,
        &Some("c".into()),
        &"c".to_string(),
        response("r1", MessageStatus::Streaming, "Hel"),
        finished,
    );
    assert!(shown);
    assert_eq!(turns[0].responses[0].content, "Hel");
    assert_eq!(requests[0].status, RequestStatus::Completed);
}

#[test]
fn a_completed_response_takes_over_an_unusable_continuation() {
    let c = conversation();
    let mut turn = Turn::new("t1".into(), &c, None, user(), response("r1", MessageStatus::Failed, "oops"));
    turn.responses.push(response("r2", MessageStatus::Streaming, ""));
    let mut turns = vec![turn];
    let mut requests = Vec::new();
    assert!(!continuation_is_usable(&turns[0]));
    apply_generation_snapshot(
        &mut turns,
        &mut requests,
        &Some("c".into()),
        &"c".to_string(),
        response("r2", MessageStatus::Completed, "done"),
        request("q-r2", "t1", "r2"),
    );
    assert_eq!(turns[0].continuation_response_id.as_deref(), Some("r2"));
    assert!(continuation_is_usable(&turns[0]));
    assert!(requests.is_empty());
}

#[test]
fn a_usable_continuation_is_kept() {
    let c = conversation();
    let mut turn = Turn::new("t1".into(), &c, None, user(), response("r1", MessageStatus::Completed, "first"));
    turn.responses.push(response("r2", MessageStatus::Streaming, ""));
    let mut turns = vec![turn];
    let mut requests = Vec::new();
    apply_generation_snapshot(
        &mut turns,
        &mut requests,
        &Some("c".into()),
        &"c".to_string(),
        response("r2", MessageStatus::Completed, "second"),
        request("q-r2", "t1", "r2"),
    );
    assert_eq!(turns[0].continuation_response_id.as_deref(), Some("r1"));
    assert_eq!(turns[0].responses[1].content, "second");
}

#[test]
fn a_generation_of_another_conversation_changes_nothing() {
    let c = conversation();
    let mut turns = vec![Turn::new("t1".into(), &c, None, user(), response("r1", MessageStatus::Streaming, ""))];
    let mut requests = vec![request("q-r1", "t1", "r1")];
    let shown = apply_generation_snapshot(
        &mut turns,
        &mut requests,
        &Some("other".into()),
        &"c".to_string(),
        response("r1", MessageStatus::Completed, "done"),
        request("q-r1", "t1", "r1"),
    );
    assert!(!shown);
    assert_eq!(turns[0].responses[0].content, "");
    assert_eq!(turns[0].responses[0].status, MessageStatus::Streaming);
}

#[test]
fn background_completions_root_titles_and_markdown_sources() {
    let c = "c".to_string();
    assert!(completed_in_background(MessageStatus::Completed, &Some("other".into()), &c));
    assert!(completed_in_background(MessageStatus::Completed, &None, &c));
    assert!(!completed_in_background(MessageStatus::Completed, &Some("c".into()), &c));
    assert!(!completed_in_background(MessageStatus::Failed, &None, &c));

    let conv = conversation();
    let turns = vec![
        Turn::new("t1".into(), &conv, None, user(), response("r1", MessageStatus::Completed, "a")),
        Turn::new("t2".into(), &conv, Some("r1".into()), user(), response("r2", MessageStatus::Completed, "b")),
    ];
    assert_eq!(title_turn(&turns, &"t1".to_string()), Some(0));
    assert_eq!(title_turn(&turns, &"t2".to_string()), None);
    assert_eq!(title_turn(&turns, &"t9".to_string()), None);

    let mut seen = Vec::new();
    let first = markdown_sources_to_parse(&mut seen, vec![("r1".into(), "Hel".into())]);
    assert_eq!(first, vec![("r1".to_string(), "Hel".to_string())]);
    let same = markdown_sources_to_parse(&mut seen, vec![("r1".into(), "Hel".into())]);
    assert!(same.is_empty());
    let grown = markdown_sources_to_parse(&mut seen, vec![("r1".into(), "Hello".into()), ("r2".into(), "x".into())]);
    assert_eq!(grown.len(), 2);
}
