use onechat::domain::{
    AssistantResponse, Attachment, AttachmentKind, AutoTitleState, Conversation, GenerationConfig, MessageStatus,
    ToolSelection, Turn, UserMessage,
};
use onechat::editing::{edited_attachments_refusal, response_in_latest_turn, user_edit, ResponseAction, UserEdit};

fn conversation() -> Conversation {
    Conversation {
        id: "c".into(),
        title: "Chat".into(),
        model_id: None,
        system_prompt: String::new(),
        assistant_opening: String::new(),
        generation_config: GenerationConfig::default(),
        tool_selection: ToolSelection::default(),
        history_limit_override: None,
        temporary: false,
        auto_title_state: AutoTitleState::Pending,
        pinned: false,
        created_at: 0,
        updated_at: 0,
    }
}

fn response(id: &str) -> AssistantResponse {
    AssistantResponse {
        id: id.into(),
        model_id: "m".into(),
        model_name: "Model".into(),
        provider_id: "p".into(),
        provider_name: "Provider".into(),
        request_id: None,
        status: MessageStatus::Completed,
        content: format!("answer {id}"),
        thinking: String::new(),
        blocks: Vec::new(),
        transcript: Vec::new(),
        tool_executions: Vec::new(),
        created_at: 0,
        updated_at: 0,
    }
}

fn user(content: &str, attachments: Vec<Attachment>) -> UserMessage {
    UserMessage { id: "u".into(), content: content.into(), attachments, created_at: 0, updated_at: 0 }
}

fn attachment(kind: AttachmentKind) -> Attachment {
    Attachment { id: "a".into(), name: "file".into(), kind, files: Vec::new(), audio: None }
}

fn two_turns() -> Vec<Turn> {
    let c = conversation();
    vec![
        Turn::new("t1".into(), &c, None, user("one", Vec::new()), response("r1")),
        Turn::new("t2".into(), &c, Some("r1".into()), user("two", Vec::new()), response("r2")),
    ]
}

#[test]
fn only_responses_of_the_latest_turn_are_edited_or_regenerated() {
    let turns = two_turns();
    assert_eq!(response_in_latest_turn(&turns, &"r2".to_string(), ResponseAction::Edit), Ok((1, 0)));
    assert_eq!(
        response_in_latest_turn(&turns, &"r1".to_string(), ResponseAction::Edit),
        Err(Some("Only responses in the latest turn can be edited."))
    );
    assert_eq!(
        response_in_latest_turn(&turns, &"r1".to_string(), ResponseAction::Regenerate),
        Err(Some("Only responses in the latest turn can be regenerated."))
    );
    assert_eq!(response_in_latest_turn(&turns, &"missing".to_string(), ResponseAction::Regenerate), Err(None));
}

#[test]
fn an_edited_user_message_is_resent_trimmed_unless_empty_or_unchanged() {
    let c = conversation();
    let plain = Turn::new("t1".into(), &c, None, user("hello", Vec::new()), response("r1"));
    assert_eq!(user_edit("   ", &plain), UserEdit::Empty);
    assert_eq!(user_edit("  hello \n", &plain), UserEdit::Unchanged);
    assert_eq!(user_edit(" hello there ", &plain), UserEdit::Resend("hello there".into()));
    let with_file = Turn::new("t1".into(), &c, None, user("hello", vec![attachment(AttachmentKind::Text)]), response("r1"));
    assert_eq!(user_edit("", &with_file), UserEdit::Resend(String::new()));
}

#[test]
fn attachments_other_than_text_need_a_model_that_sees() {
    let text = vec![attachment(AttachmentKind::Text)];
    let mixed = vec![attachment(AttachmentKind::Text), attachment(AttachmentKind::Audio)];
    assert_eq!(edited_attachments_refusal(&text, false), None);
    assert_eq!(edited_attachments_refusal(&mixed, true), None);
    assert_eq!(
        edited_attachments_refusal(&mixed, false),
        Some("The selected model cannot use the image or PDF attachments on this message.")
    );
}
