use chrono::{DateTime, Local, Utc};

use onechat::domain::{
    AssistantResponse, Attachment, AttachmentFile, AttachmentFileKind, AttachmentKind,
    Conversation, GenerationConfig, MessageStatus, ToolSelection, Turn, UserMessage,
};
use onechat::export::{conversation_html, conversation_markdown, safe_file_stem, ExportTheme};

fn response(id: &str, content: &str, model: &str, created_at: i64) -> AssistantResponse {
    AssistantResponse {
        id: id.into(),
        model_id: "model".into(),
        model_name: model.into(),
        provider_id: "provider".into(),
        provider_name: "Provider".into(),
        request_id: None,
        status: MessageStatus::Completed,
        content: content.into(),
        thinking: "hidden reasoning".into(),
        blocks: Vec::new(),
        transcript: Vec::new(),
        tool_executions: Vec::new(),
        created_at,
        updated_at: created_at,
    }
}

fn fixture() -> (Conversation, Turn, Turn) {
    let conversation = Conversation {
        id: "conversation-1".into(),
        title: "Export *test*".into(),
        model_id: None,
        system_prompt: "secret system prompt".into(),
        assistant_opening: String::new(),
        generation_config: GenerationConfig::default(),
        tool_selection: ToolSelection::default(),
        history_limit_override: None,
        temporary: false,
        auto_title_state: Default::default(),
        pinned: false,
        created_at: 1_700_000_000,
        updated_at: 1_700_000_100,
    };
    let mut first = Turn::new(
        "turn-1".into(),
        &conversation,
        None,
        UserMessage {
            id: "user-1".into(),
            content: "First question".into(),
            attachments: vec![Attachment {
                id: "attachment-1".into(),
                name: "notes_[draft].md".into(),
                kind: AttachmentKind::Image,
                files: vec![AttachmentFile {
                    name: "preview.png".into(),
                    kind: AttachmentFileKind::Image,
                    path: "attachments/preview.png".into(),
                    media_type: "image/png".into(),
                }],
                audio: None,
            }],
            created_at: 1_700_000_010,
            updated_at: 1_700_000_010,
        },
        response("response-1", "Visible answer", "Model A", 1_700_000_020),
    );
    first.responses.push(response(
        "response-hidden",
        "Hidden answer",
        "Model B",
        1_700_000_021,
    ));
    let second = Turn::new(
        "turn-2".into(),
        &conversation,
        Some("response-1".into()),
        UserMessage {
            id: "user-2".into(),
            content: "Second question".into(),
            attachments: Vec::new(),
            created_at: 1_700_000_025,
            updated_at: 1_700_000_025,
        },
        response("response-2", "Final answer", "Model A", 1_700_000_030),
    );
    (conversation, first, second)
}

fn check_markdown_contains_only_the_supplied_visible_path() {
    let (conversation, first, second) = fixture();
    let markdown = conversation_markdown(
        &conversation,
        &[
            (&first, &first.responses[0]),
            (&second, &second.responses[0]),
        ],
        1_700_000_040,
    );

    assert!(markdown.contains("# Export \\*test\\*"));
    assert!(markdown.contains("First question"));
    assert!(markdown.contains("Visible answer"));
    assert!(markdown.contains("Second question"));
    assert!(markdown.contains("Final answer"));
    assert!(markdown.contains("notes\\_\\[draft\\].md"));
    assert!(!markdown.contains("Hidden answer"));
    assert!(!markdown.contains("secret system prompt"));
}

fn check_html_is_self_contained_safe_and_uses_the_apple_document_layout() {
    let (conversation, first, second) = fixture();
    let urls = vec![(
        "attachments/preview.png".to_string(),
        "data:image/png;base64,AAAA".to_string(),
    )];
    let html = conversation_html(
        &conversation,
        &[
            (&first, &first.responses[0]),
            (&second, &second.responses[0]),
        ],
        1_700_000_040,
        "#AF52DE",
        ExportTheme::Dark,
        &urls,
    );

    assert!(html.starts_with("<!doctype html>"));
    assert!(html.contains("<html lang=\"en\" data-theme=\"dark\">"));
    assert!(html.contains("class=\"conversation-title\""));
    assert!(html.contains("class=\"user-bubble prose\""));
    assert!(html.contains("class=\"assistant-content prose\""));
    assert!(html.contains("--theme-accent:#AF52DE"));
    assert!(html.contains("data:image/png;base64,AAAA"));
    assert!(html.contains("Content-Security-Policy"));
    let local_response_time = DateTime::<Utc>::from_timestamp(1_700_000_020, 0)
        .unwrap()
        .with_timezone(&Local)
        .format("%Y-%m-%d · %H:%M")
        .to_string();
    assert!(html.contains(&format!(
        "Model A</span></span><time class=\"message-time\">{local_response_time}</time>"
    )));
    assert!(!html.contains(" UTC"));
    assert!(!html.contains("Hidden answer"));
    assert!(!html.contains("secret system prompt"));
}

fn check_exports_the_assistant_opening_before_user_turns() {
    let (mut conversation, first, _) = fixture();
    conversation.assistant_opening = "Welcome **home**.".into();

    let markdown = conversation_markdown(
        &conversation,
        &[(&first, &first.responses[0])],
        1_700_000_040,
    );
    let html = conversation_html(
        &conversation,
        &[(&first, &first.responses[0])],
        1_700_000_040,
        "#007AFF",
        ExportTheme::Auto,
        &Vec::new(),
    );

    assert!(markdown.find("Assistant · Opening").unwrap() < markdown.find("## User").unwrap());
    assert!(markdown.contains("Welcome **home**."));
    assert!(html.find("Assistant · Opening").unwrap() < html.find("First question").unwrap());
    assert!(html.contains("Welcome <strong>home</strong>."));
}

fn check_html_escapes_titles_attachment_names_and_raw_message_html() {
    let (mut conversation, mut first, _) = fixture();
    conversation.title = "<Title & test>".into();
    first.user.content = "<script>alert('no')</script>".into();
    first.user.attachments[0].name = "<notes>.md".into();
    let html = conversation_html(
        &conversation,
        &[(&first, &first.responses[0])],
        1_700_000_040,
        "not-css",
        ExportTheme::Auto,
        &Vec::new(),
    );

    assert!(html.contains("&lt;Title &amp; test&gt;"));
    assert!(html.contains("&lt;notes&gt;.md"));
    assert!(html.contains("&lt;script&gt;"));
    assert!(!html.contains("<script>"));
    assert!(html.contains("--theme-accent:#007AFF"));
}

#[test]
fn export_markdown_contains_only_the_supplied_visible_path() {
    check_markdown_contains_only_the_supplied_visible_path();
}

#[test]
fn tests_markdown_contains_only_the_supplied_visible_path() {
    check_markdown_contains_only_the_supplied_visible_path();
}

#[test]
fn export_html_is_self_contained_safe_and_uses_the_apple_document_layout() {
    check_html_is_self_contained_safe_and_uses_the_apple_document_layout();
}

#[test]
fn tests_html_is_self_contained_safe_and_uses_the_apple_document_layout() {
    check_html_is_self_contained_safe_and_uses_the_apple_document_layout();
}

#[test]
fn export_exports_the_assistant_opening_before_user_turns() {
    check_exports_the_assistant_opening_before_user_turns();
}

#[test]
fn tests_exports_the_assistant_opening_before_user_turns() {
    check_exports_the_assistant_opening_before_user_turns();
}

#[test]
fn export_html_escapes_titles_attachment_names_and_raw_message_html() {
    check_html_escapes_titles_attachment_names_and_raw_message_html();
}

#[test]
fn tests_html_escapes_titles_attachment_names_and_raw_message_html() {
    check_html_escapes_titles_attachment_names_and_raw_message_html();
}

#[test]
fn export_file_stem_removes_path_characters() {
    assert_eq!(safe_file_stem("  Plan / Notes: v2  "), "Plan - Notes- v2");
    assert_eq!(safe_file_stem("../"), "Conversation");
}

#[test]
fn markdown_export_has_exact_header_and_footer() {
    let (conversation, first, _) = fixture();
    let markdown = conversation_markdown(&conversation, &[(&first, &first.responses[0])], 1_700_000_040);
    assert!(markdown.starts_with("# Export \\*test\\*\n"));
    assert!(markdown.contains("2023-11-14T22:13:20Z"));
}

#[test]
fn file_stem_collapses_separators_and_limits_length() {
    assert_eq!(safe_file_stem("a//b"), "a-b");
    assert_eq!(safe_file_stem("...report..."), "report");
    let long = "x".repeat(100);
    assert_eq!(safe_file_stem(&long).chars().count(), 80);
    assert_eq!(safe_file_stem(""), "Conversation");
}
