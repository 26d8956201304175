use onechat::domain::{Turn, UserMessage};
use onechat::domain::{AssistantResponse, Model, ModelCapabilities, Provider, RequestInfo};
use onechat::domain::{AutoTitleState, Conversation, GenerationConfig, MessageStatus, RequestStatus, ToolSelection};
use onechat::store::{
    escape_like, keep_title_progress, matches_title, search_conversations, sql_u64, unfinished_message_statuses,
    unfinished_request_statuses,
};

fn conversation(id: &str, title: &str) -> Conversation {
    Conversation {
        id: id.into(),
        title: title.into(),
        model_id: None,
        system_prompt: String::new(),
        assistant_opening: String::new(),
        generation_config: GenerationConfig::default(),
        tool_selection: ToolSelection::default(),
        history_limit_override: None,
        temporary: false,
        auto_title_state: AutoTitleState::Pending,
        pinned: false,
        created_at: 0,
        updated_at: 0,
    }
}

#[test]
fn search_matches_titles_without_case_and_keeps_order() {
    let found = search_conversations(
        vec![
            conversation("a", "SQLite 100%"),
            conversation("b", "Other"),
            conversation("c", "SQLite _ search"),
        ],
        "sqlite",
    );
    assert_eq!(found.iter().map(|c| c.id.as_str()).collect::<Vec<_>>(), vec!["a", "c"]);
    let percent = search_conversations(vec![conversation("a", "SQLite 100%"), conversation("b", "100 apples")], "100%");
    assert_eq!(percent.len(), 1);
    assert_eq!(percent[0].id, "a");
    assert!(matches_title("anything", ""));
    assert!(!matches_title("ab", "abc"));
}

#[test]
fn like_patterns_escape_wildcards() {
    assert_eq!(escape_like("100%_a\\b"), "100\\%\\_a\\\\b");
    assert_eq!(sql_u64(Some(u64::MAX)), Some(i64::MAX));
    assert_eq!(sql_u64(Some(7)), Some(7));
    assert_eq!(sql_u64(None), None);
}

#[test]
fn unfinished_statuses_are_the_ones_interrupted() {
    assert_eq!(unfinished_message_statuses(), vec![MessageStatus::Pending, MessageStatus::Streaming]);
    assert_eq!(unfinished_request_statuses(), vec![RequestStatus::Sending, RequestStatus::Streaming]);
}

#[test]
fn a_reload_keeps_title_progress_that_was_shown() {
    let with_state = |id: &str, state: AutoTitleState| {
        let mut c = conversation(id, id);
        c.auto_title_state = state;
        c
    };
    let shown = vec![with_state("a", AutoTitleState::Running), with_state("b", AutoTitleState::Pending)];
    let fresh = vec![
        with_state("a", AutoTitleState::Pending),
        with_state("b", AutoTitleState::Finished),
        with_state("c", AutoTitleState::Pending),
    ];
    let kept = keep_title_progress(fresh, &shown);
    assert_eq!(
        kept.iter().map(|c| c.auto_title_state).collect::<Vec<_>>(),
        vec![AutoTitleState::Running, AutoTitleState::Finished, AutoTitleState::Pending]
    );
    assert_eq!(AutoTitleState::Running.later(AutoTitleState::Finished), AutoTitleState::Finished);
}

#[test]
fn recovery_interrupts_unfinished_rows_once_and_keeps_the_rest() {
    let model = Model {
        id: "m".into(),
        provider_id: "p".into(),
        remote_id: "r".into(),
        display_name: "M".into(),
        context_window_tokens: None,
        capabilities: ModelCapabilities::default(),
    };
    let provider = Provider { id: "p".into(), name: "P".into(), enabled: true };
    let mut streaming = AssistantResponse::new(&model, &provider, "a".into(), 5);
    streaming.content = "partial".into();
    let mut done = AssistantResponse::new(&model, &provider, "b".into(), 5);
    done.status = MessageStatus::Completed;
    let mut responses = vec![streaming, done];
    let mut sending = RequestInfo::new("q".into(), &"c".to_string(), &"t".to_string(), &"a".to_string(), 0);
    sending.status = RequestStatus::Sending;
    let mut requests = vec![sending];
    onechat::store::recover_interrupted(&mut responses, &mut requests);
    assert_eq!(responses[0].status, MessageStatus::Interrupted);
    assert_eq!(responses[0].content, "partial");
    assert_eq!(responses[0].model_id, "m");
    assert_eq!(responses[1].status, MessageStatus::Completed);
    assert_eq!(requests[0].status, RequestStatus::Interrupted);
    onechat::store::recover_interrupted(&mut responses, &mut requests);
    assert_eq!(responses[0].status, MessageStatus::Interrupted);
    assert_eq!(requests[0].status, RequestStatus::Interrupted);
}

#[test]
fn the_list_puts_pinned_then_recent_then_by_identifier() {
    let mut a = conversation("a", "A");
    a.updated_at = 10;
    let mut b = conversation("b", "B");
    b.updated_at = 30;
    let mut c = conversation("c", "C");
    c.updated_at = 20;
    c.pinned = true;
    let mut d = conversation("d", "D");
    d.updated_at = 30;
    let listed = onechat::store::list_conversations(vec![a, d, c, b]);
    let ids: Vec<&str> = listed.iter().map(|c| c.id.as_str()).collect();
    assert_eq!(ids, vec!["c", "b", "d", "a"]);
}

#[test]
fn clearing_a_context_removes_only_that_conversations_turns_and_requests() {
    let model = Model {
        id: "m".into(),
        provider_id: "p".into(),
        remote_id: "r".into(),
        display_name: "M".into(),
        context_window_tokens: None,
        capabilities: ModelCapabilities::default(),
    };
    let provider = Provider { id: "p".into(), name: "P".into(), enabled: true };
    let first = conversation("c1", "One");
    let second = conversation("c2", "Two");
    let user = || UserMessage { id: "u".into(), content: "hi".into(), attachments: Vec::new(), created_at: 0, updated_at: 0 };
    let mut turns = vec![
        Turn::new("t1".into(), &first, None, user(), AssistantResponse::new(&model, &provider, "r1".into(), 0)),
        Turn::new("t2".into(), &second, None, user(), AssistantResponse::new(&model, &provider, "r2".into(), 0)),
    ];
    let mut requests = vec![
        RequestInfo::new("q1".into(), &"c1".to_string(), &"t1".to_string(), &"r1".to_string(), 0),
        RequestInfo::new("q2".into(), &"c2".to_string(), &"t2".to_string(), &"r2".to_string(), 0),
    ];
    onechat::store::clear_conversation_context(&mut turns, &mut requests, &"c1".to_string());
    assert_eq!(turns.len(), 1);
    assert_eq!(turns[0].id, "t2");
    assert_eq!(requests.len(), 1);
    assert_eq!(requests[0].id, "q2");
}
