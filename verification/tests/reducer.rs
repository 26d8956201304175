use onechat::domain::{
    AssistantResponse, GenerationErrorKind, GenerationEvent, MessageStatus, RequestInfo, RequestStatus,
};
use onechat::reducer::{apply_event_at, interrupted_event};

fn response() -> AssistantResponse {
    AssistantResponse {
        id: "r".into(),
        model_id: "m".into(),
        model_name: "Model".into(),
        provider_id: "p".into(),
        provider_name: "Provider".into(),
        request_id: Some("q".into()),
        status: MessageStatus::Streaming,
        content: String::new(),
        thinking: String::new(),
        blocks: Vec::new(),
        transcript: Vec::new(),
        tool_executions: Vec::new(),
        created_at: 0,
        updated_at: 0,
    }
}

#[test]
fn text_is_appended_and_completion_is_terminal() {
    let mut assistant = response();
    let mut request = RequestInfo::new("q".into(), &"c".to_string(), &"t".to_string(), &"r".to_string(), 100);
    let outcome = apply_event_at(GenerationEvent::TextDelta("Hel".into()), &mut assistant, &mut request, 5, 101);
    assert!(!outcome.terminal);
    apply_event_at(GenerationEvent::TextDelta("lo".into()), &mut assistant, &mut request, 9, 102);
    assert_eq!(assistant.content, "Hello");
    assert_eq!(request.ttft_ms, Some(5));
    let done = apply_event_at(GenerationEvent::Completed, &mut assistant, &mut request, 20, 103);
    assert!(done.terminal);
    assert_eq!(assistant.status, MessageStatus::Completed);
    assert_eq!(request.status, RequestStatus::Completed);
}

#[test]
fn an_interrupted_stream_fails_the_request() {
    let mut assistant = response();
    let mut request = RequestInfo::new("q".into(), &"c".to_string(), &"t".to_string(), &"r".to_string(), 100);
    let event = interrupted_event();
    assert!(matches!(&event, GenerationEvent::Failed(e) if e.kind == GenerationErrorKind::StreamInterrupted));
    let outcome = apply_event_at(event, &mut assistant, &mut request, 3, 104);
    assert!(outcome.terminal);
    assert_eq!(request.status, RequestStatus::Failed);
    assert_eq!(assistant.status, MessageStatus::Failed);
}
