use onechat::continuation::ContinuationNormalizer;
use onechat::domain::{GenerationEvent, Message, MessageRole};

fn prefill() -> Message {
    Message {
        role: MessageRole::Assistant,
        text: "old answer".into(),
        reasoning: "old reasoning".into(),
        images: Vec::new(),
    }
}

fn text_of(event: &GenerationEvent) -> Option<&str> {
    match event {
        GenerationEvent::TextDelta(text) => Some(text.as_str()),
        _ => None,
    }
}

#[test]
fn removes_replayed_prefill_from_streams() {
    let message = prefill();
    let mut normalizer = ContinuationNormalizer::new(Some(&message));
    let events = vec![
        GenerationEvent::ThinkingDelta { provider_id: None, delta: "old ".into() },
        GenerationEvent::ThinkingDelta { provider_id: None, delta: "reasoning".into() },
        GenerationEvent::TextDelta("old ans".into()),
        GenerationEvent::TextDelta("wer continued".into()),
    ]
    .into_iter()
    .flat_map(|event| normalizer.normalize(event))
    .collect::<Vec<_>>();

    assert_eq!(events.len(), 1);
    assert_eq!(text_of(&events[0]), Some(" continued"));
}

#[test]
fn preserves_suffix_only_streams() {
    let message = prefill();
    let mut normalizer = ContinuationNormalizer::new(Some(&message));
    let first = normalizer.normalize(GenerationEvent::ThinkingDelta {
        provider_id: None,
        delta: "new reasoning".into(),
    });
    assert_eq!(first.len(), 1);
    assert!(matches!(
        &first[0],
        GenerationEvent::ThinkingDelta { provider_id: None, delta } if delta == "new reasoning"
    ));
    let second = normalizer.normalize(GenerationEvent::TextDelta(" continued".into()));
    assert_eq!(second.len(), 1);
    assert_eq!(text_of(&second[0]), Some(" continued"));
}

#[test]
fn normalizer_without_prefill_passes_events_through() {
    let mut normalizer = ContinuationNormalizer::new(None);
    let out = normalizer.normalize(GenerationEvent::TextDelta("hello".into()));
    assert_eq!(out.len(), 1);
    assert_eq!(text_of(&out[0]), Some("hello"));
}
