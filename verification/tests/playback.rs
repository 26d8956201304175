use onechat::playback::{attachment_source_id, composer_ready, tts_combined_source_id, tts_segment_source_id};

#[test]
fn player_sources_are_named_by_kind() {
    assert_eq!(tts_combined_source_id(7), "tts:7:combined");
    assert_eq!(tts_segment_source_id(7, 2), "tts:7:segment:2");
    assert_eq!(attachment_source_id("a-1"), "attachment:a-1");
}

#[test]
fn composer_needs_text_or_attachments() {
    assert!(!composer_ready("   ", false));
    assert!(composer_ready("   ", true));
    assert!(composer_ready(" hi ", false));
}
