use base64::Engine;
use onechat::context_usage::{
    estimate_input_tokens, image_input, image_tokens_for_dimensions, messages_replay_reasoning,
    project_input_tokens, provider_usage_reference, remaining_tokens, ContextUsageReference,
    ContextUsageSource, ImageSource,
};
use onechat::domain::{ImageInput, Message, MessageRole};

fn image_message(image: ImageInput) -> Message {
    Message { role: MessageRole::User, text: String::new(), reasoning: String::new(), images: vec![image] }
}

#[test]
fn image_tokens_scale_with_pixels_and_are_bounded() {
    assert_eq!(image_tokens_for_dimensions(1, 1), 85);
    assert_eq!(image_tokens_for_dimensions(256, 256), 88);
    assert_eq!(image_tokens_for_dimensions(512, 512), 350);
    assert_eq!(image_tokens_for_dimensions(1_024, 1_024), 1_399);
    assert_eq!(image_tokens_for_dimensions(1_920, 1_080), 1_536);
}

#[test]
fn unknown_dimensions_and_low_detail_use_fixed_costs() {
    let unknown = image_input(&ImageSource::Unavailable, false);
    assert_eq!(estimate_input_tokens("", &vec![image_message(unknown)], 0), 1_024);
    let low = image_input(&ImageSource::Unavailable, true);
    assert_eq!(estimate_input_tokens("", &vec![image_message(low)], 0), 85);
    let low_known = ImageInput { width: 4_000, height: 4_000, dimensions_known: true, low_detail: true };
    assert_eq!(estimate_input_tokens("", &vec![image_message(low_known)], 0), 85);
}

fn png_header(width: u32, height: u32) -> Vec<u8> {
    let mut png = b"\x89PNG\r\n\x1a\n\x00\x00\x00\rIHDR".to_vec();
    png.extend(width.to_be_bytes());
    png.extend(height.to_be_bytes());
    png.extend([8, 6, 0, 0, 0]);
    png.extend([0, 0, 0, 0]);
    png
}

#[test]
fn image_estimate_ignores_base64_payload_length() {
    let png = png_header(256, 256);
    let mut padded_png = png.clone();
    padded_png.extend(std::iter::repeat_n(0, 100_000));
    let message = |bytes: Vec<u8>| {
        let encoded = base64::engine::general_purpose::STANDARD.encode(bytes);
        image_message(image_input(&ImageSource::Base64(encoded), false))
    };

    assert_eq!(
        estimate_input_tokens("", &vec![message(png)], 0),
        estimate_input_tokens("", &vec![message(padded_png)], 0)
    );
}

#[test]
fn image_dimensions_are_read_from_the_header() {
    let mut encoded = std::io::Cursor::new(Vec::new());
    image::RgbImage::new(512, 512).write_to(&mut encoded, image::ImageFormat::Png).unwrap();
    let input = image_input(&ImageSource::Raw(encoded.into_inner()), false);
    assert!(input.dimensions_known);
    assert_eq!((input.width, input.height), (512, 512));
    assert_eq!(estimate_input_tokens("", &vec![image_message(input)], 0), 350);
    let garbage = image_input(&ImageSource::Base64("not base64!".into()), false);
    assert!(!garbage.dimensions_known);
}

#[test]
fn provider_usage_anchors_only_the_known_request_and_estimates_the_delta() {
    let previous = vec![Message::user("a".repeat(400))];
    let mut current = vec![Message::user("a".repeat(400))];
    current.push(Message::user("b".repeat(200)));
    let previous_estimate = estimate_input_tokens("", &previous, 0);
    let current_estimate = estimate_input_tokens("", &current, 0);

    let (input_tokens, source) = project_input_tokens(
        current_estimate,
        Some(ContextUsageReference { input_tokens: 300, estimated_input_tokens: previous_estimate }),
    );

    assert_eq!(input_tokens, 300 + current_estimate - previous_estimate);
    assert_eq!(source, ContextUsageSource::ProviderAnchored);
    assert_eq!(remaining_tokens(input_tokens, Some(1_000)), Some(1_000 - input_tokens));
}

#[test]
fn unknown_window_keeps_absolute_usage_without_inventing_a_ratio() {
    let estimate = estimate_input_tokens("system", &vec![Message::user("hello".into())], 0);
    let (input_tokens, source) = project_input_tokens(estimate, None);
    assert!(input_tokens > 0);
    assert_eq!(remaining_tokens(input_tokens, None), None);
    assert_eq!(source, ContextUsageSource::Estimated);
}

#[test]
fn provider_anchor_projects_audio_duration_delta() {
    let messages = vec![Message::user("same text".into())];
    let previous_estimate = estimate_input_tokens("", &messages, 1_000);
    let (input_tokens, source) = project_input_tokens(
        estimate_input_tokens("", &messages, 3_000),
        Some(ContextUsageReference { input_tokens: 100, estimated_input_tokens: previous_estimate }),
    );

    assert_eq!(input_tokens, 164);
    assert_eq!(source, ContextUsageSource::ProviderAnchored);
}

#[test]
fn legacy_single_step_usage_can_build_a_provider_reference() {
    let messages = vec![Message::user("hello".into())];
    let reference = provider_usage_reference(12, "", &messages, 0).unwrap();
    assert_eq!(reference.input_tokens, 12);
    assert_eq!(reference.estimated_input_tokens, estimate_input_tokens("", &messages, 0));
    assert!(provider_usage_reference(0, "", &messages, 0).is_none());
}

#[test]
fn audio_estimate_grows_at_thirty_two_tokens_per_second() {
    let messages = vec![Message::user("audio".into())];
    let baseline = estimate_input_tokens("", &messages, 0);
    assert_eq!(estimate_input_tokens("", &messages, 1_000) - baseline, 32);
    assert_eq!(estimate_input_tokens("", &messages, 2_500) - baseline, 80);
}

#[test]
fn text_is_counted_at_four_characters_per_token() {
    let messages = vec![Message::user("abcde".into())];
    assert_eq!(estimate_input_tokens("abc", &messages, 0), 2);
    assert_eq!(estimate_input_tokens("", &Vec::new(), 0), 0);
}

#[test]
fn provider_anchor_projects_the_estimate_delta() {
    let reference = ContextUsageReference { input_tokens: 300, estimated_input_tokens: 100 };
    assert_eq!(project_input_tokens(150, Some(reference)), (350, ContextUsageSource::ProviderAnchored));
    assert_eq!(project_input_tokens(0, Some(reference)), (200, ContextUsageSource::ProviderAnchored));
    let large = ContextUsageReference { input_tokens: 10, estimated_input_tokens: 100 };
    assert_eq!(project_input_tokens(0, Some(large)), (0, ContextUsageSource::ProviderAnchored));
    let unusable = ContextUsageReference { input_tokens: 0, estimated_input_tokens: 100 };
    assert_eq!(project_input_tokens(42, Some(unusable)), (42, ContextUsageSource::Estimated));
    assert_eq!(project_input_tokens(42, None), (42, ContextUsageSource::Estimated));
}

#[test]
fn usage_over_the_window_saturates_remaining_capacity_at_zero() {
    assert_eq!(remaining_tokens(1_000, Some(10)), Some(0));
    assert_eq!(remaining_tokens(4, Some(10)), Some(6));
    assert_eq!(remaining_tokens(4, None), None);
}

#[test]
fn reasoning_counts_only_when_it_is_replayed_in_the_transcript() {
    let reasoning = Message {
        role: MessageRole::Assistant,
        text: String::new(),
        reasoning: "thinking".into(),
        images: Vec::new(),
    };
    assert!(messages_replay_reasoning(&vec![reasoning]));
    assert!(!messages_replay_reasoning(&vec![Message::assistant("answer".into())]));
}

#[test]
fn audio_estimate_uses_duration_instead_of_base64_size() {
    let message = |_data: String| Message::user(String::new());
    let small = message("YQ==".into());
    let large = message("YQ==".repeat(100_000));

    assert_eq!(
        estimate_input_tokens("", &vec![small], 10_000),
        estimate_input_tokens("", &vec![large], 10_000)
    );
    assert_eq!(estimate_input_tokens("", &vec![Message::user(String::new())], 10_000), 320);
}
