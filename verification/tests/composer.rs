use onechat::composer::{attachment_capability_error, pasted_image_attachment, temporary_attachments, ClipboardFormat};
use onechat::domain::{
    AttachmentDraft, AttachmentDraftFile, AttachmentFileKind, AttachmentKind, AudioAttachmentMetadata,
    AudioAttachmentSource, ModelCapabilities,
};

const PNG: &[u8] = b"\x89PNG\r\n\x1a\n\x00\x00\x00\rIHDR";

fn draft(id: &str, kind: AttachmentKind, files: Vec<AttachmentDraftFile>) -> AttachmentDraft {
    let audio = (kind == AttachmentKind::Audio)
        .then_some(AudioAttachmentMetadata { duration_ms: 1_000, source: AudioAttachmentSource::Upload });
    AttachmentDraft { id: id.into(), name: format!("{id}.bin"), kind, files, audio }
}

fn file(name: &str, media_type: &str, bytes: &[u8]) -> AttachmentDraftFile {
    AttachmentDraftFile { name: name.into(), kind: AttachmentFileKind::Image, media_type: media_type.into(), bytes: bytes.to_vec() }
}

fn capabilities(vision: bool, audio_input: bool) -> ModelCapabilities {
    ModelCapabilities { vision, audio_input, tools: false, reasoning: false, streaming: true }
}

#[test]
fn the_model_must_accept_the_attachments() {
    let image = draft("a", AttachmentKind::Image, vec![file("content.png", "image/png", PNG)]);
    let audio = draft("b", AttachmentKind::Audio, vec![file("content.wav", "audio/wav", b"RIFF")]);
    let text = draft("c", AttachmentKind::Text, vec![file("notes.txt", "text/plain", b"hi")]);
    let all = vec![image, audio, text];
    assert_eq!(
        attachment_capability_error(&capabilities(false, false), &all),
        Some("The selected model does not accept image, PDF, or audio attachments.")
    );
    assert_eq!(
        attachment_capability_error(&capabilities(false, true), &all),
        Some("The selected model does not accept image or PDF attachments.")
    );
    assert_eq!(
        attachment_capability_error(&capabilities(true, false), &all),
        Some("The selected model does not accept audio attachments.")
    );
    assert_eq!(attachment_capability_error(&capabilities(true, true), &all), None);
    assert_eq!(attachment_capability_error(&capabilities(false, false), &vec![all[2].clone()]), None);
}

#[test]
fn pasted_images_become_attachments() {
    let draft = pasted_image_attachment(ClipboardFormat::Png, PNG.to_vec(), 2, "id-1".into()).unwrap();
    assert_eq!(draft.name, "Pasted image 2.png");
    assert_eq!(draft.kind, AttachmentKind::Image);
    assert_eq!(draft.files[0].name, "content.png");
    assert_eq!(draft.files[0].media_type, "image/png");
    assert!(draft.validate_files().is_ok());

    let mut bmp = std::io::Cursor::new(Vec::new());
    image::RgbImage::new(3, 3).write_to(&mut bmp, image::ImageFormat::Bmp).unwrap();
    let converted = pasted_image_attachment(ClipboardFormat::Bmp, bmp.into_inner(), 3, "id-2".into()).unwrap();
    assert_eq!(converted.name, "Pasted image 3.png");
    assert!(converted.files[0].bytes.starts_with(b"\x89PNG"));

    let mut ico = std::io::Cursor::new(Vec::new());
    image::RgbaImage::new(4, 4).write_to(&mut ico, image::ImageFormat::Ico).unwrap();
    let pasted = pasted_image_attachment(ClipboardFormat::Ico, ico.into_inner(), 4, "id-3".into()).unwrap();
    assert_eq!(pasted.files[0].media_type, "image/png");
    let mut pnm = std::io::Cursor::new(Vec::new());
    image::RgbImage::new(4, 4).write_to(&mut pnm, image::ImageFormat::Pnm).unwrap();
    let pasted = pasted_image_attachment(ClipboardFormat::Pnm, pnm.into_inner(), 5, "id-4".into()).unwrap();
    assert_eq!(pasted.name, "Pasted image 5.png");
}

#[test]
fn pasted_images_that_cannot_be_attached() {
    assert_eq!(
        pasted_image_attachment(ClipboardFormat::Svg, b"<svg/>".to_vec(), 1, "x".into()).unwrap_err(),
        "Pasted SVG images are not supported."
    );
    assert_eq!(
        pasted_image_attachment(ClipboardFormat::Jpeg, PNG.to_vec(), 1, "x".into()).unwrap_err(),
        "Invalid pasted image: file signature does not match its extension"
    );
    assert_eq!(
        pasted_image_attachment(ClipboardFormat::Png, vec![0; 10 * 1024 * 1024 + 1], 1, "x".into()).unwrap_err(),
        "The pasted image exceeds the 10 MiB image limit."
    );
    assert!(pasted_image_attachment(ClipboardFormat::Tiff, b"broken".to_vec(), 1, "x".into())
        .unwrap_err()
        .starts_with("Could not decode pasted image: "));
}

#[test]
fn unsaved_attachments_are_kept_by_path() {
    let drafts = vec![
        draft("a", AttachmentKind::Image, vec![file("content.png", "image/png", PNG)]),
        draft("b", AttachmentKind::Text, vec![file("one.txt", "text/plain", b"1"), file("two.txt", "text/plain", b"2")]),
    ];
    let (attachments, files) = temporary_attachments(&drafts).unwrap();
    assert_eq!(attachments.len(), 2);
    assert_eq!(attachments[1].files[1].path, "attachments/b/two.txt");
    assert_eq!(attachments[1].files[1].media_type, "text/plain");
    assert_eq!(
        files.iter().map(|(path, bytes)| (path.as_str(), bytes.len())).collect::<Vec<_>>(),
        vec![("attachments/a/content.png", PNG.len()), ("attachments/b/one.txt", 1), ("attachments/b/two.txt", 1)]
    );

    let broken = vec![draft("c", AttachmentKind::Text, Vec::new())];
    assert_eq!(temporary_attachments(&broken).unwrap_err(), "invalid attachment c.bin: Attachment has no files");
}

#[test]
fn a_message_takes_at_most_ten_attachments() {
    assert_eq!(onechat::composer::attachment_room(0), Ok(10));
    assert_eq!(onechat::composer::attachment_room(7), Ok(3));
    assert_eq!(onechat::composer::attachment_room(10), Err("A message can contain at most 10 attachments."));
    assert_eq!(onechat::composer::attachment_room(12), Err("A message can contain at most 10 attachments."));
}
