use onechat::attachments::{
    detect_format, is_mp3_frame, load_many, media_type, office_gate, pdf_gate, validate_image,
    voice_attachment, Conversion, LoadManyOptions, OfficeFormat, PdfRendering, RecordingOutput,
    SourceFile,
};
use onechat::domain::{AttachmentKind, AudioAttachmentMetadata, AudioAttachmentSource};

fn options() -> LoadManyOptions {
    LoadManyOptions { remaining: 10, vision: true, audio_input: true, parse_document_images: false }
}

fn source(name: &str, extension: &str, bytes: Vec<u8>) -> SourceFile {
    SourceFile {
        id: format!("attachment-{name}"),
        display: format!("/tmp/{name}"),
        is_dir: false,
        name: Some(name.into()),
        extension: extension.into(),
        size: Ok(bytes.len() as u64),
        bytes: Ok(bytes),
        converted: Conversion::Nothing,
    }
}

#[test]
fn completed_recording_becomes_a_valid_voice_draft() {
    let draft = voice_attachment(
        &RecordingOutput { wav: b"RIFF voice".to_vec(), duration_ms: 1_250, limit: None },
        "attachment-1".into(),
    );

    assert_eq!(draft.name, "Voice message.wav");
    assert_eq!(draft.kind, AttachmentKind::Audio);
    assert_eq!(draft.files[0].media_type, "audio/wav");
    assert_eq!(draft.files[0].bytes, b"RIFF voice");
    assert_eq!(draft.validate_files(), Ok(()));
    assert_eq!(
        draft.audio,
        Some(AudioAttachmentMetadata { duration_ms: 1_250, source: AudioAttachmentSource::Voice })
    );
}

#[test]
fn image_signatures_must_match_their_type() {
    assert_eq!(validate_image(&[0xff, 0xd8, 0xff, 0x00], "image/jpeg"), Ok(()));
    assert_eq!(validate_image(b"\x89PNG\r\n\x1a\nrest", "image/png"), Ok(()));
    assert_eq!(validate_image(b"GIF89a", "image/gif"), Ok(()));
    assert_eq!(validate_image(b"RIFF\0\0\0\0WEBPVP8 ", "image/webp"), Ok(()));
    assert_eq!(
        validate_image(b"GIF89a", "image/png"),
        Err("file signature does not match its extension")
    );
    assert!(validate_image(b"RIFF\0\0\0\0WEBP", "image/webp").is_ok());
    assert!(validate_image(b"RIFF\0\0\0\0WEB", "image/webp").is_err());
    assert!(validate_image(b"anything", "image/bmp").is_err());
}

#[test]
fn audio_formats_are_detected_from_their_headers() {
    assert_eq!(detect_format(b"RIFF\0\0\0\0WAVEfmt "), Some(("wav", "audio/wav")));
    assert_eq!(detect_format(b"ID3\x04"), Some(("mp3", "audio/mpeg")));
    assert!(is_mp3_frame(&[0xff, 0xfb, 0x90, 0x00]));
    assert!(!is_mp3_frame(&[0xff, 0xfb, 0xf0, 0x00]));
    assert_eq!(detect_format(b"not audio"), None);
    assert_eq!(media_type("jpeg"), Some("image/jpeg"));
    assert_eq!(media_type("txt"), None);
}

#[test]
fn load_many_refuses_more_files_than_remaining() {
    let sources = vec![source("a.txt", "txt", b"a".to_vec()), source("b.txt", "txt", b"b".to_vec())];
    let error = load_many(sources, LoadManyOptions { remaining: 1, ..options() }).unwrap_err();
    assert_eq!(error, "Select at most 1 more attachment.");
    let error = load_many(vec![source("a.txt", "txt", b"a".to_vec())], LoadManyOptions { remaining: 0, ..options() })
        .unwrap_err();
    assert_eq!(error, "Select at most 0 more attachments.");
}

#[test]
fn text_and_image_files_become_drafts() {
    let drafts = load_many(
        vec![
            source("notes.txt", "txt", "hello".as_bytes().to_vec()),
            source("pic.png", "png", b"\x89PNG\r\n\x1a\n....".to_vec()),
        ],
        options(),
    )
    .unwrap();
    assert_eq!(drafts.len(), 2);
    assert_eq!(drafts[0].kind, AttachmentKind::Text);
    assert_eq!(drafts[0].files[0].name, "content.txt");
    assert_eq!(drafts[0].files[0].media_type, "text/plain");
    assert_eq!(drafts[1].kind, AttachmentKind::Image);
    assert_eq!(drafts[1].files[0].name, "content.png");
    assert_eq!(drafts[0].validate_files(), Ok(()));
}

#[test]
fn refusals_name_the_file() {
    let mut folder = source("dir", "", Vec::new());
    folder.is_dir = true;
    assert_eq!(load_many(vec![folder], options()).unwrap_err(), "Folders cannot be added as attachments: /tmp/dir");
    let no_vision = LoadManyOptions { vision: false, ..options() };
    assert_eq!(
        load_many(vec![source("pic.png", "png", b"\x89PNG\r\n\x1a\n".to_vec())], no_vision).unwrap_err(),
        "pic.png requires a model with vision support."
    );
    assert_eq!(
        load_many(vec![source("bad.txt", "txt", vec![0xff, 0xfe])], options()).unwrap_err(),
        "bad.txt is not a UTF-8 text file."
    );
    assert_eq!(
        load_many(vec![source("old.doc", "doc", b"x".to_vec())], options()).unwrap_err(),
        "Unsupported Office format: old.doc uses .doc; convert it to .docx."
    );
    let mut big = source("big.txt", "txt", b"x".to_vec());
    big.size = Ok(2 * 1024 * 1024);
    assert_eq!(load_many(vec![big], options()).unwrap_err(), "big.txt exceeds the 1 MiB text attachment limit.");
    assert_eq!(
        load_many(vec![source("pic.png", "png", b"GIF89a".to_vec())], options()).unwrap_err(),
        "Invalid image pic.png: file signature does not match its extension"
    );
}

#[test]
fn pdfs_are_checked_then_rendered_page_by_page() {
    assert_eq!(pdf_gate("a.pdf", 10, false, &Ok(b"%PDF-1.7".to_vec())).unwrap_err(), "a.pdf requires a model with vision support.");
    assert_eq!(pdf_gate("a.pdf", 10, true, &Ok(b"nope".to_vec())).unwrap_err(), "Invalid PDF: a.pdf");
    assert!(pdf_gate("a.pdf", 10, true, &Ok(b"%PDF-1.7".to_vec())).is_ok());
    let mut pdf = source("a.pdf", "pdf", b"%PDF-1.7".to_vec());
    pdf.converted = Conversion::Pdf(PdfRendering { page_count: Ok(2), pages: vec![Ok(vec![1]), Ok(vec![2])] });
    let drafts = load_many(vec![pdf], options()).unwrap();
    assert_eq!(drafts[0].kind, AttachmentKind::Pdf);
    assert_eq!(drafts[0].files[0].name, "page-001.png");
    assert_eq!(drafts[0].files[1].name, "page-002.png");
    let mut many = source("b.pdf", "pdf", b"%PDF-1.7".to_vec());
    many.converted = Conversion::Pdf(PdfRendering { page_count: Ok(21), pages: Vec::new() });
    assert_eq!(load_many(vec![many], options()).unwrap_err(), "b.pdf exceeds the 20-page PDF limit.");
}

#[test]
fn office_files_must_be_safe_archives() {
    assert_eq!(
        office_gate("a.docx", OfficeFormat::Docx, 30 * 1024 * 1024, &Ok(Vec::new())).unwrap_err(),
        "Source file too large: a.docx exceeds the 20 MiB DOCX limit."
    );
    assert_eq!(
        office_gate("a.docx", OfficeFormat::Docx, 8, &Ok(b"\xd0\xcf\x11\xe0\xa1\xb1\x1a\xe1".to_vec())).unwrap_err(),
        "Encrypted DOCX: a.docx is an encrypted Office document."
    );
    let error = office_gate("a.docx", OfficeFormat::Docx, 4, &Ok(b"junk".to_vec())).unwrap_err();
    assert!(error.starts_with("Invalid DOCX: a.docx is not a valid ZIP archive ("));
}
