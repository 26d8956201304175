use std::io::Write;
use onechat::documents::{extract_images, from_resource, DocumentResource, MediaFormat};
use onechat::domain::AttachmentFileKind;

const PNG: &[u8] = b"\x89PNG\r\n\x1a\n\x00\x00\x00\rIHDR";

fn resource(id: &str, filename: Option<&str>, mime_type: Option<&str>, data: Vec<u8>) -> DocumentResource {
    DocumentResource {
        id: id.into(),
        filename: filename.map(String::from),
        mime_type: mime_type.map(String::from),
        data,
    }
}

#[test]
fn formats_come_from_the_extension_then_the_media_type() {
    assert_eq!(from_resource(&Some("photo.JPEG".into()), &None), MediaFormat::Jpeg);
    assert_eq!(from_resource(&Some("scan.tif".into()), &Some("image/png".into())), MediaFormat::Tiff);
    assert_eq!(from_resource(&None, &Some("image/png".into())), MediaFormat::Png);
    assert_eq!(from_resource(&Some("drawing.x".into()), &Some("image/x-emf".into())), MediaFormat::Emf);
    assert_eq!(from_resource(&Some("noextension".into()), &None), MediaFormat::Unknown);
    assert_eq!(from_resource(&Some("archive.png.gz".into()), &Some("image/gif".into())), MediaFormat::Gif);
    assert_eq!(MediaFormat::Bmp.extension(), "png");
    assert_eq!(MediaFormat::Unknown.extension(), "bin");
}

#[test]
fn images_are_named_in_identifier_order_and_invalid_ones_are_dropped() {
    let resources = vec![
        resource("rId3", Some("media/picture.jpeg"), None, b"not a jpeg".to_vec()),
        resource("rId1", Some("media/image1.png"), None, PNG.to_vec()),
        resource("rId2", Some("media/vector.svg"), Some("image/svg+xml"), b"<svg/>".to_vec()),
    ];
    let (names, files) = extract_images(resources);
    assert_eq!(
        names,
        vec![
            ("rId1".to_string(), "image-001.png".to_string()),
            ("rId2".to_string(), "image-002.svg".to_string()),
            ("rId3".to_string(), "image-003.jpg".to_string()),
        ]
    );
    assert_eq!(files.len(), 1);
    assert_eq!(files[0].name, "image-001.png");
    assert_eq!(files[0].kind, AttachmentFileKind::Image);
    assert_eq!(files[0].media_type, "image/png");
    assert_eq!(files[0].bytes, PNG.to_vec());
}

#[test]
fn bitmaps_are_converted_to_png() {
    let image = image::RgbImage::new(2, 2);
    let mut bmp = std::io::Cursor::new(Vec::new());
    image.write_to(&mut bmp, image::ImageFormat::Bmp).unwrap();
    let (names, files) = extract_images(vec![resource("a", Some("pic.bmp"), None, bmp.into_inner())]);
    assert_eq!(names, vec![("a".to_string(), "image-001.png".to_string())]);
    assert_eq!(files.len(), 1);
    assert_eq!(files[0].media_type, "image/png");
    assert!(files[0].bytes.starts_with(b"\x89PNG\r\n\x1a\n"));

    let (_, broken) = extract_images(vec![resource("b", Some("pic.bmp"), None, b"BM broken".to_vec())]);
    assert!(broken.is_empty());
}

#[test]
fn at_most_twenty_images_are_kept() {
    let resources = (0..22)
        .map(|index| resource(&format!("r{index:02}"), Some("i.png"), None, PNG.to_vec()))
        .collect::<Vec<_>>();
    let (names, files) = extract_images(resources);
    assert_eq!(names.len(), 22);
    assert_eq!(names[21], ("r21".to_string(), "image-022.png".to_string()));
    assert_eq!(files.len(), 20);
    assert_eq!(files[19].name, "image-020.png");
}

#[test]
fn oversized_images_are_skipped() {
    let mut large = PNG.to_vec();
    large.resize(10 * 1024 * 1024 + 1, 0);
    let (names, files) = extract_images(vec![
        resource("a", Some("big.png"), None, large),
        resource("b", Some("small.png"), None, PNG.to_vec()),
    ]);
    assert_eq!(names.len(), 2);
    assert_eq!(files.len(), 1);
    assert_eq!(files[0].name, "image-002.png");
}

#[test]
fn section_markers_are_only_enabled_for_sectioned_formats() {
    assert!(!onechat::documents::section_markers(onechat::attachments::OfficeFormat::Docx));
    assert!(onechat::documents::section_markers(onechat::attachments::OfficeFormat::Xlsx));
    assert!(onechat::documents::section_markers(onechat::attachments::OfficeFormat::Pptx));
}

#[test]
fn bytes_that_are_not_an_office_document_are_refused_by_the_parser() {
    let refused = onechat::documents::parse_document(b"not an office file", onechat::attachments::OfficeFormat::Docx);
    match refused {
        Err(conversion) => {
            assert!(conversion.parsed.is_err());
            assert!(conversion.images.is_empty());
        }
        Ok(_) => panic!("parsed garbage"),
    }
}

fn minimal_docx(text: &str) -> Vec<u8> {
    let mut writer = zip::ZipWriter::new(std::io::Cursor::new(Vec::new()));
    let options = zip::write::SimpleFileOptions::default();
    let files = [
        (
            "[Content_Types].xml",
            r#"<?xml version="1.0" encoding="UTF-8" standalone="yes"?><Types xmlns="http://schemas.openxmlformats.org/package/2006/content-types"><Default Extension="rels" ContentType="application/vnd.openxmlformats-package.relationships+xml"/><Default Extension="xml" ContentType="application/xml"/><Override PartName="/word/document.xml" ContentType="application/vnd.openxmlformats-officedocument.wordprocessingml.document.main+xml"/></Types>"#.to_string(),
        ),
        (
            "_rels/.rels",
            r#"<?xml version="1.0" encoding="UTF-8" standalone="yes"?><Relationships xmlns="http://schemas.openxmlformats.org/package/2006/relationships"><Relationship Id="rId1" Type="http://schemas.openxmlformats.org/officeDocument/2006/relationships/officeDocument" Target="word/document.xml"/></Relationships>"#.to_string(),
        ),
        (
            "word/document.xml",
            format!(r#"<?xml version="1.0" encoding="UTF-8" standalone="yes"?><w:document xmlns:w="http://schemas.openxmlformats.org/wordprocessingml/2006/main"><w:body><w:p><w:r><w:t>{text}</w:t></w:r></w:p></w:body></w:document>"#),
        ),
    ];
    for (name, content) in files {
        writer.start_file(name, options).unwrap();
        writer.write_all(content.as_bytes()).unwrap();
    }
    writer.finish().unwrap().into_inner()
}

#[test]
fn a_document_is_parsed_and_rendered() {
    let bytes = minimal_docx("Hello from a document");
    let mut document = match onechat::documents::parse_document(&bytes, onechat::attachments::OfficeFormat::Docx) {
        Ok(document) => document,
        Err(conversion) => panic!("not parsed: {:?}", conversion.parsed.err().map(|f| f.message)),
    };
    assert!(onechat::documents::take_document_images(&mut document).is_empty());
    let markdown = onechat::documents::render_document(&document.document, onechat::attachments::OfficeFormat::Docx).unwrap();
    assert!(markdown.contains("Hello from a document"));

    let other = onechat::documents::parse_document(&bytes, onechat::attachments::OfficeFormat::Xlsx);
    match other {
        Err(conversion) => assert!(matches!(conversion.parsed, Ok(onechat::attachments::OfficeFormat::Docx))),
        Ok(_) => panic!("format not checked"),
    }
}
