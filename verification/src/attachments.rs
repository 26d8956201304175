//! The rules for files that are attached to a message: which files are accepted, how large
//! they may be, and what their contents must look like.
use vstd::prelude::*;

use crate::domain::{
    AttachmentDraft, AttachmentDraftFile, AttachmentFileKind, AttachmentKind,
    AudioAttachmentMetadata, AudioAttachmentSource,
};
use crate::text::{chars_of, decimal, push_all, push_str, string_of, u64_decimal};
use crate::domain::{DraftFileView, DraftView, draft_file_views, draft_views};
use vstd::string::StrSliceExecFns;
use rodio::Source;

verus! {

pub const MAX_ATTACHMENTS: usize = 10;

pub const MAX_AUDIO_BYTES: u64 = 10485760;

pub const MAX_IMAGE_BYTES: u64 = 10485760;

pub const MAX_TEXT_BYTES: u64 = 1048576;

pub const MAX_PDF_BYTES: u64 = 20971520;

pub const MAX_PDF_PAGES: usize = 20;

pub const MAX_OFFICE_BYTES: u64 = 20971520;

pub const MAX_ENTRIES: usize = 4096;

pub const MAX_ENTRY_BYTES: u64 = 33554432;

pub const MAX_UNCOMPRESSED_BYTES: u64 = 268435456;

pub const MAX_DOCUMENT_IMAGES: usize = 20;

pub const MAX_DOCUMENT_IMAGE_BYTES: u64 = 52428800;

/// Whether `bytes` starts with `prefix`.
pub open spec fn starts_with(bytes: Seq<u8>, prefix: Seq<u8>) -> bool {
    prefix.len() <= bytes.len() && bytes.take(prefix.len() as int) == prefix
}

pub open spec fn jpeg_signature() -> Seq<u8> {
    seq![0xffu8, 0xd8u8, 0xffu8]
}

pub open spec fn png_signature() -> Seq<u8> {
    seq![0x89u8, 0x50u8, 0x4eu8, 0x47u8, 0x0du8, 0x0au8, 0x1au8, 0x0au8]
}

pub open spec fn gif87_signature() -> Seq<u8> {
    seq![0x47u8, 0x49u8, 0x46u8, 0x38u8, 0x37u8, 0x61u8]
}

pub open spec fn gif89_signature() -> Seq<u8> {
    seq![0x47u8, 0x49u8, 0x46u8, 0x38u8, 0x39u8, 0x61u8]
}

/// `RIFF`.
pub open spec fn riff_signature() -> Seq<u8> {
    seq![0x52u8, 0x49u8, 0x46u8, 0x46u8]
}

/// `WEBP`.
pub open spec fn webp_tag() -> Seq<u8> {
    seq![0x57u8, 0x45u8, 0x42u8, 0x50u8]
}

/// `WAVE`.
pub open spec fn wave_tag() -> Seq<u8> {
    seq![0x57u8, 0x41u8, 0x56u8, 0x45u8]
}

/// `ID3`.
pub open spec fn id3_signature() -> Seq<u8> {
    seq![0x49u8, 0x44u8, 0x33u8]
}

/// `%PDF-`.
pub open spec fn pdf_signature() -> Seq<u8> {
    seq![0x25u8, 0x50u8, 0x44u8, 0x46u8, 0x2du8]
}

/// The signature of a compound file, which is how an encrypted Office document is stored.
pub open spec fn cfb_signature() -> Seq<u8> {
    seq![0xd0u8, 0xcfu8, 0x11u8, 0xe0u8, 0xa1u8, 0xb1u8, 0x1au8, 0xe1u8]
}

/// A RIFF container whose form type, at bytes 8 to 11, is `tag`.
pub open spec fn riff_form(bytes: Seq<u8>, tag: Seq<u8>) -> bool {
    bytes.len() >= 12 && starts_with(bytes, riff_signature()) && bytes.subrange(8, 12) == tag
}

/// Whether the bytes carry the signature of the image type `media_type`.
pub open spec fn image_signature_matches(bytes: Seq<u8>, media_type: Seq<char>) -> bool {
    if media_type == "image/jpeg"@ {
        starts_with(bytes, jpeg_signature())
    } else if media_type == "image/png"@ {
        starts_with(bytes, png_signature())
    } else if media_type == "image/gif"@ {
        starts_with(bytes, gif87_signature()) || starts_with(bytes, gif89_signature())
    } else if media_type == "image/webp"@ {
        riff_form(bytes, webp_tag())
    } else {
        false
    }
}

pub open spec fn signature_mismatch() -> Seq<char> {
    "file signature does not match its extension"@
}

fn prefix_matches(bytes: &[u8], prefix: &[u8]) -> (r: bool)
    ensures
        r == starts_with(bytes@, prefix@),
{
    if prefix.len() > bytes.len() {
        return false;
    }
    let mut i: usize = 0;
    while i < prefix.len()
        invariant
            0 <= i <= prefix@.len(),
            prefix@.len() <= bytes@.len(),
            forall|j: int| 0 <= j < i ==> bytes@[j] == prefix@[j],
        decreases prefix.len() - i,
    {
        if bytes[i] != prefix[i] {
            assert(bytes@.take(prefix@.len() as int)[i as int] != prefix@[i as int]);
            return false;
        }
        i += 1;
    }
    assert(bytes@.take(prefix@.len() as int) =~= prefix@);
    true
}

fn is_riff_form(bytes: &[u8], tag: &[u8]) -> (r: bool)
    requires
        tag@.len() == 4,
    ensures
        r == riff_form(bytes@, tag@),
{
    if bytes.len() < 12 {
        return false;
    }
    let riff: [u8; 4] = [0x52, 0x49, 0x46, 0x46];
    assert(riff@ == riff_signature());
    if !prefix_matches(bytes, riff.as_slice()) {
        return false;
    }
    let same = bytes[8] == tag[0] && bytes[9] == tag[1] && bytes[10] == tag[2] && bytes[11] == tag[3];
    if same {
        assert(bytes@.subrange(8, 12) =~= tag@);
    } else {
        assert(bytes@.subrange(8, 12) != tag@) by {
            if bytes@.subrange(8, 12) == tag@ {
                assert(bytes@.subrange(8, 12)[0] == bytes@[8]);
                assert(bytes@.subrange(8, 12)[1] == bytes@[9]);
                assert(bytes@.subrange(8, 12)[2] == bytes@[10]);
                assert(bytes@.subrange(8, 12)[3] == bytes@[11]);
            }
        }
    }
    same
}

/// Whether two texts are equal.
pub fn same_str(a: &str, b: &str) -> (r: bool)
    ensures
        r == (a@ == b@),
{
    let x = chars_of(a);
    let y = chars_of(b);
    crate::text::chars_equal(&x, &y)
}

/// Checks that an image's bytes start with the signature of its declared type.
pub fn validate_image(bytes: &[u8], media_type: &str) -> (r: Result<(), &'static str>)
    ensures
        image_signature_matches(bytes@, media_type@) ==> r is Ok,
        !image_signature_matches(bytes@, media_type@) ==> (r matches Err(e) && e@ == signature_mismatch()),
{
    let valid = if same_str(media_type, "image/jpeg") {
        let sig: [u8; 3] = [0xff, 0xd8, 0xff];
        assert(sig@ == jpeg_signature());
        prefix_matches(bytes, sig.as_slice())
    } else if same_str(media_type, "image/png") {
        let sig: [u8; 8] = [0x89, 0x50, 0x4e, 0x47, 0x0d, 0x0a, 0x1a, 0x0a];
        assert(sig@ == png_signature());
        prefix_matches(bytes, sig.as_slice())
    } else if same_str(media_type, "image/gif") {
        let a: [u8; 6] = [0x47, 0x49, 0x46, 0x38, 0x37, 0x61];
        let b: [u8; 6] = [0x47, 0x49, 0x46, 0x38, 0x39, 0x61];
        assert(a@ == gif87_signature());
        assert(b@ == gif89_signature());
        prefix_matches(bytes, a.as_slice()) || prefix_matches(bytes, b.as_slice())
    } else if same_str(media_type, "image/webp") {
        let tag: [u8; 4] = [0x57, 0x45, 0x42, 0x50];
        assert(tag@ == webp_tag());
        is_riff_form(bytes, tag.as_slice())
    } else {
        false
    };
    if valid {
        Ok(())
    } else {
        Err("file signature does not match its extension")
    }
}


/// The image type of an extension.
pub open spec fn image_media_type(extension: Seq<char>) -> Option<Seq<char>> {
    if extension == "jpg"@ || extension == "jpeg"@ {
        Some("image/jpeg"@)
    } else if extension == "png"@ {
        Some("image/png"@)
    } else if extension == "gif"@ {
        Some("image/gif"@)
    } else if extension == "webp"@ {
        Some("image/webp"@)
    } else {
        None
    }
}

/// The extension an image of a type is stored with.
pub open spec fn canonical_image_extension(media_type: Seq<char>) -> Seq<char> {
    if media_type == "image/jpeg"@ {
        "jpg"@
    } else if media_type == "image/png"@ {
        "png"@
    } else if media_type == "image/gif"@ {
        "gif"@
    } else {
        "webp"@
    }
}

/// The image type of an extension.
pub fn media_type(extension: &str) -> (r: Option<&'static str>)
    ensures
        match image_media_type(extension@) {
            Some(t) => r matches Some(s) && s@ == t,
            None => r is None,
        },
{
    if same_str(extension, "jpg") || same_str(extension, "jpeg") {
        Some("image/jpeg")
    } else if same_str(extension, "png") {
        Some("image/png")
    } else if same_str(extension, "gif") {
        Some("image/gif")
    } else if same_str(extension, "webp") {
        Some("image/webp")
    } else {
        None
    }
}

/// The extension an image of a type is stored with.
pub fn canonical_extension(media_type: &str) -> (r: &'static str)
    requires
        media_type@ == "image/jpeg"@ || media_type@ == "image/png"@ || media_type@ == "image/gif"@
            || media_type@ == "image/webp"@,
    ensures
        r@ == canonical_image_extension(media_type@),
{
    if same_str(media_type, "image/jpeg") {
        "jpg"
    } else if same_str(media_type, "image/png") {
        "png"
    } else if same_str(media_type, "image/gif") {
        "gif"
    } else {
        "webp"
    }
}

/// Audio extensions that are accepted.
pub open spec fn audio_extension(extension: Seq<char>) -> bool {
    extension == "wav"@ || extension == "mp3"@
}

pub fn is_supported_extension(extension: &str) -> (r: bool)
    ensures
        r == audio_extension(extension@),
{
    same_str(extension, "wav") || same_str(extension, "mp3")
}

/// The header of an MPEG audio frame: a sync word, a valid version, layer III, a valid
/// bitrate and a valid sample rate.
pub open spec fn mp3_frame(bytes: Seq<u8>) -> bool {
    &&& bytes.len() >= 4
    &&& bytes[0] == 0xff
    &&& bytes[1] & 0xe0 == 0xe0
    &&& bytes[1] & 0x18 != 0x08
    &&& bytes[1] & 0x06 == 0x02
    &&& bytes[2] & 0xf0 != 0xf0
    &&& bytes[2] & 0x0c != 0x0c
}

pub fn is_mp3_frame(bytes: &[u8]) -> (r: bool)
    ensures
        r == mp3_frame(bytes@),
{
    bytes.len() >= 4 && bytes[0] == 0xff && bytes[1] & 0xe0 == 0xe0 && bytes[1] & 0x18 != 0x08
        && bytes[1] & 0x06 == 0x02 && bytes[2] & 0xf0 != 0xf0 && bytes[2] & 0x0c != 0x0c
}

/// The audio format the bytes carry: a RIFF `WAVE` file, or MP3 with an ID3 tag or a frame
/// header at the start.
pub open spec fn audio_format(bytes: Seq<u8>) -> Option<(Seq<char>, Seq<char>)> {
    if riff_form(bytes, wave_tag()) {
        Some(("wav"@, "audio/wav"@))
    } else if starts_with(bytes, id3_signature()) || mp3_frame(bytes) {
        Some(("mp3"@, "audio/mpeg"@))
    } else {
        None
    }
}

pub fn detect_format(bytes: &[u8]) -> (r: Option<(&'static str, &'static str)>)
    ensures
        match audio_format(bytes@) {
            Some(f) => r matches Some(p) && p.0@ == f.0 && p.1@ == f.1,
            None => r is None,
        },
{
    let wave: [u8; 4] = [0x57, 0x41, 0x56, 0x45];
    assert(wave@ == wave_tag());
    let id3: [u8; 3] = [0x49, 0x44, 0x33];
    assert(id3@ == id3_signature());
    if is_riff_form(bytes, wave.as_slice()) {
        Some(("wav", "audio/wav"))
    } else if prefix_matches(bytes, id3.as_slice()) || is_mp3_frame(bytes) {
        Some(("mp3", "audio/mpeg"))
    } else {
        None
    }
}

/// The Office formats that are read.
#[derive(Clone, Copy, Debug, PartialEq, Eq, Structural)]
pub enum OfficeFormat {
    Docx,
    Xlsx,
    Pptx,
}

/// What an extension makes of a file, as far as Office formats go.
pub enum OfficeRoute {
    Read(OfficeFormat),
    Unsupported(&'static str),
    NotOffice,
}

pub open spec fn office_route(extension: Seq<char>) -> Option<Result<OfficeFormat, Seq<char>>> {
    if extension == "docx"@ {
        Some(Ok(OfficeFormat::Docx))
    } else if extension == "xlsx"@ {
        Some(Ok(OfficeFormat::Xlsx))
    } else if extension == "pptx"@ {
        Some(Ok(OfficeFormat::Pptx))
    } else if extension == "doc"@ || extension == "docm"@ {
        Some(Err("docx"@))
    } else if extension == "xls"@ || extension == "xlsm"@ {
        Some(Err("xlsx"@))
    } else if extension == "ppt"@ || extension == "pptm"@ {
        Some(Err("pptx"@))
    } else {
        None
    }
}

pub fn office_format(extension: &str) -> (r: OfficeRoute)
    ensures
        match office_route(extension@) {
            Some(Ok(f)) => r matches OfficeRoute::Read(g) && g == f,
            Some(Err(t)) => r matches OfficeRoute::Unsupported(u) && u@ == t,
            None => r is NotOffice,
        },
{
    if same_str(extension, "docx") {
        OfficeRoute::Read(OfficeFormat::Docx)
    } else if same_str(extension, "xlsx") {
        OfficeRoute::Read(OfficeFormat::Xlsx)
    } else if same_str(extension, "pptx") {
        OfficeRoute::Read(OfficeFormat::Pptx)
    } else if same_str(extension, "doc") || same_str(extension, "docm") {
        OfficeRoute::Unsupported("docx")
    } else if same_str(extension, "xls") || same_str(extension, "xlsm") {
        OfficeRoute::Unsupported("xlsx")
    } else if same_str(extension, "ppt") || same_str(extension, "pptm") {
        OfficeRoute::Unsupported("pptx")
    } else {
        OfficeRoute::NotOffice
    }
}

pub open spec fn format_label(format: OfficeFormat) -> Seq<char> {
    match format {
        OfficeFormat::Docx => "DOCX"@,
        OfficeFormat::Xlsx => "XLSX"@,
        OfficeFormat::Pptx => "PPTX"@,
    }
}

pub fn label(format: OfficeFormat) -> (r: &'static str)
    ensures
        r@ == format_label(format),
{
    match format {
        OfficeFormat::Docx => "DOCX",
        OfficeFormat::Xlsx => "XLSX",
        OfficeFormat::Pptx => "PPTX",
    }
}

/// The entry that holds a format's main part.
pub open spec fn main_entry_name(format: OfficeFormat) -> Seq<char> {
    match format {
        OfficeFormat::Docx => "word/document.xml"@,
        OfficeFormat::Xlsx => "xl/workbook.xml"@,
        OfficeFormat::Pptx => "ppt/presentation.xml"@,
    }
}

pub fn main_entry(format: OfficeFormat) -> (r: &'static str)
    ensures
        r@ == main_entry_name(format),
{
    match format {
        OfficeFormat::Docx => "word/document.xml",
        OfficeFormat::Xlsx => "xl/workbook.xml",
        OfficeFormat::Pptx => "ppt/presentation.xml",
    }
}

/// The entries every document of a format must have, in the order they are looked for.
pub open spec fn required_entries(format: OfficeFormat) -> Seq<Seq<char>> {
    seq!["[Content_Types].xml"@, "_rels/.rels"@, main_entry_name(format)]
}

pub open spec fn unsupported_message(name: Seq<char>, extension: Seq<char>, target: Seq<char>) -> Seq<char> {
    "Unsupported Office format: "@ + name + " uses ."@ + extension + "; convert it to ."@ + target + "."@
}

/// The refusal of an Office format that is not read.
pub fn unsupported(name: &str, extension: &str, target: &str) -> (r: String)
    ensures
        r@ == unsupported_message(name@, extension@, target@),
{
    let mut out: Vec<char> = Vec::new();
    push_str(&mut out, "Unsupported Office format: ");
    push_str(&mut out, name);
    push_str(&mut out, " uses .");
    push_str(&mut out, extension);
    push_str(&mut out, "; convert it to .");
    push_str(&mut out, target);
    push_str(&mut out, ".");
    assert(out@ =~= unsupported_message(name@, extension@, target@));
    string_of(&out)
}


/// An entry of a ZIP archive as its central directory describes it.
#[derive(Debug)]
pub struct ZipEntry {
    pub name: String,
    pub size: u64,
    pub encrypted: bool,
}

pub struct ZipEntryView {
    pub name: Seq<char>,
    pub size: u64,
    pub encrypted: bool,
}

impl View for ZipEntry {
    type V = ZipEntryView;

    open spec fn view(&self) -> ZipEntryView {
        ZipEntryView { name: self.name@, size: self.size, encrypted: self.encrypted }
    }
}

pub open spec fn entry_result_views(entries: Seq<Result<ZipEntry, String>>) -> Seq<Result<ZipEntryView, Seq<char>>> {
    entries.map_values(
        |e: Result<ZipEntry, String>|
            match e {
                Ok(z) => Ok(z@),
                Err(m) => Err(m@),
            },
    )
}

pub open spec fn listing_view(r: Result<Vec<Result<ZipEntry, String>>, String>) -> Result<
    Seq<Result<ZipEntryView, Seq<char>>>,
    Seq<char>,
> {
    match r {
        Ok(v) => Ok(entry_result_views(v@)),
        Err(e) => Err(e@),
    }
}

/// What the ZIP reader finds in an archive: the reason it could not be opened, or each entry
/// of its central directory, in order, or the reason that entry could not be read.
pub uninterp spec fn zip_entries(bytes: Seq<u8>) -> Result<Seq<Result<ZipEntryView, Seq<char>>>, Seq<char>>;

/// Lists the entries of a ZIP archive with `zip::ZipArchive::new`, `len`, `by_index_raw`
/// and, for each entry, `name`, `size` and `encrypted`. The listing is named, not stated:
/// the contract claims only that it is a function of the bytes.
#[verifier::external_body]
fn zip_listing(bytes: &Vec<u8>) -> (r: Result<Vec<Result<ZipEntry, String>>, String>)
    ensures
        listing_view(r) == zip_entries(bytes@),
{
    let mut archive = match zip::ZipArchive::new(std::io::Cursor::new(bytes.as_slice())) {
        Ok(archive) => archive,
        Err(error) => return Err(error.to_string()),
    };
    let mut entries = Vec::with_capacity(archive.len());
    for index in 0..archive.len() {
        entries.push(match archive.by_index_raw(index) {
            Ok(file) => match file.name() {
                Ok(name) => Ok(ZipEntry { name: name.into_owned(), size: file.size(), encrypted: file.encrypted() }),
                Err(error) => Err(error.to_string()),
            },
            Err(error) => Err(error.to_string()),
        });
    }
    Ok(entries)
}

pub open spec fn encrypted_message(label: Seq<char>, name: Seq<char>) -> Seq<char> {
    "Encrypted "@ + label + ": "@ + name + " is an encrypted Office document."@
}

/// The checks of the entries from index `k` on, `total` being the size of those before.
pub open spec fn scan_entries(
    entries: Seq<Result<ZipEntryView, Seq<char>>>,
    k: int,
    total: int,
    label: Seq<char>,
    name: Seq<char>,
) -> Result<(), Seq<char>>
    decreases entries.len() - k,
{
    if k < 0 || k >= entries.len() {
        Ok(())
    } else {
        match entries[k] {
            Err(e) => Err("Invalid "@ + label + ": "@ + name + " has a damaged ZIP entry ("@ + e + ")."@),
            Ok(f) => if f.encrypted {
                Err(encrypted_message(label, name))
            } else if f.size > MAX_ENTRY_BYTES {
                Err(
                    "Unsafe "@ + label + " archive: "@ + name
                        + " contains a ZIP entry larger than 32 MiB: "@ + f.name + "."@,
                )
            } else if total + f.size > u64::MAX {
                Err(
                    "Unsafe "@ + label + " archive: "@ + name
                        + " declares an invalid total uncompressed ZIP size."@,
                )
            } else if total + f.size > MAX_UNCOMPRESSED_BYTES {
                Err(
                    "Unsafe "@ + label + " archive: "@ + name
                        + " exceeds the 256 MiB uncompressed ZIP limit."@,
                )
            } else {
                scan_entries(entries, k + 1, total + f.size, label, name)
            },
        }
    }
}

/// Whether a listed entry was read and has this name.
pub open spec fn entry_named(e: Result<ZipEntryView, Seq<char>>, entry: Seq<char>) -> bool {
    e matches Ok(f) && f.name == entry
}

/// Whether an archive has an entry with this name.
pub open spec fn has_entry(entries: Seq<Result<ZipEntryView, Seq<char>>>, entry: Seq<char>) -> bool {
    exists|k: int| 0 <= k < entries.len() && entry_named(#[trigger] entries[k], entry)
}

/// The first required entry, from index `k` of `required` on, that the archive lacks.
pub open spec fn first_missing(
    entries: Seq<Result<ZipEntryView, Seq<char>>>,
    required: Seq<Seq<char>>,
    k: int,
) -> Option<Seq<char>>
    decreases required.len() - k,
{
    if k < 0 || k >= required.len() {
        None
    } else if !has_entry(entries, required[k]) {
        Some(required[k])
    } else {
        first_missing(entries, required, k + 1)
    }
}

/// Whether an Office archive is safe to parse: it opens, has at most 4096 entries, none
/// encrypted or larger than 32 MiB, at most 256 MiB in all, and every required entry.
pub open spec fn archive_check(bytes: Seq<u8>, name: Seq<char>, format: OfficeFormat) -> Result<(), Seq<char>> {
    let label = format_label(format);
    match zip_entries(bytes) {
        Err(e) => Err("Invalid "@ + label + ": "@ + name + " is not a valid ZIP archive ("@ + e + ")."@),
        Ok(entries) => if entries.len() > MAX_ENTRIES {
            Err(
                "Unsafe "@ + label + " archive: "@ + name
                    + " contains too many ZIP entries (maximum 4096)."@,
            )
        } else {
            match scan_entries(entries, 0, 0, label, name) {
                Err(e) => Err(e),
                Ok(()) => match first_missing(entries, required_entries(format), 0) {
                    Some(missing) => Err(
                        "Invalid "@ + label + ": "@ + name + " is missing required OOXML entry "@
                            + missing + "."@,
                    ),
                    None => Ok(()),
                },
            }
        },
    }
}

/// Two texts joined.
pub fn join2(a: &str, b: &str) -> (r: String)
    ensures
        r@ == a@ + b@,
{
    let mut out: Vec<char> = Vec::new();
    push_str(&mut out, a);
    push_str(&mut out, b);
    string_of(&out)
}

/// Three texts joined.
pub fn join3(a: &str, b: &str, c: &str) -> (r: String)
    ensures
        r@ == a@ + b@ + c@,
{
    let mut out: Vec<char> = Vec::new();
    push_str(&mut out, a);
    push_str(&mut out, b);
    push_str(&mut out, c);
    assert(out@ =~= a@ + b@ + c@);
    string_of(&out)
}

/// Four texts joined.
pub fn join4(a: &str, b: &str, c: &str, d: &str) -> (r: String)
    ensures
        r@ == a@ + b@ + c@ + d@,
{
    let mut out: Vec<char> = Vec::new();
    push_str(&mut out, a);
    push_str(&mut out, b);
    push_str(&mut out, c);
    push_str(&mut out, d);
    assert(out@ =~= a@ + b@ + c@ + d@);
    string_of(&out)
}

/// Five texts joined.
pub fn join5(a: &str, b: &str, c: &str, d: &str, e: &str) -> (r: String)
    ensures
        r@ == a@ + b@ + c@ + d@ + e@,
{
    let mut out: Vec<char> = Vec::new();
    push_str(&mut out, a);
    push_str(&mut out, b);
    push_str(&mut out, c);
    push_str(&mut out, d);
    push_str(&mut out, e);
    assert(out@ =~= a@ + b@ + c@ + d@ + e@);
    string_of(&out)
}

/// Six texts joined.
pub fn join6(a: &str, b: &str, c: &str, d: &str, e: &str, f: &str) -> (r: String)
    ensures
        r@ == a@ + b@ + c@ + d@ + e@ + f@,
{
    let mut out: Vec<char> = Vec::new();
    push_str(&mut out, a);
    push_str(&mut out, b);
    push_str(&mut out, c);
    push_str(&mut out, d);
    push_str(&mut out, e);
    push_str(&mut out, f);
    assert(out@ =~= a@ + b@ + c@ + d@ + e@ + f@);
    string_of(&out)
}

/// Seven texts joined.
pub fn join7(a: &str, b: &str, c: &str, d: &str, e: &str, f: &str, g: &str) -> (r: String)
    ensures
        r@ == a@ + b@ + c@ + d@ + e@ + f@ + g@,
{
    let mut out: Vec<char> = Vec::new();
    push_str(&mut out, a);
    push_str(&mut out, b);
    push_str(&mut out, c);
    push_str(&mut out, d);
    push_str(&mut out, e);
    push_str(&mut out, f);
    push_str(&mut out, g);
    assert(out@ =~= a@ + b@ + c@ + d@ + e@ + f@ + g@);
    string_of(&out)
}

fn has_entry_named(names: &Vec<String>, entry: &str) -> (r: bool)
    ensures
        r == exists|k: int| 0 <= k < names@.len() && (#[trigger] names@[k])@ == entry@,
{
    let mut k: usize = 0;
    while k < names.len()
        invariant
            0 <= k <= names@.len(),
            forall|j: int| 0 <= j < k ==> (#[trigger] names@[j])@ != entry@,
        decreases names.len() - k,
    {
        if same_str(names[k].as_str(), entry) {
            return true;
        }
        k += 1;
    }
    false
}

/// Checks that an Office archive is safe to parse.
fn inspect_archive(bytes: &Vec<u8>, name: &str, format: OfficeFormat) -> (r: Result<(), String>)
    ensures
        match archive_check(bytes@, name@, format) {
            Ok(()) => r is Ok,
            Err(e) => r matches Err(s) && s@ == e,
        },
{
    let label = label(format);
    let entries = match zip_listing(bytes) {
        Ok(entries) => entries,
        Err(error) => {
            return Err(join7("Invalid ", label, ": ", name, " is not a valid ZIP archive (", error.as_str(), ")."));
        },
    };
    let ghost list = entry_result_views(entries@);
    if entries.len() > MAX_ENTRIES {
        return Err(join5("Unsafe ", label, " archive: ", name, " contains too many ZIP entries (maximum 4096)."));
    }
    let mut names: Vec<String> = Vec::new();
    let mut total: u64 = 0;
    let mut k: usize = 0;
    while k < entries.len()
        invariant
            0 <= k <= entries@.len(),
            list == entry_result_views(entries@),
            zip_entries(bytes@) == Ok::<Seq<Result<ZipEntryView, Seq<char>>>, Seq<char>>(list),
            list.len() <= MAX_ENTRIES,
            label@ == format_label(format),
            scan_entries(list, 0, 0, label@, name@) == scan_entries(list, k as int, total as int, label@, name@),
            names@.len() == k,
            forall|j: int| 0 <= j < k ==> entry_named(#[trigger] list[j], names@[j]@),
        decreases entries.len() - k,
    {
        match &entries[k] {
            Err(error) => {
                return Err(join7("Invalid ", label, ": ", name, " has a damaged ZIP entry (", error.as_str(), ")."));
            },
            Ok(file) => {
                if file.encrypted {
                    return Err(join5("Encrypted ", label, ": ", name, " is an encrypted Office document."));
                }
                if file.size > MAX_ENTRY_BYTES {
                    return Err(join7("Unsafe ", label, " archive: ", name, " contains a ZIP entry larger than 32 MiB: ", file.name.as_str(), "."));
                }
                match total.checked_add(file.size) {
                    None => {
                        return Err(join5("Unsafe ", label, " archive: ", name, " declares an invalid total uncompressed ZIP size."));
                    },
                    Some(t) => {
                        total = t;
                    },
                }
                if total > MAX_UNCOMPRESSED_BYTES {
                    return Err(join5("Unsafe ", label, " archive: ", name, " exceeds the 256 MiB uncompressed ZIP limit."));
                }
                names.push(file.name.clone());
            },
        }
        k += 1;
    }
    let main = main_entry(format);
    let required: Vec<&str> = vec!["[Content_Types].xml", "_rels/.rels", main];
    assert(required@.map_values(|p: &str| p@) =~= required_entries(format));
    let mut i: usize = 0;
    while i < required.len()
        invariant
            0 <= i <= 3,
            required@.len() == 3,
            zip_entries(bytes@) == Ok::<Seq<Result<ZipEntryView, Seq<char>>>, Seq<char>>(list),
            list.len() <= MAX_ENTRIES,
            label@ == format_label(format),
            scan_entries(list, 0, 0, label@, name@) == Ok::<(), Seq<char>>(()),
            k == entries@.len(),
            names@.len() == k,
            list == entry_result_views(entries@),
            forall|j: int| 0 <= j < k ==> entry_named(#[trigger] list[j], names@[j]@),
            required@.map_values(|p: &str| p@) == required_entries(format),
            first_missing(list, required_entries(format), 0) == first_missing(
                list,
                required_entries(format),
                i as int,
            ),
        decreases 3 - i,
    {
        let present = has_entry_named(&names, required[i]);
        proof {
            let views = required@.map_values(|p: &str| p@);
            assert(views[i as int] == required@[i as int]@);
            if present {
                let j = choose|j: int| 0 <= j < names@.len() && (#[trigger] names@[j])@ == required@[i as int]@;
                assert(entry_named(list[j], names@[j]@));
                assert(has_entry(list, required_entries(format)[i as int]));
            } else {
                assert(!has_entry(list, required_entries(format)[i as int])) by {
                    if has_entry(list, required_entries(format)[i as int]) {
                        let j = choose|j: int| 0 <= j < list.len() && entry_named(
                            #[trigger] list[j],
                            required_entries(format)[i as int],
                        );
                        assert(entry_named(list[j], names@[j]@));
                    }
                }
            }
        }
        if !present {
            return Err(join7("Invalid ", label, ": ", name, " is missing required OOXML entry ", required[i], "."));
        }
        i += 1;
    }
    Ok(())
}


/// Checks UTF-8 with `std::str::from_utf8`, which accepts exactly the well-formed UTF-8
/// sequences.
#[verifier::external_body]
fn is_utf8(bytes: &[u8]) -> (r: bool)
    ensures
        r == vstd::utf8::valid_utf8(bytes@),
{
    std::str::from_utf8(bytes).is_ok()
}

/// What decoding audio finds: the reason the decoder refused the bytes, or the total duration
/// in nanoseconds when the stream declares one.
pub uninterp spec fn decoded_duration(bytes: Seq<u8>) -> Result<Option<u128>, Seq<char>>;

/// Decodes audio with `rodio::Decoder::try_from` over the bytes and reads `total_duration`
/// in nanoseconds. The result is named, not stated: it is a function of the bytes.
#[verifier::external_body]
fn audio_duration_nanos(bytes: &Vec<u8>) -> (r: Result<Option<u128>, String>)
    ensures
        match r {
            Ok(d) => decoded_duration(bytes@) == Ok::<Option<u128>, Seq<char>>(d),
            Err(e) => decoded_duration(bytes@) == Err::<Option<u128>, Seq<char>>(e@),
        },
{
    match rodio::Decoder::try_from(std::io::Cursor::new(bytes.clone())) {
        Ok(decoder) => Ok(decoder.total_duration().map(|duration| duration.as_nanos())),
        Err(error) => Err(error.to_string()),
    }
}

/// The duration of audio in whole milliseconds, rounded up, or why it has none.
pub open spec fn audio_duration(bytes: Seq<u8>) -> Result<u64, Seq<char>> {
    match decoded_duration(bytes) {
        Err(e) => Err(e),
        Ok(None) => Err("audio duration is unavailable"@),
        Ok(Some(nanos)) => {
            let ms = (nanos + 999_999) / 1_000_000;
            if ms > u64::MAX {
                Err("audio duration is invalid"@)
            } else if ms == 0 {
                Err("file contains no audio samples"@)
            } else {
                Ok(ms as u64)
            }
        },
    }
}

fn duration_ms(bytes: &Vec<u8>) -> (r: Result<u64, String>)
    ensures
        match audio_duration(bytes@) {
            Ok(d) => r == Ok::<u64, String>(d),
            Err(e) => r matches Err(s) && s@ == e,
        },
{
    match audio_duration_nanos(bytes) {
        Err(e) => Err(e),
        Ok(None) => Err(String::from_str("audio duration is unavailable")),
        Ok(Some(nanos)) => {
            let ms = nanos / 1_000_000 + if nanos % 1_000_000 == 0 { 0 } else { 1 };
            assert(ms == (nanos + 999_999) / 1_000_000);
            if ms > u64::MAX as u128 {
                Err(String::from_str("audio duration is invalid"))
            } else if ms == 0 {
                Err(String::from_str("file contains no audio samples"))
            } else {
                Ok(ms as u64)
            }
        },
    }
}

/// Limits and abilities a batch of attachments is loaded with.
#[derive(Clone, Copy, Debug)]
pub struct LoadManyOptions {
    pub remaining: usize,
    pub vision: bool,
    pub audio_input: bool,
    pub parse_document_images: bool,
}

/// Why a document could not be parsed.
pub struct ParseFailure {
    pub encrypted: bool,
    pub message: String,
}

/// What the document converter made of an Office file: the format it found, the document as
/// Markdown, and the images extracted from it.
pub struct DocumentConversion {
    pub parsed: Result<OfficeFormat, ParseFailure>,
    pub markdown: Result<String, String>,
    pub images: Vec<AttachmentDraftFile>,
}

/// What the PDF renderer made of a PDF: its page count, and each page rendered as PNG.
pub struct PdfRendering {
    pub page_count: Result<usize, String>,
    pub pages: Vec<Result<Vec<u8>, String>>,
}

/// The conversion an outside converter made of a file, when the file needs one.
pub enum Conversion {
    Nothing,
    Pdf(PdfRendering),
    Document(DocumentConversion),
}

/// A file chosen as an attachment, as it was found: `name` is its file name when that is
/// readable text, `extension` its extension in lower case, `size` its length or why it is
/// unknown, `bytes` its contents or why they could not be read, and `id` the identifier the
/// attachment gets.
pub struct SourceFile {
    pub id: String,
    pub display: String,
    pub is_dir: bool,
    pub name: Option<String>,
    pub extension: String,
    pub size: Result<u64, String>,
    pub bytes: Result<Vec<u8>, String>,
    pub converted: Conversion,
}

pub open spec fn bytes_view(b: Result<Vec<u8>, String>) -> Result<Seq<u8>, Seq<char>> {
    match b {
        Ok(v) => Ok(v@),
        Err(e) => Err(e@),
    }
}

pub open spec fn read_error(name: Seq<char>, e: Seq<char>) -> Seq<char> {
    "Could not read "@ + name + ": "@ + e
}

pub open spec fn single_file(
    id: Seq<char>,
    name: Seq<char>,
    kind: AttachmentKind,
    file: DraftFileView,
    audio: Option<AudioAttachmentMetadata>,
) -> DraftView {
    DraftView { id, name, kind, files: seq![file], audio }
}

/// The outcome for a text file.
pub open spec fn text_outcome(id: Seq<char>, name: Seq<char>, size: u64, bytes: Result<Seq<u8>, Seq<char>>) -> Result<DraftView, Seq<char>> {
    if size > MAX_TEXT_BYTES {
        Err(name + " exceeds the 1 MiB text attachment limit."@)
    } else {
        match bytes {
            Err(e) => Err(read_error(name, e)),
            Ok(b) => if !vstd::utf8::valid_utf8(b) {
                Err(name + " is not a UTF-8 text file."@)
            } else {
                Ok(
                    single_file(
                        id,
                        name,
                        AttachmentKind::Text,
                        DraftFileView {
                            name: "content.txt"@,
                            kind: AttachmentFileKind::Text,
                            media_type: "text/plain"@,
                            bytes: b,
                        },
                        None,
                    ),
                )
            },
        }
    }
}

/// The outcome for an image file whose extension names the image type `media`.
pub open spec fn image_outcome(
    id: Seq<char>,
    name: Seq<char>,
    media: Seq<char>,
    size: u64,
    vision: bool,
    bytes: Result<Seq<u8>, Seq<char>>,
) -> Result<DraftView, Seq<char>> {
    if !vision {
        Err(name + " requires a model with vision support."@)
    } else if size > MAX_IMAGE_BYTES {
        Err(name + " exceeds the 10 MiB image limit."@)
    } else {
        match bytes {
            Err(e) => Err(read_error(name, e)),
            Ok(b) => if !image_signature_matches(b, media) {
                Err("Invalid image "@ + name + ": "@ + signature_mismatch())
            } else {
                Ok(
                    single_file(
                        id,
                        name,
                        AttachmentKind::Image,
                        DraftFileView {
                            name: "content."@ + canonical_image_extension(media),
                            kind: AttachmentFileKind::Image,
                            media_type: media,
                            bytes: b,
                        },
                        None,
                    ),
                )
            },
        }
    }
}

/// The outcome for an audio file.
pub open spec fn audio_outcome(
    id: Seq<char>,
    name: Seq<char>,
    extension: Seq<char>,
    size: u64,
    audio_input: bool,
    bytes: Result<Seq<u8>, Seq<char>>,
) -> Result<DraftView, Seq<char>> {
    if !audio_input {
        Err(name + " requires a model with audio support."@)
    } else if size == 0 {
        Err("Audio file "@ + name + " is empty."@)
    } else if size > MAX_AUDIO_BYTES {
        Err(name + " exceeds the 10 MiB audio limit."@)
    } else {
        match bytes {
            Err(e) => Err(read_error(name, e)),
            Ok(b) => match audio_format(b) {
                None => Err("Invalid audio "@ + name + ": file is not a valid WAV or MP3."@),
                Some(f) => if extension != f.0 {
                    Err(
                        "Invalid audio "@ + name + ": file content does not match its ."@
                            + extension + " extension."@,
                    )
                } else {
                    match audio_duration(b) {
                        Err(e) => Err("Invalid audio "@ + name + ": "@ + e),
                        Ok(ms) => Ok(
                            single_file(
                                id,
                                name,
                                AttachmentKind::Audio,
                                DraftFileView {
                                    name: "content."@ + f.0,
                                    kind: AttachmentFileKind::Audio,
                                    media_type: f.1,
                                    bytes: b,
                                },
                                Some(
                                    AudioAttachmentMetadata {
                                        duration_ms: ms,
                                        source: AudioAttachmentSource::Upload,
                                    },
                                ),
                            ),
                        ),
                    }
                },
            },
        }
    }
}

fn text_draft(id: String, name: String, size: u64, bytes: Result<Vec<u8>, String>) -> (r: Result<AttachmentDraft, String>)
    ensures
        match text_outcome(id@, name@, size, bytes_view(bytes)) {
            Ok(d) => r matches Ok(x) && x@ == d,
            Err(e) => r matches Err(s) && s@ == e,
        },
{
    if size > MAX_TEXT_BYTES {
        return Err(join2(name.as_str(), " exceeds the 1 MiB text attachment limit."));
    }
    let bytes = match bytes {
        Ok(b) => b,
        Err(e) => {
            return Err(join4("Could not read ", name.as_str(), ": ", e.as_str()));
        },
    };
    if !is_utf8(bytes.as_slice()) {
        return Err(join2(name.as_str(), " is not a UTF-8 text file."));
    }
    let file = AttachmentDraftFile {
        name: String::from_str("content.txt"),
        kind: AttachmentFileKind::Text,
        media_type: String::from_str("text/plain"),
        bytes,
    };
    let mut files = Vec::new();
    files.push(file);
    let draft = AttachmentDraft { id, name, kind: AttachmentKind::Text, files, audio: None };
    assert(draft@.files =~= seq![draft@.files[0]]);
    Ok(draft)
}


fn one_file_draft(
    id: String,
    name: String,
    kind: AttachmentKind,
    file: AttachmentDraftFile,
    audio: Option<AudioAttachmentMetadata>,
) -> (r: AttachmentDraft)
    ensures
        r@ == single_file(id@, name@, kind, file@, audio),
{
    let mut files = Vec::new();
    files.push(file);
    let draft = AttachmentDraft { id, name, kind, files, audio };
    assert(draft@.files =~= seq![file@]);
    draft
}

fn image_draft(
    id: String,
    name: String,
    media: &'static str,
    size: u64,
    vision: bool,
    bytes: Result<Vec<u8>, String>,
) -> (r: Result<AttachmentDraft, String>)
    requires
        image_media_type_known(media@),
    ensures
        match image_outcome(id@, name@, media@, size, vision, bytes_view(bytes)) {
            Ok(d) => r matches Ok(x) && x@ == d,
            Err(e) => r matches Err(s) && s@ == e,
        },
{
    if !vision {
        return Err(join2(name.as_str(), " requires a model with vision support."));
    }
    if size > MAX_IMAGE_BYTES {
        return Err(join2(name.as_str(), " exceeds the 10 MiB image limit."));
    }
    let bytes = match bytes {
        Ok(b) => b,
        Err(e) => {
            return Err(join4("Could not read ", name.as_str(), ": ", e.as_str()));
        },
    };
    match validate_image(bytes.as_slice(), media) {
        Ok(()) => {},
        Err(e) => {
            return Err(join4("Invalid image ", name.as_str(), ": ", e));
        },
    }
    let extension = canonical_extension(media);
    let file = AttachmentDraftFile {
        name: join2("content.", extension),
        kind: AttachmentFileKind::Image,
        media_type: String::from_str(media),
        bytes,
    };
    Ok(one_file_draft(id, name, AttachmentKind::Image, file, None))
}

/// The image types that are read.
pub open spec fn image_media_type_known(media: Seq<char>) -> bool {
    media == "image/jpeg"@ || media == "image/png"@ || media == "image/gif"@ || media == "image/webp"@
}

fn audio_draft(
    id: String,
    name: String,
    extension: &str,
    size: u64,
    audio_input: bool,
    bytes: Result<Vec<u8>, String>,
) -> (r: Result<AttachmentDraft, String>)
    ensures
        match audio_outcome(id@, name@, extension@, size, audio_input, bytes_view(bytes)) {
            Ok(d) => r matches Ok(x) && x@ == d,
            Err(e) => r matches Err(s) && s@ == e,
        },
{
    if !audio_input {
        return Err(join2(name.as_str(), " requires a model with audio support."));
    }
    if size == 0 {
        return Err(join3("Audio file ", name.as_str(), " is empty."));
    }
    if size > MAX_AUDIO_BYTES {
        return Err(join2(name.as_str(), " exceeds the 10 MiB audio limit."));
    }
    let bytes = match bytes {
        Ok(b) => b,
        Err(e) => {
            return Err(join4("Could not read ", name.as_str(), ": ", e.as_str()));
        },
    };
    let (actual, media) = match detect_format(bytes.as_slice()) {
        Some(f) => f,
        None => {
            return Err(join3("Invalid audio ", name.as_str(), ": file is not a valid WAV or MP3."));
        },
    };
    if !same_str(extension, actual) {
        return Err(join5(
            "Invalid audio ",
            name.as_str(),
            ": file content does not match its .",
            extension,
            " extension.",
        ));
    }
    let duration = match duration_ms(&bytes) {
        Ok(d) => d,
        Err(e) => {
            return Err(join4("Invalid audio ", name.as_str(), ": ", e.as_str()));
        },
    };
    let file = AttachmentDraftFile {
        name: join2("content.", actual),
        kind: AttachmentFileKind::Audio,
        media_type: String::from_str(media),
        bytes,
    };
    Ok(
        one_file_draft(
            id,
            name,
            AttachmentKind::Audio,
            file,
            Some(AudioAttachmentMetadata { duration_ms: duration, source: AudioAttachmentSource::Upload }),
        ),
    )
}


/// A page number written with at least three digits.
pub open spec fn pad3(n: nat) -> Seq<char> {
    if n < 10 {
        "00"@ + decimal(n)
    } else if n < 100 {
        "0"@ + decimal(n)
    } else {
        decimal(n)
    }
}

/// The file of the `k`-th page of a PDF, counted from zero.
pub open spec fn pdf_page_file(k: nat, bytes: Seq<u8>) -> DraftFileView {
    DraftFileView {
        name: "page-"@ + pad3(k + 1) + ".png"@,
        kind: AttachmentFileKind::Image,
        media_type: "image/png"@,
        bytes,
    }
}

/// The files of the rendered pages from page `k` on, or the first page that failed.
pub open spec fn pages_from(pages: Seq<Result<Seq<u8>, Seq<char>>>, k: int) -> Result<Seq<DraftFileView>, Seq<char>>
    decreases pages.len() - k,
{
    if k < 0 || k >= pages.len() {
        Ok(Seq::empty())
    } else {
        match pages[k] {
            Err(e) => Err(e),
            Ok(b) => match pages_from(pages, k + 1) {
                Err(e) => Err(e),
                Ok(rest) => Ok(seq![pdf_page_file(k as nat, b)] + rest),
            },
        }
    }
}

pub open spec fn page_views(pages: Seq<Result<Vec<u8>, String>>) -> Seq<Result<Seq<u8>, Seq<char>>> {
    pages.map_values(|p: Result<Vec<u8>, String>| bytes_view(p))
}

/// The checks of a PDF before it is parsed.
pub open spec fn pdf_gate_check(name: Seq<char>, size: u64, vision: bool, bytes: Result<Seq<u8>, Seq<char>>) -> Result<Seq<u8>, Seq<char>> {
    if !vision {
        Err(name + " requires a model with vision support."@)
    } else if size > MAX_PDF_BYTES {
        Err(name + " exceeds the 20 MiB PDF limit."@)
    } else {
        match bytes {
            Err(e) => Err(read_error(name, e)),
            Ok(b) => if !starts_with(b, pdf_signature()) {
                Err("Invalid PDF: "@ + name)
            } else {
                Ok(b)
            },
        }
    }
}

/// The outcome for a PDF that passed its checks, given how it was rendered.
pub open spec fn pdf_outcome(
    id: Seq<char>,
    name: Seq<char>,
    page_count: Result<usize, Seq<char>>,
    pages: Seq<Result<Seq<u8>, Seq<char>>>,
) -> Result<DraftView, Seq<char>> {
    match page_count {
        Err(e) => Err("Could not parse PDF "@ + name + ": "@ + e),
        Ok(n) => if n == 0 {
            Err("PDF contains no pages: "@ + name)
        } else if n > MAX_PDF_PAGES {
            Err(name + " exceeds the 20-page PDF limit."@)
        } else {
            match pages_from(pages, 0) {
                Err(e) => Err("Could not render "@ + name + ": "@ + e),
                Ok(files) => Ok(DraftView { id, name, kind: AttachmentKind::Pdf, files, audio: None }),
            }
        },
    }
}

/// A number written with at least three digits.
pub fn pad3_exec(n: u64) -> (r: Vec<char>)
    ensures
        r@ == pad3(n as nat),
{
    let digits = u64_decimal(n);
    let mut out: Vec<char> = Vec::new();
    if n < 10 {
        push_str(&mut out, "00");
    } else if n < 100 {
        push_str(&mut out, "0");
    }
    push_all(&mut out, &digits);
    out
}

/// Checks a PDF before it is parsed: the model must read images, the file must be within
/// 20 MiB, readable, and start with the PDF signature.
pub fn pdf_gate(name: &str, size: u64, vision: bool, bytes: &Result<Vec<u8>, String>) -> (r: Result<(), String>)
    ensures
        match pdf_gate_check(name@, size, vision, bytes_view(*bytes)) {
            Ok(_) => r is Ok,
            Err(e) => r matches Err(s) && s@ == e,
        },
{
    if !vision {
        return Err(join2(name, " requires a model with vision support."));
    }
    if size > MAX_PDF_BYTES {
        return Err(join2(name, " exceeds the 20 MiB PDF limit."));
    }
    match bytes {
        Err(e) => Err(join4("Could not read ", name, ": ", e.as_str())),
        Ok(b) => {
            let sig: [u8; 5] = [0x25, 0x50, 0x44, 0x46, 0x2d];
            assert(sig@ == pdf_signature());
            if !prefix_matches(b.as_slice(), sig.as_slice()) {
                Err(join2("Invalid PDF: ", name))
            } else {
                Ok(())
            }
        },
    }
}

fn pdf_draft(id: String, name: String, rendering: PdfRendering) -> (r: Result<AttachmentDraft, String>)
    ensures
        match pdf_outcome(
            id@,
            name@,
            match rendering.page_count {
                Ok(n) => Ok(n),
                Err(e) => Err(e@),
            },
            page_views(rendering.pages@),
        ) {
            Ok(d) => r matches Ok(x) && x@ == d,
            Err(e) => r matches Err(s) && s@ == e,
        },
{
    let count = match rendering.page_count {
        Err(e) => {
            return Err(join4("Could not parse PDF ", name.as_str(), ": ", e.as_str()));
        },
        Ok(n) => n,
    };
    if count == 0 {
        return Err(join2("PDF contains no pages: ", name.as_str()));
    }
    if count > MAX_PDF_PAGES {
        return Err(join2(name.as_str(), " exceeds the 20-page PDF limit."));
    }
    assert(rendering.pages@.len() == rendering.pages.len());
    let mut pages = rendering.pages;
    let ghost all = page_views(pages@);
    let mut files: Vec<AttachmentDraftFile> = Vec::new();
    let mut k: usize = 0;
    proof {
        assert(draft_file_views(files@) =~= Seq::<DraftFileView>::empty());
        assert(pages@ =~= rendering.pages@.skip(0));
        lemma_combine_empty(pages_from(all, 0));
    }
    while pages.len() > 0
        invariant
            k + pages@.len() == all.len(),
            all.len() <= usize::MAX,
            all == page_views(rendering.pages@),
            rendering.page_count == Ok::<usize, String>(count),
            0 < count <= MAX_PDF_PAGES,
            pages@ == rendering.pages@.skip(k as int),
            combine(draft_file_views(files@), pages_from(all, k as int)) == pages_from(all, 0),
        decreases pages.len(),
    {
        let page = pages.remove(0);
        proof {
            assert(page == rendering.pages@[k as int]);
            assert(all[k as int] == bytes_view(page));
        }
        match page {
            Err(e) => {
                return Err(join4("Could not render ", name.as_str(), ": ", e.as_str()));
            },
            Ok(bytes) => {
                let ghost before = draft_file_views(files@);
                let number = pad3_exec(k as u64 + 1);
                let file_name = join3("page-", string_of(&number).as_str(), ".png");
                let file = AttachmentDraftFile {
                    name: file_name,
                    kind: AttachmentFileKind::Image,
                    media_type: String::from_str("image/png"),
                    bytes,
                };
                assert(file@ == pdf_page_file(k as nat, all[k as int]->Ok_0));
                files.push(file);
                proof {
                    assert(draft_file_views(files@) =~= before + seq![pdf_page_file(k as nat, all[k as int]->Ok_0)]);
                    lemma_combine_step(before, pdf_page_file(k as nat, all[k as int]->Ok_0), pages_from(all, k + 1));
                    assert(pages@ =~= rendering.pages@.skip(k + 1));
                }
                k += 1;
            },
        }
    }
    let draft = AttachmentDraft { id, name, kind: AttachmentKind::Pdf, files, audio: None };
    Ok(draft)
}

/// Files before a result: the result with the files put in front, or its error.
pub open spec fn combine(prefix: Seq<DraftFileView>, r: Result<Seq<DraftFileView>, Seq<char>>) -> Result<Seq<DraftFileView>, Seq<char>> {
    match r {
        Ok(t) => Ok(prefix + t),
        Err(e) => Err(e),
    }
}

proof fn lemma_combine_empty(r: Result<Seq<DraftFileView>, Seq<char>>)
    ensures
        combine(Seq::empty(), r) == r,
{
    match r {
        Ok(t) => {
            assert(Seq::<DraftFileView>::empty() + t =~= t);
        },
        Err(_) => {},
    }
}

proof fn lemma_combine_step(prefix: Seq<DraftFileView>, f: DraftFileView, r: Result<Seq<DraftFileView>, Seq<char>>)
    ensures
        combine(prefix, combine(seq![f], r)) == combine(prefix + seq![f], r),
{
    match r {
        Ok(t) => {
            assert(prefix + (seq![f] + t) =~= prefix + seq![f] + t);
        },
        Err(_) => {},
    }
}


pub open spec fn office_too_large(label: Seq<char>, name: Seq<char>) -> Seq<char> {
    "Source file too large: "@ + name + " exceeds the 20 MiB "@ + label + " limit."@
}

/// The checks of an Office file before it is parsed: within 20 MiB, readable, not an
/// encrypted compound file, and a safe archive.
pub open spec fn office_gate_check(
    name: Seq<char>,
    format: OfficeFormat,
    size: u64,
    bytes: Result<Seq<u8>, Seq<char>>,
) -> Result<Seq<u8>, Seq<char>> {
    let label = format_label(format);
    if size > MAX_OFFICE_BYTES {
        Err(office_too_large(label, name))
    } else {
        match bytes {
            Err(e) => Err(read_error(name, e)),
            Ok(b) => if b.len() > MAX_OFFICE_BYTES {
                Err(office_too_large(label, name))
            } else if starts_with(b, cfb_signature()) {
                Err(encrypted_message(label, name))
            } else {
                match archive_check(b, name, format) {
                    Err(e) => Err(e),
                    Ok(()) => Ok(b),
                }
            },
        }
    }
}

/// Checks an Office file before it is parsed.
pub fn office_gate(name: &str, format: OfficeFormat, size: u64, bytes: &Result<Vec<u8>, String>) -> (r: Result<(), String>)
    ensures
        match office_gate_check(name@, format, size, bytes_view(*bytes)) {
            Ok(_) => r is Ok,
            Err(e) => r matches Err(s) && s@ == e,
        },
{
    let label = label(format);
    if size > MAX_OFFICE_BYTES {
        return Err(join5("Source file too large: ", name, " exceeds the 20 MiB ", label, " limit."));
    }
    match bytes {
        Err(e) => Err(join4("Could not read ", name, ": ", e.as_str())),
        Ok(b) => {
            if b.len() as u64 > MAX_OFFICE_BYTES {
                return Err(join5("Source file too large: ", name, " exceeds the 20 MiB ", label, " limit."));
            }
            let cfb: [u8; 8] = [0xd0, 0xcf, 0x11, 0xe0, 0xa1, 0xb1, 0x1a, 0xe1];
            assert(cfb@ == cfb_signature());
            if prefix_matches(b.as_slice(), cfb.as_slice()) {
                return Err(join5("Encrypted ", label, ": ", name, " is an encrypted Office document."));
            }
            inspect_archive(b, name, format)
        },
    }
}

pub open spec fn parse_view(p: Result<OfficeFormat, ParseFailure>) -> Result<OfficeFormat, (bool, Seq<char>)> {
    match p {
        Ok(f) => Ok(f),
        Err(f) => Err((f.encrypted, f.message@)),
    }
}

pub open spec fn text_view(r: Result<String, String>) -> Result<Seq<char>, Seq<char>> {
    match r {
        Ok(s) => Ok(s@),
        Err(e) => Err(e@),
    }
}

/// The outcome for an Office file that passed its checks, given what the converter made of it.
pub open spec fn document_outcome(
    id: Seq<char>,
    name: Seq<char>,
    format: OfficeFormat,
    parsed: Result<OfficeFormat, (bool, Seq<char>)>,
    markdown: Result<Seq<char>, Seq<char>>,
    images: Seq<DraftFileView>,
) -> Result<DraftView, Seq<char>> {
    let label = format_label(format);
    match parsed {
        Err(f) => if f.0 {
            Err(encrypted_message(label, name))
        } else {
            Err("Could not parse "@ + label + " "@ + name + ": "@ + f.1)
        },
        Ok(found) => if found != format {
            Err("Invalid "@ + label + ": "@ + name + " contains "@ + format_label(found) + " content."@)
        } else {
            match markdown {
                Err(e) => Err("Could not render "@ + label + " "@ + name + " as Markdown: "@ + e),
                Ok(md) => if vstd::utf8::encode_utf8(md).len() > MAX_TEXT_BYTES {
                    Err(
                        "Extracted Markdown too large: "@ + name
                            + " exceeds the 1 MiB extracted Markdown limit."@,
                    )
                } else if crate::text::trim(md).len() == 0 {
                    Err(name + " is an empty "@ + label + " document (no readable content)."@)
                } else {
                    Ok(
                        DraftView {
                            id,
                            name,
                            kind: AttachmentKind::Document,
                            files: seq![
                                DraftFileView {
                                    name: "content.md"@,
                                    kind: AttachmentFileKind::Text,
                                    media_type: "text/markdown"@,
                                    bytes: vstd::utf8::encode_utf8(md),
                                },
                            ] + images,
                            audio: None,
                        },
                    )
                },
            }
        },
    }
}

fn document_draft(id: String, name: String, format: OfficeFormat, conversion: DocumentConversion) -> (r: Result<AttachmentDraft, String>)
    ensures
        match document_outcome(
            id@,
            name@,
            format,
            parse_view(conversion.parsed),
            text_view(conversion.markdown),
            draft_file_views(conversion.images@),
        ) {
            Ok(d) => r matches Ok(x) && x@ == d,
            Err(e) => r matches Err(s) && s@ == e,
        },
{
    let label = label(format);
    match &conversion.parsed {
        Err(failure) => {
            if failure.encrypted {
                return Err(join5("Encrypted ", label, ": ", name.as_str(), " is an encrypted Office document."));
            }
            return Err(join6("Could not parse ", label, " ", name.as_str(), ": ", failure.message.as_str()));
        },
        Ok(found) => {
            if *found != format {
                return Err(join7("Invalid ", label, ": ", name.as_str(), " contains ", crate::attachments::label(*found), " content."));
            }
        },
    }
    let markdown = match conversion.markdown {
        Err(e) => {
            return Err(join6("Could not render ", label, " ", name.as_str(), " as Markdown: ", e.as_str()));
        },
        Ok(m) => m,
    };
    let bytes = markdown.as_str().as_bytes_vec();
    assert(bytes@.len() == bytes.len());
    if bytes.len() as u64 > MAX_TEXT_BYTES {
        return Err(join3(
            "Extracted Markdown too large: ",
            name.as_str(),
            " exceeds the 1 MiB extracted Markdown limit.",
        ));
    }
    if crate::text::is_blank(markdown.as_str()) {
        return Err(join4(name.as_str(), " is an empty ", label, " document (no readable content)."));
    }
    let mut files: Vec<AttachmentDraftFile> = Vec::new();
    files.push(
        AttachmentDraftFile {
            name: String::from_str("content.md"),
            kind: AttachmentFileKind::Text,
            media_type: String::from_str("text/markdown"),
            bytes,
        },
    );
    let ghost first = draft_file_views(files@);
    assert(bytes@ == vstd::utf8::encode_utf8(markdown@));
    assert(first =~= seq![
        DraftFileView {
            name: "content.md"@,
            kind: AttachmentFileKind::Text,
            media_type: "text/markdown"@,
            bytes: vstd::utf8::encode_utf8(markdown@),
        },
    ]);
    let mut images = conversion.images;
    let ghost added = images@;
    files.append(&mut images);
    assert(draft_file_views(files@) =~= first + draft_file_views(added));
    Ok(AttachmentDraft { id, name, kind: AttachmentKind::Document, files, audio: None })
}


/// Whether the converter's result is there for every file whose checks pass and that needs
/// one.
pub open spec fn conversion_ready(source: SourceFile, options: LoadManyOptions) -> bool {
    match (source.name, source.size) {
        (Some(name), Ok(size)) => match office_route(source.extension@) {
            Some(Ok(format)) => office_gate_check(name@, format, size, bytes_view(source.bytes)) is Ok
                ==> source.converted is Document,
            Some(Err(_)) => true,
            None => !audio_extension(source.extension@) && source.extension@ == "pdf"@
                && pdf_gate_check(name@, size, options.vision, bytes_view(source.bytes)) is Ok
                ==> source.converted is Pdf,
        },
        _ => true,
    }
}

/// The outcome of loading one chosen file.
pub open spec fn load_outcome(source: SourceFile, options: LoadManyOptions) -> Result<DraftView, Seq<char>> {
    if source.is_dir {
        Err("Folders cannot be added as attachments: "@ + source.display@)
    } else {
        match source.name {
            None => Err("Invalid attachment path: "@ + source.display@),
            Some(name) => match source.size {
                Err(e) => Err(read_error(name@, e@)),
                Ok(size) => {
                    let ext = source.extension@;
                    let bytes = bytes_view(source.bytes);
                    match office_route(ext) {
                        Some(Err(target)) => Err(unsupported_message(name@, ext, target)),
                        Some(Ok(format)) => match office_gate_check(name@, format, size, bytes) {
                            Err(e) => Err(e),
                            Ok(_) => match source.converted {
                                Conversion::Document(c) => document_outcome(
                                    source.id@,
                                    name@,
                                    format,
                                    parse_view(c.parsed),
                                    text_view(c.markdown),
                                    draft_file_views(c.images@),
                                ),
                                _ => Err(Seq::empty()),
                            },
                        },
                        None => if audio_extension(ext) {
                            audio_outcome(source.id@, name@, ext, size, options.audio_input, bytes)
                        } else if ext == "pdf"@ {
                            match pdf_gate_check(name@, size, options.vision, bytes) {
                                Err(e) => Err(e),
                                Ok(_) => match source.converted {
                                    Conversion::Pdf(r) => pdf_outcome(
                                        source.id@,
                                        name@,
                                        match r.page_count {
                                            Ok(n) => Ok(n),
                                            Err(e) => Err(e@),
                                        },
                                        page_views(r.pages@),
                                    ),
                                    _ => Err(Seq::empty()),
                                },
                            }
                        } else {
                            match image_media_type(ext) {
                                Some(media) => image_outcome(source.id@, name@, media, size, options.vision, bytes),
                                None => text_outcome(source.id@, name@, size, bytes),
                            }
                        },
                    }
                },
            },
        }
    }
}

/// Loads one chosen file.
fn load_one(source: SourceFile, options: LoadManyOptions) -> (r: Result<AttachmentDraft, String>)
    requires
        conversion_ready(source, options),
    ensures
        match load_outcome(source, options) {
            Ok(d) => r matches Ok(x) && x@ == d,
            Err(e) => r matches Err(s) && s@ == e,
        },
{
    let ghost original = source;
    if source.is_dir {
        return Err(join2("Folders cannot be added as attachments: ", source.display.as_str()));
    }
    let name = match source.name {
        None => {
            return Err(join2("Invalid attachment path: ", source.display.as_str()));
        },
        Some(n) => n,
    };
    let size = match source.size {
        Err(e) => {
            return Err(join4("Could not read ", name.as_str(), ": ", e.as_str()));
        },
        Ok(s) => s,
    };
    let extension = source.extension;
    match office_format(extension.as_str()) {
        OfficeRoute::Unsupported(target) => {
            return Err(unsupported(name.as_str(), extension.as_str(), target));
        },
        OfficeRoute::Read(format) => {
            match office_gate(name.as_str(), format, size, &source.bytes) {
                Err(e) => {
                    return Err(e);
                },
                Ok(()) => {},
            }
            return match source.converted {
                Conversion::Document(c) => document_draft(source.id, name, format, c),
                _ => {
                    assert(false);
                    Err(String::new())
                },
            };
        },
        OfficeRoute::NotOffice => {},
    }
    if is_supported_extension(extension.as_str()) {
        return audio_draft(source.id, name, extension.as_str(), size, options.audio_input, source.bytes);
    }
    if same_str(extension.as_str(), "pdf") {
        match pdf_gate(name.as_str(), size, options.vision, &source.bytes) {
            Err(e) => {
                return Err(e);
            },
            Ok(()) => {},
        }
        return match source.converted {
            Conversion::Pdf(rendering) => pdf_draft(source.id, name, rendering),
            _ => {
                assert(false);
                Err(String::new())
            },
        };
    }
    match media_type(extension.as_str()) {
        Some(media) => image_draft(source.id, name, media, size, options.vision, source.bytes),
        None => text_draft(source.id, name, size, source.bytes),
    }
}

pub open spec fn too_many_message(remaining: usize) -> Seq<char> {
    "Select at most "@ + decimal(remaining as nat) + " more attachment"@ + (if remaining == 1 {
        Seq::empty()
    } else {
        "s"@
    }) + "."@
}

/// The outcome of loading the files from index `k` on: their drafts in order, or the first
/// failure.
pub open spec fn many_outcome(sources: Seq<SourceFile>, options: LoadManyOptions, k: int) -> Result<Seq<DraftView>, Seq<char>>
    decreases sources.len() - k,
{
    if k < 0 || k >= sources.len() {
        Ok(Seq::empty())
    } else {
        match load_outcome(sources[k], options) {
            Err(e) => Err(e),
            Ok(d) => match many_outcome(sources, options, k + 1) {
                Err(e) => Err(e),
                Ok(rest) => Ok(seq![d] + rest),
            },
        }
    }
}

pub open spec fn combine_drafts(prefix: Seq<DraftView>, r: Result<Seq<DraftView>, Seq<char>>) -> Result<Seq<DraftView>, Seq<char>> {
    match r {
        Ok(t) => Ok(prefix + t),
        Err(e) => Err(e),
    }
}

/// Loads the chosen files as attachments, in order: at most `remaining` of them, and the
/// first file that cannot be attached refuses the whole choice.
pub fn load_many(sources: Vec<SourceFile>, options: LoadManyOptions) -> (r: Result<Vec<AttachmentDraft>, String>)
    requires
        forall|k: int| 0 <= k < sources@.len() ==> conversion_ready(#[trigger] sources@[k], options),
    ensures
        sources@.len() > options.remaining ==> (r matches Err(s) && s@ == too_many_message(options.remaining)),
        sources@.len() <= options.remaining ==> match many_outcome(sources@, options, 0) {
            Ok(ds) => r matches Ok(v) && draft_views(v@) == ds,
            Err(e) => r matches Err(s) && s@ == e,
        },
{
    if sources.len() > options.remaining {
        let count = u64_decimal(options.remaining as u64);
        let mut out: Vec<char> = Vec::new();
        push_str(&mut out, "Select at most ");
        push_all(&mut out, &count);
        push_str(&mut out, " more attachment");
        if options.remaining != 1 {
            push_str(&mut out, "s");
        }
        push_str(&mut out, ".");
        assert(out@ =~= too_many_message(options.remaining));
        return Err(string_of(&out));
    }
    let ghost all = sources@;
    let mut rest = sources;
    let mut drafts: Vec<AttachmentDraft> = Vec::new();
    let mut k: usize = 0;
    proof {
        assert(draft_views(drafts@) =~= Seq::<DraftView>::empty());
        assert(rest@ =~= all.skip(0));
        match many_outcome(all, options, 0) {
            Ok(t) => {
                assert(Seq::<DraftView>::empty() + t =~= t);
            },
            Err(_) => {},
        }
    }
    while rest.len() > 0
        invariant
            k + rest@.len() == all.len(),
            all == sources@,
            all.len() <= options.remaining,
            rest@ == all.skip(k as int),
            forall|j: int| 0 <= j < all.len() ==> conversion_ready(#[trigger] all[j], options),
            combine_drafts(draft_views(drafts@), many_outcome(all, options, k as int)) == many_outcome(
                all,
                options,
                0,
            ),
        decreases rest.len(),
    {
        let source = rest.remove(0);
        assert(source == all[k as int]);
        match load_one(source, options) {
            Err(e) => {
                return Err(e);
            },
            Ok(d) => {
                let ghost before = draft_views(drafts@);
                let ghost dv = d@;
                drafts.push(d);
                proof {
                    assert(draft_views(drafts@) =~= before + seq![dv]);
                    match many_outcome(all, options, k + 1) {
                        Ok(t) => {
                            assert(before + (seq![dv] + t) =~= before + seq![dv] + t);
                        },
                        Err(_) => {},
                    }
                    assert(rest@ =~= all.skip(k + 1));
                }
                k += 1;
            },
        }
    }
    Ok(drafts)
}


/// A finished voice recording.
#[derive(Debug)]
pub struct RecordingOutput {
    pub wav: Vec<u8>,
    pub duration_ms: u64,
    pub limit: Option<u64>,
}

/// The attachment a voice recording becomes, with the identifier `id`.
pub fn voice_attachment(output: &RecordingOutput, id: String) -> (r: AttachmentDraft)
    ensures
        r@ == single_file(
            id@,
            "Voice message.wav"@,
            AttachmentKind::Audio,
            DraftFileView {
                name: "content.wav"@,
                kind: AttachmentFileKind::Audio,
                media_type: "audio/wav"@,
                bytes: output.wav@,
            },
            Some(AudioAttachmentMetadata { duration_ms: output.duration_ms, source: AudioAttachmentSource::Voice }),
        ),
{
    let file = AttachmentDraftFile {
        name: String::from_str("content.wav"),
        kind: AttachmentFileKind::Audio,
        media_type: String::from_str("audio/wav"),
        bytes: output.wav.clone(),
    };
    one_file_draft(
        id,
        String::from_str("Voice message.wav"),
        AttachmentKind::Audio,
        file,
        Some(AudioAttachmentMetadata { duration_ms: output.duration_ms, source: AudioAttachmentSource::Voice }),
    )
}


/// A voice recording always becomes a well-formed attachment.
pub proof fn lemma_voice_attachment_is_valid(id: Seq<char>, wav: Seq<u8>, duration_ms: u64)
    ensures
        crate::domain::draft_files_problem(
            single_file(
                id,
                "Voice message.wav"@,
                AttachmentKind::Audio,
                DraftFileView {
                    name: "content.wav"@,
                    kind: AttachmentFileKind::Audio,
                    media_type: "audio/wav"@,
                    bytes: wav,
                },
                Some(AudioAttachmentMetadata { duration_ms, source: AudioAttachmentSource::Voice }),
            ),
        ) is None,
{
    reveal_strlit("content.wav");
    reveal_strlit("audio/wav");
    let d = single_file(
        id,
        "Voice message.wav"@,
        AttachmentKind::Audio,
        DraftFileView {
            name: "content.wav"@,
            kind: AttachmentFileKind::Audio,
            media_type: "audio/wav"@,
            bytes: wav,
        },
        Some(AudioAttachmentMetadata { duration_ms, source: AudioAttachmentSource::Voice }),
    );
    assert(d.files.len() == 1);
    assert(d.files[0].name.len() > 0);
    assert(d.files[0].media_type.len() > 0);
}


/// An image is refused for its size exactly when it is larger than 10 MiB: with a model that
/// sees images, an image of at most 10 MiB whose bytes were read and carry the signature of
/// its type becomes an image attachment of one file holding exactly those bytes, and a larger
/// one is refused with the size error whatever its bytes.
pub proof fn lemma_image_size_limit(
    id: Seq<char>,
    name: Seq<char>,
    media: Seq<char>,
    size: u64,
    read: Seq<u8>,
    bytes: Result<Seq<u8>, Seq<char>>,
)
    ensures
        size <= 10 * 1024 * 1024 && image_signature_matches(read, media) ==> (image_outcome(
            id,
            name,
            media,
            size,
            true,
            Ok(read),
        ) matches Ok(d) && d.id == id && d.name == name && d.kind == AttachmentKind::Image && d.files.len() == 1
            && d.files[0].bytes == read && d.files[0].media_type == media && d.files[0].kind == AttachmentFileKind::Image),
        size > 10 * 1024 * 1024 ==> image_outcome(id, name, media, size, true, bytes) == Err::<DraftView, Seq<char>>(
            name + " exceeds the 10 MiB image limit."@,
        ),
{
}

/// A text file is refused for its size exactly when it is larger than 1 MiB: a readable UTF-8
/// file of at most 1 MiB becomes a text attachment holding exactly its bytes as
/// `content.txt`, and a larger one is refused with the size error whatever its bytes.
pub proof fn lemma_text_size_limit(
    id: Seq<char>,
    name: Seq<char>,
    size: u64,
    read: Seq<u8>,
    bytes: Result<Seq<u8>, Seq<char>>,
)
    ensures
        size <= 1024 * 1024 && vstd::utf8::valid_utf8(read) ==> (text_outcome(id, name, size, Ok(read)) matches Ok(
            d,
        ) && d.id == id && d.name == name && d.kind == AttachmentKind::Text && d.files.len() == 1
            && d.files[0].bytes == read && d.files[0].name == "content.txt"@ && d.files[0].media_type
            == "text/plain"@),
        size > 1024 * 1024 ==> text_outcome(id, name, size, bytes) == Err::<DraftView, Seq<char>>(
            name + " exceeds the 1 MiB text attachment limit."@,
        ),
{
}

/// An audio file is refused for its size exactly when it is empty or larger than 10 MiB: with
/// a model that takes audio, an empty file and a file over 10 MiB get their size errors
/// whatever their bytes, and within those bounds the size plays no further part.
pub proof fn lemma_audio_size_limit(
    id: Seq<char>,
    name: Seq<char>,
    extension: Seq<char>,
    size: u64,
    bytes: Result<Seq<u8>, Seq<char>>,
)
    ensures
        size == 0 ==> audio_outcome(id, name, extension, size, true, bytes) == Err::<DraftView, Seq<char>>(
            "Audio file "@ + name + " is empty."@,
        ),
        size > 10 * 1024 * 1024 ==> audio_outcome(id, name, extension, size, true, bytes) == Err::<
            DraftView,
            Seq<char>,
        >(name + " exceeds the 10 MiB audio limit."@),
        0 < size <= 10 * 1024 * 1024 ==> audio_outcome(id, name, extension, size, true, bytes) == audio_outcome(
            id,
            name,
            extension,
            1,
            true,
            bytes,
        ),
{
}

/// A PDF is refused for its size exactly when it is larger than 20 MiB, and for its pages
/// exactly when it has none or more than twenty: within those bounds neither the size nor
/// the page count plays a further part.
pub proof fn lemma_pdf_limits(
    id: Seq<char>,
    name: Seq<char>,
    size: u64,
    bytes: Result<Seq<u8>, Seq<char>>,
    page_count: usize,
    pages: Seq<Result<Seq<u8>, Seq<char>>>,
)
    ensures
        size > 20 * 1024 * 1024 ==> pdf_gate_check(name, size, true, bytes) == Err::<Seq<u8>, Seq<char>>(
            name + " exceeds the 20 MiB PDF limit."@,
        ),
        size <= 20 * 1024 * 1024 ==> pdf_gate_check(name, size, true, bytes) == pdf_gate_check(name, 0, true, bytes),
        page_count == 0 ==> pdf_outcome(id, name, Ok(page_count), pages) == Err::<DraftView, Seq<char>>(
            "PDF contains no pages: "@ + name,
        ),
        page_count > 20 ==> pdf_outcome(id, name, Ok(page_count), pages) == Err::<DraftView, Seq<char>>(
            name + " exceeds the 20-page PDF limit."@,
        ),
        1 <= page_count <= 20 ==> pdf_outcome(id, name, Ok(page_count), pages) == pdf_outcome(
            id,
            name,
            Ok(1usize),
            pages,
        ),
{
}

} // verus!
