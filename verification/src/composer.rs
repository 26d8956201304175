//! Attachments as the composer handles them: whether the selected model accepts them,
//! pasted images, and attachments of a conversation that is not stored, kept in memory.
use vstd::prelude::*;

use crate::attachments::{image_signature_matches, join2, join3, signature_mismatch, validate_image, MAX_ATTACHMENTS, MAX_IMAGE_BYTES};
use crate::documents::{convert_to_png, png_conversion, RasterFormat};
use crate::domain::{
    draft_files_problem, Attachment, AttachmentDraft, AttachmentFile, AttachmentFileKind,
    AttachmentKind, DraftView, ModelCapabilities,
};
use crate::text::{decimal, push_all, push_str, string_of, u64_decimal};

verus! {

pub open spec fn needs_vision(drafts: Seq<AttachmentDraft>) -> bool {
    exists|i: int| 0 <= i < drafts.len() && (#[trigger] drafts[i]).kind.spec_requires_vision()
}

pub open spec fn needs_audio(drafts: Seq<AttachmentDraft>) -> bool {
    exists|i: int| 0 <= i < drafts.len() && (#[trigger] drafts[i]).kind.spec_requires_audio()
}

/// Why the selected model cannot take the attachments, if it cannot.
pub open spec fn capability_problem(capabilities: ModelCapabilities, drafts: Seq<AttachmentDraft>) -> Option<Seq<char>> {
    let vision = !capabilities.vision && needs_vision(drafts);
    let audio = !capabilities.audio_input && needs_audio(drafts);
    if vision && audio {
        Some("The selected model does not accept image, PDF, or audio attachments."@)
    } else if vision {
        Some("The selected model does not accept image or PDF attachments."@)
    } else if audio {
        Some("The selected model does not accept audio attachments."@)
    } else {
        None
    }
}

/// The reason the selected model cannot take the attachments: images and PDFs need vision,
/// audio needs audio input.
pub fn attachment_capability_error(capabilities: &ModelCapabilities, drafts: &Vec<AttachmentDraft>) -> (r: Option<&'static str>)
    ensures
        match capability_problem(*capabilities, drafts@) {
            Some(m) => r matches Some(s) && s@ == m,
            None => r is None,
        },
{
    let mut vision = false;
    let mut audio = false;
    let mut i: usize = 0;
    while i < drafts.len()
        invariant
            i <= drafts@.len(),
            vision == exists|j: int| 0 <= j < i && (#[trigger] drafts@[j]).kind.spec_requires_vision(),
            audio == exists|j: int| 0 <= j < i && (#[trigger] drafts@[j]).kind.spec_requires_audio(),
        decreases drafts.len() - i,
    {
        if drafts[i].kind.requires_vision() {
            vision = true;
        }
        if drafts[i].kind.requires_audio() {
            audio = true;
        }
        i += 1;
    }
    let vision = vision && !capabilities.vision;
    let audio = audio && !capabilities.audio_input;
    if vision && audio {
        Some("The selected model does not accept image, PDF, or audio attachments.")
    } else if vision {
        Some("The selected model does not accept image or PDF attachments.")
    } else if audio {
        Some("The selected model does not accept audio attachments.")
    } else {
        None
    }
}

/// The formats an image can be pasted in.
#[derive(Clone, Copy, Debug, PartialEq, Eq, Structural)]
pub enum ClipboardFormat {
    Png,
    Jpeg,
    Gif,
    Webp,
    Svg,
    Bmp,
    Tiff,
    Ico,
    Pnm,
}

/// The extension and media type an image is attached with, and its bytes: PNG, JPEG, GIF and
/// WebP as pasted, other raster formats converted to PNG.
pub open spec fn pasted_content(format: ClipboardFormat, bytes: Seq<u8>) -> Result<(Seq<char>, Seq<char>, Seq<u8>), Seq<char>> {
    match format {
        ClipboardFormat::Png => Ok(("png"@, "image/png"@, bytes)),
        ClipboardFormat::Jpeg => Ok(("jpg"@, "image/jpeg"@, bytes)),
        ClipboardFormat::Gif => Ok(("gif"@, "image/gif"@, bytes)),
        ClipboardFormat::Webp => Ok(("webp"@, "image/webp"@, bytes)),
        ClipboardFormat::Svg => Err("Pasted SVG images are not supported."@),
        _ => {
            let raster = match format {
                ClipboardFormat::Bmp => RasterFormat::Bmp,
                ClipboardFormat::Tiff => RasterFormat::Tiff,
                ClipboardFormat::Ico => RasterFormat::Ico,
                _ => RasterFormat::Pnm,
            };
            match png_conversion(bytes, raster) {
                Ok(png) => Ok(("png"@, "image/png"@, png)),
                Err(e) => if e.0 {
                    Err("Could not decode pasted image: "@ + e.1)
                } else {
                    Err("Could not convert pasted image: "@ + e.1)
                },
            }
        },
    }
}

/// The attachment a pasted image becomes, the `number`-th pasted one, or why it is refused.
pub open spec fn pasted_image(id: Seq<char>, format: ClipboardFormat, bytes: Seq<u8>, number: nat) -> Result<DraftView, Seq<char>> {
    if bytes.len() > MAX_IMAGE_BYTES {
        Err("The pasted image exceeds the 10 MiB image limit."@)
    } else {
        match pasted_content(format, bytes) {
            Err(e) => Err(e),
            Ok(c) => if c.2.len() > MAX_IMAGE_BYTES {
                Err("The converted pasted image exceeds the 10 MiB image limit."@)
            } else if !image_signature_matches(c.2, c.1) {
                Err("Invalid pasted image: "@ + signature_mismatch())
            } else {
                Ok(
                    DraftView {
                        id,
                        name: "Pasted image "@ + decimal(number) + "."@ + c.0,
                        kind: AttachmentKind::Image,
                        files: seq![
                            crate::domain::DraftFileView {
                                name: "content."@ + c.0,
                                kind: AttachmentFileKind::Image,
                                media_type: c.1,
                                bytes: c.2,
                            },
                        ],
                        audio: None,
                    },
                )
            },
        }
    }
}

/// Turns a pasted image into an attachment named after its number.
pub fn pasted_image_attachment(format: ClipboardFormat, bytes: Vec<u8>, number: u64, id: String) -> (r: Result<AttachmentDraft, String>)
    ensures
        match pasted_image(id@, format, bytes@, number as nat) {
            Ok(d) => r matches Ok(x) && x@ == d,
            Err(e) => r matches Err(s) && s@ == e,
        },
{
    proof {
        reveal_strlit("Pasted image ");
        reveal_strlit(".");
        reveal_strlit("content.");
        reveal_strlit("Invalid pasted image: ");
        reveal_strlit("Could not decode pasted image: ");
        reveal_strlit("Could not convert pasted image: ");
    }
    assert(bytes@.len() == bytes.len());
    if bytes.len() as u64 > MAX_IMAGE_BYTES {
        return Err(String::from_str("The pasted image exceeds the 10 MiB image limit."));
    }
    let (extension, media_type, content): (&'static str, &'static str, Vec<u8>) = match format {
        ClipboardFormat::Png => ("png", "image/png", bytes),
        ClipboardFormat::Jpeg => ("jpg", "image/jpeg", bytes),
        ClipboardFormat::Gif => ("gif", "image/gif", bytes),
        ClipboardFormat::Webp => ("webp", "image/webp", bytes),
        ClipboardFormat::Svg => {
            return Err(String::from_str("Pasted SVG images are not supported."));
        },
        _ => {
            let raster = match format {
                ClipboardFormat::Bmp => RasterFormat::Bmp,
                ClipboardFormat::Tiff => RasterFormat::Tiff,
                ClipboardFormat::Ico => RasterFormat::Ico,
                _ => RasterFormat::Pnm,
            };
            match convert_to_png(bytes.as_slice(), raster) {
                Ok(png) => ("png", "image/png", png),
                Err(error) => {
                    if error.0 {
                        return Err(join2("Could not decode pasted image: ", error.1.as_str()));
                    }
                    return Err(join2("Could not convert pasted image: ", error.1.as_str()));
                },
            }
        },
    };
    assert(content@.len() == content.len());
    if content.len() as u64 > MAX_IMAGE_BYTES {
        return Err(String::from_str("The converted pasted image exceeds the 10 MiB image limit."));
    }
    match validate_image(content.as_slice(), media_type) {
        Err(e) => {
            return Err(join2("Invalid pasted image: ", e));
        },
        Ok(()) => {},
    }
    let mut name: Vec<char> = Vec::new();
    push_str(&mut name, "Pasted image ");
    let digits = u64_decimal(number);
    push_all(&mut name, &digits);
    push_str(&mut name, ".");
    push_str(&mut name, extension);
    let mut file_name: Vec<char> = Vec::new();
    push_str(&mut file_name, "content.");
    push_str(&mut file_name, extension);
    let mut files: Vec<crate::domain::AttachmentDraftFile> = Vec::new();
    files.push(
        crate::domain::AttachmentDraftFile {
            name: string_of(&file_name),
            kind: AttachmentFileKind::Image,
            media_type: String::from_str(media_type),
            bytes: content,
        },
    );
    let draft = AttachmentDraft { id, name: string_of(&name), kind: AttachmentKind::Image, files, audio: None };
    assert(crate::domain::draft_file_views(draft.files@) =~= seq![
        crate::domain::DraftFileView {
            name: "content."@ + extension@,
            kind: AttachmentFileKind::Image,
            media_type: media_type@,
            bytes: draft.files@[0].bytes@,
        },
    ]);
    Ok(draft)
}

/// The path an attachment file of a conversation that is not stored is kept under.
pub open spec fn memory_path(draft_id: Seq<char>, file_name: Seq<char>) -> Seq<char> {
    "attachments/"@ + draft_id + "/"@ + file_name
}

/// An attachment's files as they are kept in memory: each under its path, with its bytes.
pub open spec fn kept_files(d: AttachmentDraft) -> Seq<(Seq<char>, Seq<u8>)> {
    d.files@.map_values(|f: crate::domain::AttachmentDraftFile| (memory_path(d.id@, f.name@), f.bytes@))
}

/// The first draft whose files are not well formed, with its problem.
pub open spec fn first_invalid(drafts: Seq<AttachmentDraft>) -> Option<(Seq<char>, Seq<char>)>
    decreases drafts.len(),
{
    if drafts.len() == 0 {
        None
    } else {
        match first_invalid(drafts.drop_last()) {
            Some(p) => Some(p),
            None => match draft_files_problem(drafts.last()@) {
                Some(m) => Some((drafts.last().name@, m)),
                None => None,
            },
        }
    }
}

/// Keeps the drafts of a conversation that is not stored in memory: each becomes an
/// attachment whose files point at `attachments/<draft id>/<file name>`, and the bytes are
/// returned under those paths. A draft whose files are not well formed refuses the lot.
pub fn temporary_attachments(drafts: &Vec<AttachmentDraft>) -> (r: Result<(Vec<Attachment>, Vec<(String, Vec<u8>)>), String>)
    ensures
        match first_invalid(drafts@) {
            Some(p) => r matches Err(e) && e@ == "invalid attachment "@ + p.0 + ": "@ + p.1,
            None => r matches Ok(out) && out.0@.len() == drafts@.len() && (forall|i: int|
                #![trigger out.0@[i]]
                0 <= i < drafts@.len() ==> {
                    let a = out.0@[i];
                    let d = drafts@[i];
                    &&& a.id == d.id
                    &&& a.name == d.name
                    &&& a.kind == d.kind
                    &&& a.audio == d.audio
                    &&& a.files@.len() == d.files@.len()
                    &&& forall|k: int|
                        #![trigger a.files@[k]]
                        0 <= k < d.files@.len() ==> a.files@[k].name == d.files@[k].name
                            && a.files@[k].kind == d.files@[k].kind && a.files@[k].media_type
                            == d.files@[k].media_type && a.files@[k].path@ == memory_path(d.id@, d.files@[k].name@)
                }) && out.1@.map_values(|p: (String, Vec<u8>)| (p.0@, p.1@)) == all_kept_files(drafts@),
        },
{
    let mut attachments: Vec<Attachment> = Vec::new();
    let mut files: Vec<(String, Vec<u8>)> = Vec::new();
    let mut i: usize = 0;
    proof {
        assert(drafts@.take(0) =~= Seq::<AttachmentDraft>::empty());
        assert(files@.map_values(|p: (String, Vec<u8>)| (p.0@, p.1@)) =~= all_kept_files(drafts@.take(0)));
    }
    while i < drafts.len()
        invariant
            i <= drafts@.len(),
            first_invalid(drafts@.take(i as int)) is None,
            attachments@.len() == i,
            forall|j: int|
                #![trigger attachments@[j]]
                0 <= j < i ==> {
                    let a = attachments@[j];
                    let d = drafts@[j];
                    &&& a.id == d.id
                    &&& a.name == d.name
                    &&& a.kind == d.kind
                    &&& a.audio == d.audio
                    &&& a.files@.len() == d.files@.len()
                    &&& forall|k: int|
                        #![trigger a.files@[k]]
                        0 <= k < d.files@.len() ==> a.files@[k].name == d.files@[k].name
                            && a.files@[k].kind == d.files@[k].kind && a.files@[k].media_type
                            == d.files@[k].media_type && a.files@[k].path@ == memory_path(d.id@, d.files@[k].name@)
                },
            files@.map_values(|p: (String, Vec<u8>)| (p.0@, p.1@)) == all_kept_files(drafts@.take(i as int)),
        decreases drafts.len() - i,
    {
        let draft = &drafts[i];
        proof {
            assert(drafts@.take(i as int + 1).drop_last() =~= drafts@.take(i as int));
            assert(drafts@.take(i as int + 1).last() == drafts@[i as int]);
        }
        match draft.validate_files() {
            Err(e) => {
                proof {
                    lemma_first_invalid_prefix(drafts@, i as int + 1);
                    reveal_strlit("invalid attachment ");
                    reveal_strlit(": ");
                }
                return Err(join3("invalid attachment ", draft.name.as_str(), join2(": ", e.as_str()).as_str()));
            },
            Ok(()) => {},
        }
        let mut stored: Vec<AttachmentFile> = Vec::new();
        let ghost files_before = files@.map_values(|p: (String, Vec<u8>)| (p.0@, p.1@));
        let mut k: usize = 0;
        proof {
            assert(kept_files(*draft).take(0) =~= Seq::<(Seq<char>, Seq<u8>)>::empty());
            assert(files_before + kept_files(*draft).take(0) =~= files_before);
        }
        while k < draft.files.len()
            invariant
                k <= draft.files@.len(),
                draft == &drafts@[i as int],
                stored@.len() == k,
                forall|m: int|
                    #![trigger stored@[m]]
                    0 <= m < k ==> stored@[m].name == draft.files@[m].name && stored@[m].kind == draft.files@[m].kind
                        && stored@[m].media_type == draft.files@[m].media_type && stored@[m].path@ == memory_path(
                        draft.id@,
                        draft.files@[m].name@,
                    ),
                files@.map_values(|p: (String, Vec<u8>)| (p.0@, p.1@)) == files_before + kept_files(*draft).take(k as int),
            decreases draft.files.len() - k,
        {
            let file = &draft.files[k];
            let mut path: Vec<char> = Vec::new();
            push_str(&mut path, "attachments/");
            push_str(&mut path, draft.id.as_str());
            push_str(&mut path, "/");
            push_str(&mut path, file.name.as_str());
            proof {
                reveal_strlit("attachments/");
                reveal_strlit("/");
                assert(path@ =~= memory_path(draft.id@, file.name@));
            }
            let path_text = string_of(&path);
            let ghost before = files@;
            files.push((string_of(&path), file.bytes.clone()));
            proof {
                assert(files@.map_values(|p: (String, Vec<u8>)| (p.0@, p.1@)) =~= before.map_values(
                    |p: (String, Vec<u8>)| (p.0@, p.1@),
                ).push((path@, file.bytes@)));
                assert(kept_files(*draft).take(k as int + 1) =~= kept_files(*draft).take(k as int).push(
                    (path@, file.bytes@),
                ));
            }
            stored.push(
                AttachmentFile {
                    name: file.name.clone(),
                    kind: file.kind,
                    path: path_text,
                    media_type: file.media_type.clone(),
                },
            );
            k += 1;
        }
        proof {
            assert(kept_files(*draft).take(draft.files@.len() as int) =~= kept_files(*draft));
            assert(all_kept_files(drafts@.take(i as int + 1)) == all_kept_files(drafts@.take(i as int)) + kept_files(drafts@[i as int]));
        }
        attachments.push(
            Attachment {
                id: draft.id.clone(),
                name: draft.name.clone(),
                kind: draft.kind,
                files: stored,
                audio: draft.audio,
            },
        );
        i += 1;
    }
    proof {
        assert(drafts@.take(drafts@.len() as int) =~= drafts@);
    }
    Ok((attachments, files))
}

/// The kept files of every draft, in order.
pub open spec fn all_kept_files(drafts: Seq<AttachmentDraft>) -> Seq<(Seq<char>, Seq<u8>)>
    decreases drafts.len(),
{
    if drafts.len() == 0 {
        Seq::empty()
    } else {
        all_kept_files(drafts.drop_last()) + kept_files(drafts.last())
    }
}

proof fn lemma_first_invalid_prefix(drafts: Seq<AttachmentDraft>, k: int)
    requires
        0 <= k <= drafts.len(),
        first_invalid(drafts.take(k)) is Some,
    ensures
        first_invalid(drafts) == first_invalid(drafts.take(k)),
    decreases drafts.len() - k,
{
    if k < drafts.len() {
        assert(drafts.take(k + 1).drop_last() =~= drafts.take(k));
        lemma_first_invalid_prefix(drafts, k + 1);
    } else {
        assert(drafts.take(k) =~= drafts);
    }
}

/// How many more attachments a message holding `count` of them may take, or the error shown
/// when it is full.
pub fn attachment_room(count: usize) -> (r: Result<usize, &'static str>)
    ensures
        count < MAX_ATTACHMENTS ==> r == Ok::<usize, &'static str>((MAX_ATTACHMENTS - count) as usize),
        count >= MAX_ATTACHMENTS ==> (r matches Err(e) && e@ == "A message can contain at most 10 attachments."@),
{
    if count >= MAX_ATTACHMENTS {
        Err("A message can contain at most 10 attachments.")
    } else {
        Ok(MAX_ATTACHMENTS - count)
    }
}

} // verus!
