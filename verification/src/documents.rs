//! Which images of an Office document are kept, and under which names.
use vstd::prelude::*;

use crate::attachments::{
    image_signature_matches, pad3, pad3_exec, validate_image, MAX_DOCUMENT_IMAGES,
    MAX_DOCUMENT_IMAGE_BYTES, MAX_IMAGE_BYTES,
};
use crate::attachments::{DocumentConversion, OfficeFormat, ParseFailure};
use crate::domain::{AttachmentDraftFile, AttachmentFileKind, DraftFileView, draft_file_views};
use crate::order::{chars_lt, lemma_lex_total, lemma_lex_transitive, lex_lt};
use crate::text::{ascii_lower, chars_of, push_all, push_str, string_of};

verus! {

/// The image formats an Office document may embed.
#[derive(Clone, Copy, Debug, PartialEq, Eq, Structural)]
pub enum MediaFormat {
    Png,
    Jpeg,
    Gif,
    Webp,
    Bmp,
    Tiff,
    Svg,
    Wmf,
    Emf,
    Unknown,
}

/// An image resource of a parsed document.
#[derive(Debug)]
pub struct DocumentResource {
    pub id: String,
    pub filename: Option<String>,
    pub mime_type: Option<String>,
    pub data: Vec<u8>,
}

/// Mathematical model of a [`DocumentResource`].
pub struct ResourceView {
    pub id: Seq<char>,
    pub filename: Option<Seq<char>>,
    pub mime_type: Option<Seq<char>>,
    pub data: Seq<u8>,
}

impl View for DocumentResource {
    type V = ResourceView;

    open spec fn view(&self) -> ResourceView {
        ResourceView {
            id: self.id@,
            filename: crate::domain::opt_view(self.filename),
            mime_type: crate::domain::opt_view(self.mime_type),
            data: self.data@,
        }
    }
}

pub open spec fn resource_views(rs: Seq<DocumentResource>) -> Seq<ResourceView> {
    rs.map_values(|r: DocumentResource| r@)
}


/// The text after the last `.`, if there is a `.`.
pub open spec fn after_last_dot(s: Seq<char>, k: int) -> Option<Seq<char>>
    decreases k,
{
    if k <= 0 || k > s.len() {
        None
    } else if s[k - 1] == '.' {
        Some(s.skip(k))
    } else {
        after_last_dot(s, k - 1)
    }
}

pub open spec fn format_of_extension(e: Seq<char>) -> Option<MediaFormat> {
    if e == "png"@ {
        Some(MediaFormat::Png)
    } else if e == "jpg"@ || e == "jpeg"@ {
        Some(MediaFormat::Jpeg)
    } else if e == "gif"@ {
        Some(MediaFormat::Gif)
    } else if e == "webp"@ {
        Some(MediaFormat::Webp)
    } else if e == "bmp"@ {
        Some(MediaFormat::Bmp)
    } else if e == "tif"@ || e == "tiff"@ {
        Some(MediaFormat::Tiff)
    } else if e == "svg"@ {
        Some(MediaFormat::Svg)
    } else if e == "wmf"@ {
        Some(MediaFormat::Wmf)
    } else if e == "emf"@ {
        Some(MediaFormat::Emf)
    } else {
        None
    }
}

pub open spec fn format_of_mime(m: Option<Seq<char>>) -> MediaFormat {
    match m {
        None => MediaFormat::Unknown,
        Some(t) => if t == "image/png"@ {
            MediaFormat::Png
        } else if t == "image/jpeg"@ {
            MediaFormat::Jpeg
        } else if t == "image/gif"@ {
            MediaFormat::Gif
        } else if t == "image/webp"@ {
            MediaFormat::Webp
        } else if t == "image/bmp"@ {
            MediaFormat::Bmp
        } else if t == "image/tiff"@ {
            MediaFormat::Tiff
        } else if t == "image/svg+xml"@ {
            MediaFormat::Svg
        } else if t == "image/x-wmf"@ {
            MediaFormat::Wmf
        } else if t == "image/x-emf"@ {
            MediaFormat::Emf
        } else {
            MediaFormat::Unknown
        },
    }
}

/// The format of a resource: by the extension of its file name, else by its media type.
pub open spec fn media_format(filename: Option<Seq<char>>, mime: Option<Seq<char>>) -> MediaFormat {
    let extension = match filename {
        Some(f) => match after_last_dot(f, f.len() as int) {
            Some(e) => ascii_lower(e),
            None => Seq::empty(),
        },
        None => Seq::empty(),
    };
    match format_of_extension(extension) {
        Some(f) => f,
        None => format_of_mime(mime),
    }
}

pub open spec fn format_extension(f: MediaFormat) -> Seq<char> {
    match f {
        MediaFormat::Png | MediaFormat::Bmp | MediaFormat::Tiff => "png"@,
        MediaFormat::Jpeg => "jpg"@,
        MediaFormat::Gif => "gif"@,
        MediaFormat::Webp => "webp"@,
        MediaFormat::Svg => "svg"@,
        MediaFormat::Wmf => "wmf"@,
        MediaFormat::Emf => "emf"@,
        MediaFormat::Unknown => "bin"@,
    }
}

/// The raster formats the image library converts to PNG.
#[derive(Clone, Copy, Debug, PartialEq, Eq, Structural)]
pub enum RasterFormat {
    Bmp,
    Tiff,
    Ico,
    Pnm,
}

/// What the image library makes of bytes it decodes in `format` and writes as PNG: the PNG,
/// or whether decoding (`true`) or encoding (`false`) failed, with the library's message.
pub uninterp spec fn png_conversion(bytes: Seq<u8>, format: RasterFormat) -> Result<Seq<u8>, (bool, Seq<char>)>;

/// Decodes with `image::load_from_memory_with_format` and writes the image with
/// `DynamicImage::write_to` as PNG. The result is named: a function of the bytes and the format.
#[verifier::external_body]
pub(crate) fn convert_to_png(bytes: &[u8], format: RasterFormat) -> (r: Result<Vec<u8>, (bool, String)>)
    ensures
        match r {
            Ok(v) => png_conversion(bytes@, format) == Ok::<Seq<u8>, (bool, Seq<char>)>(v@),
            Err(e) => png_conversion(bytes@, format) == Err::<Seq<u8>, (bool, Seq<char>)>((e.0, e.1@)),
        },
{
    let format = match format {
        RasterFormat::Bmp => image::ImageFormat::Bmp,
        RasterFormat::Tiff => image::ImageFormat::Tiff,
        RasterFormat::Ico => image::ImageFormat::Ico,
        RasterFormat::Pnm => image::ImageFormat::Pnm,
    };
    let image = image::load_from_memory_with_format(bytes, format).map_err(|error| (true, error.to_string()))?;
    let mut output = std::io::Cursor::new(Vec::new());
    image.write_to(&mut output, image::ImageFormat::Png).map_err(|error| (false, error.to_string()))?;
    Ok(output.into_inner())
}

/// What a resource becomes: a PNG, JPEG, GIF or WebP whose signature matches, or a BMP or
/// TIFF converted to PNG; other formats are dropped.
pub open spec fn prepared(f: MediaFormat, bytes: Seq<u8>) -> Option<(Seq<char>, Seq<u8>)> {
    let media = match f {
        MediaFormat::Png => Some("image/png"@),
        MediaFormat::Jpeg => Some("image/jpeg"@),
        MediaFormat::Gif => Some("image/gif"@),
        MediaFormat::Webp => Some("image/webp"@),
        _ => None,
    };
    match f {
        MediaFormat::Bmp | MediaFormat::Tiff => match png_conversion(
            bytes,
            if f == MediaFormat::Tiff {
                RasterFormat::Tiff
            } else {
                RasterFormat::Bmp
            },
        ) {
            Ok(png) => Some(("image/png"@, png)),
            Err(_) => None,
        },
        _ => match media {
            Some(m) => if image_signature_matches(bytes, m) {
                Some((m, bytes))
            } else {
                None
            },
            None => None,
        },
    }
}

impl MediaFormat {
    /// The extension a resource of this format is named with.
    pub fn extension(self) -> (r: &'static str)
        ensures
            r@ == format_extension(self),
    {
        match self {
            MediaFormat::Png | MediaFormat::Bmp | MediaFormat::Tiff => "png",
            MediaFormat::Jpeg => "jpg",
            MediaFormat::Gif => "gif",
            MediaFormat::Webp => "webp",
            MediaFormat::Svg => "svg",
            MediaFormat::Wmf => "wmf",
            MediaFormat::Emf => "emf",
            MediaFormat::Unknown => "bin",
        }
    }

    /// The image type and bytes a resource of this format is attached with, if any.
    pub fn prepare(self, bytes: &Vec<u8>) -> (r: Option<(&'static str, Vec<u8>)>)
        ensures
            match prepared(self, bytes@) {
                Some(p) => r matches Some(q) && q.0@ == p.0 && q.1@ == p.1,
                None => r is None,
            },
    {
        let media = match self {
            MediaFormat::Png => "image/png",
            MediaFormat::Jpeg => "image/jpeg",
            MediaFormat::Gif => "image/gif",
            MediaFormat::Webp => "image/webp",
            MediaFormat::Bmp | MediaFormat::Tiff => {
                let format = match self {
                    MediaFormat::Tiff => RasterFormat::Tiff,
                    _ => RasterFormat::Bmp,
                };
                return match convert_to_png(bytes.as_slice(), format) {
                    Ok(png) => Some(("image/png", png)),
                    Err(_) => None,
                };
            },
            _ => {
                return None;
            },
        };
        match validate_image(bytes.as_slice(), media) {
            Ok(()) => Some((media, bytes.clone())),
            Err(_) => None,
        }
    }
}

fn lower_exec(v: &Vec<char>) -> (r: Vec<char>)
    ensures
        r@ == ascii_lower(v@),
{
    let mut out: Vec<char> = Vec::new();
    let mut i: usize = 0;
    while i < v.len()
        invariant
            0 <= i <= v@.len(),
            out@ == ascii_lower(v@.take(i as int)),
        decreases v.len() - i,
    {
        let c = v[i];
        let d = if 'A' <= c && c <= 'Z' {
            crate::text::ascii_lowercase(c)
        } else {
            c
        };
        out.push(d);
        i += 1;
        assert(out@ =~= ascii_lower(v@.take(i as int)));
    }
    assert(v@.take(v@.len() as int) =~= v@);
    out
}

/// The format of a resource with this file name and media type.
pub fn from_resource(filename: &Option<String>, mime_type: &Option<String>) -> (r: MediaFormat)
    ensures
        r == media_format(crate::domain::opt_view(*filename), crate::domain::opt_view(*mime_type)),
{
    let extension: Vec<char> = match filename {
        None => Vec::new(),
        Some(f) => {
            let chars = chars_of(f.as_str());
            let mut k: usize = chars.len();
            while k > 0 && chars[k - 1] != '.'
                invariant
                    0 <= k <= chars@.len(),
                    chars@ == f@,
                    after_last_dot(chars@, chars@.len() as int) == after_last_dot(chars@, k as int),
                decreases k,
            {
                k -= 1;
            }
            if k == 0 {
                Vec::new()
            } else {
                let tail = crate::text::slice_chars(&chars, k, chars.len());
                assert(tail@ =~= chars@.skip(k as int));
                lower_exec(&tail)
            }
        },
    };
    let e = string_of(&extension);
    let s = e.as_str();
    let same = |x: &str| -> (b: bool)
        ensures
            b == (s@ == x@),
        { crate::attachments::same_str(s, x) };
    if same("png") {
        return MediaFormat::Png;
    }
    if same("jpg") || same("jpeg") {
        return MediaFormat::Jpeg;
    }
    if same("gif") {
        return MediaFormat::Gif;
    }
    if same("webp") {
        return MediaFormat::Webp;
    }
    if same("bmp") {
        return MediaFormat::Bmp;
    }
    if same("tif") || same("tiff") {
        return MediaFormat::Tiff;
    }
    if same("svg") {
        return MediaFormat::Svg;
    }
    if same("wmf") {
        return MediaFormat::Wmf;
    }
    if same("emf") {
        return MediaFormat::Emf;
    }
    match mime_type {
        None => MediaFormat::Unknown,
        Some(m) => {
            let t = m.as_str();
            if crate::attachments::same_str(t, "image/png") {
                MediaFormat::Png
            } else if crate::attachments::same_str(t, "image/jpeg") {
                MediaFormat::Jpeg
            } else if crate::attachments::same_str(t, "image/gif") {
                MediaFormat::Gif
            } else if crate::attachments::same_str(t, "image/webp") {
                MediaFormat::Webp
            } else if crate::attachments::same_str(t, "image/bmp") {
                MediaFormat::Bmp
            } else if crate::attachments::same_str(t, "image/tiff") {
                MediaFormat::Tiff
            } else if crate::attachments::same_str(t, "image/svg+xml") {
                MediaFormat::Svg
            } else if crate::attachments::same_str(t, "image/x-wmf") {
                MediaFormat::Wmf
            } else if crate::attachments::same_str(t, "image/x-emf") {
                MediaFormat::Emf
            } else {
                MediaFormat::Unknown
            }
        },
    }
}

/// Identifiers in strictly increasing order.
pub open spec fn sorted_by_id(s: Seq<ResourceView>) -> bool {
    forall|i: int, j: int| 0 <= i < j < s.len() ==> lex_lt(#[trigger] s[i].id, #[trigger] s[j].id)
}

/// No identifier occurs twice (as the keys of a map).
pub open spec fn distinct_ids(s: Seq<ResourceView>) -> bool {
    forall|i: int, j: int| 0 <= i < j < s.len() ==> #[trigger] s[i].id != #[trigger] s[j].id
}

/// The name the `k`-th resource (counted from zero) gets in the rendered document.
pub open spec fn image_name(k: nat, f: MediaFormat) -> Seq<char> {
    "image-"@ + pad3(k + 1) + "."@ + format_extension(f)
}

pub open spec fn resource_format(r: ResourceView) -> MediaFormat {
    media_format(r.filename, r.mime_type)
}

/// The images kept from the resources `order[k..]`, when `kept` images of `total` bytes were
/// kept before: at most 20, each within 10 MiB before and after conversion, 50 MiB together.
pub open spec fn extraction(order: Seq<ResourceView>, k: int, kept: nat, total: nat) -> Seq<DraftFileView>
    decreases order.len() - k,
{
    if k < 0 || k >= order.len() {
        Seq::empty()
    } else {
        let r = order[k];
        let f = resource_format(r);
        if kept >= MAX_DOCUMENT_IMAGES || r.data.len() > MAX_IMAGE_BYTES {
            extraction(order, k + 1, kept, total)
        } else {
            match prepared(f, r.data) {
                None => extraction(order, k + 1, kept, total),
                Some(p) => if p.1.len() > MAX_IMAGE_BYTES || total + p.1.len() > MAX_DOCUMENT_IMAGE_BYTES {
                    extraction(order, k + 1, kept, total)
                } else {
                    seq![
                        DraftFileView {
                            name: image_name(k as nat, f),
                            kind: AttachmentFileKind::Image,
                            media_type: p.0,
                            bytes: p.1,
                        },
                    ] + extraction(order, k + 1, kept + 1, total + p.1.len())
                },
            }
        }
    }
}

/// Resources in strictly increasing identifier order are determined by which resources they
/// are: two such lists of the same resources are equal. So the order the images are numbered
/// in does not depend on the order the resources came in.
pub proof fn lemma_sorted_order_unique(a: Seq<ResourceView>, b: Seq<ResourceView>)
    requires
        sorted_by_id(a),
        sorted_by_id(b),
        a.to_multiset() == b.to_multiset(),
    ensures
        a == b,
    decreases a.len(),
{
    broadcast use vstd::seq_lib::group_to_multiset_ensures;
    assert(a.len() == a.to_multiset().len());
    assert(b.len() == b.to_multiset().len());
    if a.len() == 0 {
        assert(a =~= b);
    } else {
        assert(a.to_multiset().count(a[0]) > 0) by {
            assert(a.contains(a[0]));
        }
        assert(b.contains(a[0]));
        let j = choose|j: int| 0 <= j < b.len() && b[j] == a[0];
        assert(b.to_multiset().count(b[0]) > 0) by {
            assert(b.contains(b[0]));
        }
        assert(a.contains(b[0]));
        let i = choose|i: int| 0 <= i < a.len() && a[i] == b[0];
        if j > 0 {
            assert(lex_lt(b[0].id, b[j].id));
            if i > 0 {
                assert(lex_lt(a[0].id, a[i].id));
                lemma_lex_transitive(a[0].id, b[0].id, a[0].id);
                crate::order::lemma_lex_irreflexive(a[0].id);
            } else {
                crate::order::lemma_lex_irreflexive(a[0].id);
            }
        }
        assert(a[0] == b[0]);
        assert(a.remove(0) =~= a.drop_first());
        assert(b.remove(0) =~= b.drop_first());
        assert(a.drop_first().to_multiset() == a.to_multiset().remove(a[0]));
        assert(b.drop_first().to_multiset() == b.to_multiset().remove(b[0]));
        assert forall|x: int, y: int| 0 <= x < y < a.drop_first().len() implies lex_lt(
            #[trigger] a.drop_first()[x].id,
            #[trigger] a.drop_first()[y].id,
        ) by {
            assert(a.drop_first()[x] == a[x + 1] && a.drop_first()[y] == a[y + 1]);
        }
        assert forall|x: int, y: int| 0 <= x < y < b.drop_first().len() implies lex_lt(
            #[trigger] b.drop_first()[x].id,
            #[trigger] b.drop_first()[y].id,
        ) by {
            assert(b.drop_first()[x] == b[x + 1] && b.drop_first()[y] == b[y + 1]);
        }
        lemma_sorted_order_unique(a.drop_first(), b.drop_first());
        assert(a =~= seq![a[0]] + a.drop_first());
        assert(b =~= seq![b[0]] + b.drop_first());
    }
}

/// The bytes of a list of files together.
pub open spec fn total_bytes(files: Seq<DraftFileView>) -> int
    decreases files.len(),
{
    if files.len() == 0 {
        0
    } else {
        files[0].bytes.len() + total_bytes(files.drop_first())
    }
}

proof fn lemma_extraction_bounded(order: Seq<ResourceView>, k: int, kept: nat, total: nat)
    requires
        kept <= MAX_DOCUMENT_IMAGES,
        total <= MAX_DOCUMENT_IMAGE_BYTES,
    ensures
        extraction(order, k, kept, total).len() + kept <= MAX_DOCUMENT_IMAGES,
        total_bytes(extraction(order, k, kept, total)) + total <= MAX_DOCUMENT_IMAGE_BYTES,
        forall|i: int|
            0 <= i < extraction(order, k, kept, total).len() ==> (#[trigger] extraction(order, k, kept, total)[i]).bytes.len()
                <= MAX_IMAGE_BYTES,
    decreases order.len() - k,
{
    if 0 <= k < order.len() {
        let r = order[k];
        let f = resource_format(r);
        if kept >= MAX_DOCUMENT_IMAGES || r.data.len() > MAX_IMAGE_BYTES {
            lemma_extraction_bounded(order, k + 1, kept, total);
        } else {
            match prepared(f, r.data) {
                None => lemma_extraction_bounded(order, k + 1, kept, total),
                Some(p) => if p.1.len() > MAX_IMAGE_BYTES || total + p.1.len() > MAX_DOCUMENT_IMAGE_BYTES {
                    lemma_extraction_bounded(order, k + 1, kept, total);
                } else {
                    lemma_extraction_bounded(order, k + 1, kept + 1, (total + p.1.len()) as nat);
                    let rest = extraction(order, k + 1, kept + 1, (total + p.1.len()) as nat);
                    let all = extraction(order, k, kept, total);
                    assert(all.drop_first() =~= rest);
                    assert forall|i: int| 0 <= i < all.len() implies (#[trigger] all[i]).bytes.len() <= MAX_IMAGE_BYTES by {
                        if i > 0 {
                            assert(all[i] == rest[i - 1]);
                        }
                    }
                },
            }
        }
    }
}

/// The images kept from an Office document are at most 20, each within 10 MiB, and within
/// 50 MiB together.
pub proof fn lemma_document_images_bounded(order: Seq<ResourceView>)
    ensures
        extraction(order, 0, 0, 0).len() <= MAX_DOCUMENT_IMAGES,
        total_bytes(extraction(order, 0, 0, 0)) <= MAX_DOCUMENT_IMAGE_BYTES,
        forall|i: int|
            0 <= i < extraction(order, 0, 0, 0).len() ==> (#[trigger] extraction(order, 0, 0, 0)[i]).bytes.len()
                <= MAX_IMAGE_BYTES,
{
    lemma_extraction_bounded(order, 0, 0, 0);
}

/// The new file name of each resource, by identifier.
pub open spec fn renames(order: Seq<ResourceView>) -> Seq<(Seq<char>, Seq<char>)> {
    Seq::new(order.len(), |k: int| (order[k].id, image_name(k as nat, resource_format(order[k]))))
}

pub open spec fn pair_views(v: Seq<(String, String)>) -> Seq<(Seq<char>, Seq<char>)> {
    v.map_values(|p: (String, String)| (p.0@, p.1@))
}

/// No identifier of one list occurs in the other.
pub open spec fn disjoint_ids(a: Seq<ResourceView>, b: Seq<ResourceView>) -> bool {
    forall|i: int, j: int| 0 <= i < a.len() && 0 <= j < b.len() ==> #[trigger] a[i].id != #[trigger] b[j].id
}

/// Sorts resources by identifier.
fn sort_by_id(resources: Vec<DocumentResource>) -> (r: Vec<DocumentResource>)
    requires
        distinct_ids(resource_views(resources@)),
    ensures
        sorted_by_id(resource_views(r@)),
        resource_views(r@).to_multiset() =~= resource_views(resources@).to_multiset(),
{
    let ghost input = resource_views(resources@);
    let mut rest = resources;
    let mut sorted: Vec<DocumentResource> = Vec::new();
    proof {
        broadcast use vstd::seq_lib::group_to_multiset_ensures;
        assert(resource_views(sorted@) =~= Seq::<ResourceView>::empty());
        assert(resource_views(sorted@).to_multiset().len() == 0);
        assert(resource_views(sorted@).to_multiset() =~= vstd::multiset::Multiset::<ResourceView>::empty());
    }
    while rest.len() > 0
        invariant
            sorted_by_id(resource_views(sorted@)),
            distinct_ids(resource_views(rest@)),
            disjoint_ids(resource_views(sorted@), resource_views(rest@)),
            resource_views(sorted@).to_multiset().add(resource_views(rest@).to_multiset()) =~= input.to_multiset(),
        decreases rest.len(),
    {
        let ghost before = resource_views(rest@);
        let ghost sorted_before = resource_views(sorted@);
        let item = rest.remove(0);
        let ghost x = item@;
        let item_id = chars_of(item.id.as_str());
        let mut p: usize = sorted.len();
        loop
            invariant
                p <= sorted@.len(),
                item_id@ == x.id,
                sorted_before == resource_views(sorted@),
                forall|j: int| p <= j < sorted_before.len() ==> lex_lt(x.id, #[trigger] sorted_before[j].id),
            ensures
                p <= sorted_before.len(),
                forall|j: int| p <= j < sorted_before.len() ==> lex_lt(x.id, #[trigger] sorted_before[j].id),
                p == 0 || !lex_lt(x.id, sorted_before[p - 1].id),
            decreases p,
        {
            if p == 0 {
                break;
            }
            let prev = chars_of(sorted[p - 1].id.as_str());
            assert(sorted_before[p - 1] == sorted@[p - 1]@);
            if !chars_lt(&item_id, &prev) {
                break;
            }
            p -= 1;
        }
        proof {
            assert(before[0] == x);
            assert(resource_views(rest@) =~= before.remove(0));
            assert forall|i: int| 0 <= i < p implies lex_lt(#[trigger] sorted_before[i].id, x.id) by {
                assert(sorted_before[p - 1].id != before[0].id);
                lemma_lex_total(sorted_before[p - 1].id, x.id);
                if i < p - 1 {
                    lemma_lex_transitive(sorted_before[i].id, sorted_before[p - 1].id, x.id);
                }
            }
        }
        sorted.insert(p, item);
        proof {
            broadcast use vstd::seq_lib::group_to_multiset_ensures;
            let s = resource_views(sorted@);
            let rest_now = resource_views(rest@);
            assert(s =~= sorted_before.insert(p as int, x));
            assert forall|i: int, j: int| 0 <= i < j < s.len() implies lex_lt(#[trigger] s[i].id, #[trigger] s[j].id) by {
                if i < p && j > p {
                    lemma_lex_transitive(s[i].id, x.id, s[j].id);
                }
            }
            assert forall|i: int, j: int| 0 <= i < j < rest_now.len() implies #[trigger] rest_now[i].id != #[trigger] rest_now[j].id by {
                assert(rest_now[i] == before[i + 1] && rest_now[j] == before[j + 1]);
            }
            assert forall|i: int, j: int| 0 <= i < s.len() && 0 <= j < rest_now.len() implies #[trigger] s[i].id != #[trigger] rest_now[j].id by {
                assert(rest_now[j] == before[j + 1]);
                if i < p {
                    assert(s[i] == sorted_before[i]);
                } else if i == p {
                    assert(s[i] == before[0]);
                } else {
                    assert(s[i] == sorted_before[i - 1]);
                }
            }
            lemma_insert_multiset(sorted_before, p as int, x);
            assert(before.remove(0).to_multiset() =~= before.to_multiset().remove(x));
            assert(before.to_multiset().count(x) > 0) by {
                assert(before.contains(x));
            }
        }
    }
    proof {
        broadcast use vstd::seq_lib::group_to_multiset_ensures;
        assert(resource_views(rest@) =~= Seq::<ResourceView>::empty());
        assert(resource_views(rest@).to_multiset() =~= vstd::multiset::Multiset::<ResourceView>::empty());
    }
    sorted
}

proof fn lemma_insert_multiset(s: Seq<ResourceView>, p: int, x: ResourceView)
    requires
        0 <= p <= s.len(),
    ensures
        s.insert(p, x).to_multiset() =~= s.to_multiset().insert(x),
{
    broadcast use vstd::seq_lib::group_to_multiset_ensures;
    let t = s.insert(p, x);
    assert(t.remove(p) =~= s);
    assert(t[p] == x);
    assert(t.remove(p).to_multiset() =~= t.to_multiset().remove(x));
    assert(t.to_multiset().count(x) > 0) by {
        assert(t.contains(x));
    }
}

/// Picks the images of an Office document: resources are taken in the order of their
/// identifiers, the `k`-th is named `image-NNN.ext` after its format, and the images that
/// pass the limits are returned as files. Every resource gets its new name, whether it is
/// kept or not.
pub fn extract_images(resources: Vec<DocumentResource>) -> (r: (Vec<(String, String)>, Vec<AttachmentDraftFile>))
    requires
        distinct_ids(resource_views(resources@)),
    ensures
        exists|order: Seq<ResourceView>|
            #![trigger sorted_by_id(order)]
            sorted_by_id(order)
            && order.to_multiset() =~= resource_views(resources@).to_multiset()
            && pair_views(r.0@) == renames(order)
            && draft_file_views(r.1@) == extraction(order, 0, 0, 0),
{
    let sorted = sort_by_id(resources);
    let ghost order = resource_views(sorted@);
    let mut names: Vec<(String, String)> = Vec::new();
    let mut files: Vec<AttachmentDraftFile> = Vec::new();
    let mut total: u64 = 0;
    let mut k: usize = 0;
    while k < sorted.len()
        invariant
            k <= sorted@.len(),
            order == resource_views(sorted@),
            total <= MAX_DOCUMENT_IMAGE_BYTES,
            files@.len() <= MAX_DOCUMENT_IMAGES,
            pair_views(names@) == renames(order).take(k as int),
            draft_file_views(files@) + extraction(order, k as int, files@.len() as nat, total as nat)
                == extraction(order, 0, 0, 0),
        decreases sorted.len() - k,
    {
        let resource = &sorted[k];
        let ghost rv = order[k as int];
        assert(rv == resource@);
        let format = from_resource(&resource.filename, &resource.mime_type);
        let mut name_chars: Vec<char> = Vec::new();
        push_str(&mut name_chars, "image-");
        let number = pad3_exec(k as u64 + 1);
        push_all(&mut name_chars, &number);
        push_str(&mut name_chars, ".");
        push_str(&mut name_chars, format.extension());
        let name = string_of(&name_chars);
        proof {
            reveal_strlit("image-");
            reveal_strlit(".");
            assert(name@ =~= image_name(k as nat, format));
        }
        let ghost names_before = names@;
        let id = resource.id.clone();
        let name_copy = name.clone();
        names.push((id, name_copy));
        proof {
            assert(format == resource_format(rv));
            assert(names@ == names_before.push((id, name_copy)));
            assert(pair_views(names@) =~= pair_views(names_before).push((rv.id, image_name(k as nat, resource_format(rv)))));
            assert(renames(order).take(k as int + 1) =~= renames(order).take(k as int).push(renames(order)[k as int]));
        }
        let ghost prefix = draft_file_views(files@);
        if files.len() >= MAX_DOCUMENT_IMAGES || resource.data.len() as u64 > MAX_IMAGE_BYTES {
            k += 1;
            continue;
        }
        let prepared_image = format.prepare(&resource.data);
        match prepared_image {
            None => {
                k += 1;
            },
            Some((media_type, bytes)) => {
                let size = bytes.len() as u64;
                if size > MAX_IMAGE_BYTES || total + size > MAX_DOCUMENT_IMAGE_BYTES {
                    k += 1;
                } else {
                    total = total + size;
                    files.push(
                        AttachmentDraftFile {
                            name,
                            kind: AttachmentFileKind::Image,
                            media_type: String::from_str(media_type),
                            bytes,
                        },
                    );
                    proof {
                        assert(draft_file_views(files@) =~= prefix + seq![
                            DraftFileView {
                                name: image_name(k as nat, format),
                                kind: AttachmentFileKind::Image,
                                media_type: media_type@,
                                bytes: bytes@,
                            },
                        ]);
                    }
                    k += 1;
                }
            },
        }
    }
    proof {
        assert(renames(order).take(sorted@.len() as int) =~= renames(order));
        assert(extraction(order, k as int, files@.len() as nat, total as nat) =~= Seq::<DraftFileView>::empty());
        assert(draft_file_views(files@) + Seq::<DraftFileView>::empty() =~= draft_file_views(files@));
    }
    (names, files)
}

#[verifier::external_type_specification]
#[verifier::external_body]
pub struct ExOfficeDocument(undoc::Document);

/// What `undoc::parse_bytes` makes of bytes: `None` when it refuses them; otherwise the
/// format it found (`Document::format`, `None` inside for the legacy binary formats) and the
/// resources of the document (`Document::resources`, a map by identifier), each as plain
/// values. Whether the parser refuses is a function of the bytes (it reads every part it
/// needs, in whatever order, and refuses when one fails); so is the format, detected from the
/// container first, and so are the resources, each stored under its own identifier.
pub uninterp spec fn parsed_office(bytes: Seq<u8>) -> Option<(Option<OfficeFormat>, vstd::multiset::Multiset<ResourceView>)>;

/// Parses Office bytes with `undoc::parse_bytes`, handing back the document with the format
/// it was found to be and its resources, or, for a refusal, whether its kind is
/// `ErrorKind::Encrypted` and its message. Claimed: success, the format and the resources
/// (as a multiset: the map is walked in no fixed order) are `parsed_office` of the bytes, and
/// no identifier occurs twice, as the keys of a map. Nothing is stated of the refusal's kind
/// and message: when several parts fail, which failure is reported depends on the order in
/// which the parser walks a hash map of relationships. Nothing is stated of the rest of the
/// document.
#[verifier::external_body]
fn parse_office(bytes: &[u8]) -> (r: Result<(undoc::Document, Option<OfficeFormat>, Vec<DocumentResource>), (bool, String)>)
    ensures
        match r {
            Ok(parsed) => parsed_office(bytes@) == Some((parsed.1, resource_views(parsed.2@).to_multiset()))
                && distinct_ids(resource_views(parsed.2@)),
            Err(_) => parsed_office(bytes@) is None,
        },
{
    let document = undoc::parse_bytes(bytes).map_err(|e| (e.kind() == undoc::ErrorKind::Encrypted, e.to_string()))?;
    let format = match document.format {
        undoc::FormatType::Docx => Some(OfficeFormat::Docx),
        undoc::FormatType::Xlsx => Some(OfficeFormat::Xlsx),
        undoc::FormatType::Pptx => Some(OfficeFormat::Pptx),
        undoc::FormatType::Doc => None,
        undoc::FormatType::Xls => None,
        undoc::FormatType::Ppt => None,
    };
    let resources = document.resources.iter().map(|(id, r)| DocumentResource {
        id: id.clone(), filename: r.filename.clone(), mime_type: r.mime_type.clone(), data: r.data.clone(),
    }).collect();
    Ok((document, format, resources))
}

/// Sets the file name of the document's resource `id`, which the rendered Markdown refers to.
#[verifier::external_body]
fn rename_resource(document: &mut undoc::Document, id: &String, name: String) {
    if let Some(resource) = document.resources.get_mut(id.as_str()) {
        resource.filename = Some(name);
    }
}

/// Renders a document with `undoc::render::to_markdown`, with section markers written as
/// comments when asked (`RenderOptions::with_section_markers(SectionMarkerStyle::Comment)`).
/// Claimed: rendering succeeds, as with these options (no heading analysis, no cleanup) the
/// renderer has no failing step. Nothing is stated of the text: the parsed document it
/// renders can depend on the order in which the parser walks hash maps (tables made from
/// the charts of a slide come in that order), so the text is not a function of the bytes.
#[verifier::external_body]
fn document_markdown(document: &undoc::Document, section_comments: bool) -> (r: Result<String, String>)
    ensures
        r is Ok,
{
    let options = match section_comments {
        true => undoc::render::RenderOptions::default().with_section_markers(undoc::SectionMarkerStyle::Comment),
        false => undoc::render::RenderOptions::default(),
    };
    undoc::render::to_markdown(document, &options).map_err(|error| error.to_string())
}

/// Workbooks and presentations are rendered with their sections marked; documents are not.
pub fn section_markers(format: OfficeFormat) -> (r: bool)
    ensures
        r == (format != OfficeFormat::Docx),
{
    match format {
        OfficeFormat::Docx => false,
        OfficeFormat::Xlsx | OfficeFormat::Pptx => true,
    }
}

/// A parsed Office document together with its resources as they were parsed.
pub struct ParsedDocument {
    pub document: undoc::Document,
    resources: Vec<DocumentResource>,
}

impl ParsedDocument {
    /// The resources of the document as they were parsed.
    pub closed spec fn parsed_resources(&self) -> Seq<ResourceView> {
        resource_views(self.resources@)
    }

    /// No identifier occurs twice among the resources.
    pub closed spec fn wf(&self) -> bool {
        distinct_ids(resource_views(self.resources@))
    }
}

/// Parses an Office file expected to be in `expected` format. A refusal of the parser, a
/// legacy binary format, or another format than expected ends the conversion here;
/// otherwise the document is handed back, with its resources, to have its images taken or
/// removed.
pub fn parse_document(bytes: &[u8], expected: OfficeFormat) -> (r: Result<ParsedDocument, DocumentConversion>)
    ensures
        match parsed_office(bytes@) {
            None => r matches Err(c) && c.parsed is Err && c.images@.len() == 0,
            Some((None, _)) => r matches Err(c) && c.parsed matches Err(p) && !p.encrypted
                && p.message@ == "unsupported legacy Office content"@ && c.images@.len() == 0,
            Some((Some(found), resources)) => if found == expected {
                r matches Ok(p) && p.wf() && p.parsed_resources().to_multiset() == resources
            } else {
                r matches Err(c) && c.parsed == Ok::<OfficeFormat, ParseFailure>(found) && c.images@.len() == 0
            },
        },
{
    let (document, format, resources) = match parse_office(bytes) {
        Err(failure) => {
            return Err(
                DocumentConversion {
                    parsed: Err(ParseFailure { encrypted: failure.0, message: failure.1 }),
                    markdown: Err(String::new()),
                    images: Vec::new(),
                },
            );
        },
        Ok(parsed) => parsed,
    };
    match format {
        None => Err(
            DocumentConversion {
                parsed: Err(
                    ParseFailure { encrypted: false, message: String::from_str("unsupported legacy Office content") },
                ),
                markdown: Err(String::new()),
                images: Vec::new(),
            },
        ),
        Some(found) => if found != expected {
            Err(DocumentConversion { parsed: Ok(found), markdown: Err(String::new()), images: Vec::new() })
        } else {
            Ok(ParsedDocument { document, resources })
        },
    }
}

/// Takes the images of a parsed document: its resources are picked and named as
/// `extract_images` does (in the order of their identifiers), and each resource takes its new
/// name in the document. The resources are handed over: none stay with the parsed document.
pub fn take_document_images(parsed: &mut ParsedDocument) -> (r: Vec<AttachmentDraftFile>)
    requires
        old(parsed).wf(),
    ensures
        exists|order: Seq<ResourceView>|
            #![trigger sorted_by_id(order)]
            sorted_by_id(order) && order.to_multiset() =~= old(parsed).parsed_resources().to_multiset()
                && draft_file_views(r@) == extraction(order, 0, 0, 0),
        final(parsed).parsed_resources().len() == 0,
{
    let mut resources = Vec::new();
    std::mem::swap(&mut resources, &mut parsed.resources);
    let (names, files) = extract_images(resources);
    let mut rest = names;
    while rest.len() > 0
        invariant
            parsed.resources@.len() == 0,
        decreases rest.len(),
    {
        let (id, name) = rest.remove(0);
        rename_resource(&mut parsed.document, &id, name);
    }
    files
}

/// Renders a parsed document as Markdown, with section markers for workbooks and
/// presentations. Rendering always succeeds; the text is the renderer's.
pub fn render_document(document: &undoc::Document, format: OfficeFormat) -> (r: Result<String, String>)
    ensures
        r is Ok,
{
    document_markdown(document, section_markers(format))
}

} // verus!
