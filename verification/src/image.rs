//! Image files: the image itself, its type from its signature, and its
//! EXIF metadata as read by the `kamadak-exif` crate. A description from a
//! model, where the caller obtained one, is attached to the image.
use vstd::prelude::*;
use crate::archive_formats::{starts_with_bytes, starts_with_u8};
use crate::chars::to_string;
use crate::model::{
    ext_views, opt_str, BlockView, ContentBlock, ConversionOptions, DocPageView, Document, DocumentConverter,
    DocumentView, ExtractedImage, ImageView, Page,
};
use crate::model::copy_opt_str;
use crate::text::{extend_str};

verus! {

/// Image converter.
pub struct ImageConverter;

/// The EXIF fields that `exif::Reader::read_from_container` finds in the
/// bytes, in order, each as its tag and its value with its unit (as their
/// `Display` writes them); none where the bytes hold no readable EXIF data.
pub uninterp spec fn exif_fields(data: Seq<u8>) -> Option<Seq<(Seq<char>, Seq<char>)>>;

/// The views of tag and value pairs.
pub open spec fn pairs_view(v: Seq<(String, String)>) -> Seq<(Seq<char>, Seq<char>)> {
    v.map_values(|p: (String, String)| (p.0@, p.1@))
}

/// Reads the EXIF data of the bytes: each field's tag and its
/// `Field::display_value` with its unit.
#[verifier::external_body]
fn read_exif(data: &[u8]) -> (r: Option<Vec<(String, String)>>)
    ensures
        match r {
            Some(v) => exif_fields(data@) == Some(pairs_view(v@)),
            None => exif_fields(data@) is None,
        },
{
    let exif = exif::Reader::new().read_from_container(&mut std::io::Cursor::new(data)).ok()?;
    Some(exif.fields().map(|f| (f.tag.to_string(), f.display_value().with_unit(&exif).to_string())).collect())
}

/// The MIME type of image bytes by their signature; at least 8 bytes are
/// needed.
pub open spec fn image_mime(b: Seq<u8>) -> Seq<char> {
    if b.len() < 8 {
        "application/octet-stream"@
    } else if starts_with_bytes(b, seq![0x89u8, 0x50, 0x4E, 0x47, 0x0D, 0x0A, 0x1A, 0x0A]) {
        "image/png"@
    } else if starts_with_bytes(b, seq![0xFFu8, 0xD8, 0xFF]) {
        "image/jpeg"@
    } else if starts_with_bytes(b, seq![0x47u8, 0x49, 0x46, 0x38, 0x37, 0x61]) || starts_with_bytes(
        b,
        seq![0x47u8, 0x49, 0x46, 0x38, 0x39, 0x61],
    ) {
        "image/gif"@
    } else if b.len() >= 12 && b.take(4) == seq![0x52u8, 0x49, 0x46, 0x46] && b.subrange(8, 12) == seq![
        0x57u8,
        0x45,
        0x42,
        0x50,
    ] {
        "image/webp"@
    } else if starts_with_bytes(b, seq![0x42u8, 0x4D]) {
        "image/bmp"@
    } else if starts_with_bytes(b, seq![0x49u8, 0x49, 0x2A, 0x00]) || starts_with_bytes(
        b,
        seq![0x4Du8, 0x4D, 0x00, 0x2A],
    ) {
        "image/tiff"@
    } else {
        "application/octet-stream"@
    }
}

/// The fields, one line `tag: value` each.
pub open spec fn exif_text(fields: Seq<(Seq<char>, Seq<char>)>) -> Seq<char>
    decreases fields.len(),
{
    if fields.len() == 0 {
        Seq::empty()
    } else {
        exif_text(fields.drop_last()) + fields.last().0 + ": "@ + fields.last().1 + "\n"@
    }
}

/// The document of an image: where it has EXIF fields, a heading and their
/// text; then the image (`image_1`, page 1, with the context path of the
/// options as its source and the description, where given).
pub open spec fn image_document(
    b: Seq<u8>,
    context_path: Option<Seq<char>>,
    description: Option<Seq<char>>,
) -> DocumentView {
    DocumentView {
        title: None,
        pages: seq![
            DocPageView {
                page_number: 1,
                content: (match exif_fields(b) {
                    Some(f) => if exif_text(f).len() > 0 {
                        seq![
                            BlockView::Heading { level: 2, text: "EXIF Metadata"@ },
                            BlockView::Text(exif_text(f)),
                        ]
                    } else {
                        Seq::empty()
                    },
                    None => Seq::empty(),
                }) + seq![
                    BlockView::Image(
                        ImageView {
                            id: "image_1"@,
                            data: b,
                            mime_type: image_mime(b),
                            alt_text: None,
                            description,
                            width: None,
                            height: None,
                            page_number: Some(1u32),
                            source_path: context_path,
                        },
                    ),
                ],
                rendered_image: None,
            },
        ],
        metadata: Seq::empty(),
    }
}

/// The context path of the options, if any.
pub open spec fn context_path_of(options: Option<&ConversionOptions>) -> Option<Seq<char>> {
    match options {
        Some(o) => opt_str(o.image_context_path),
        None => None,
    }
}

impl ImageConverter {
    /// The MIME type of image bytes by their signature.
    pub fn detect_mime_type(bytes: &[u8]) -> (r: String)
        ensures
            r@ == image_mime(bytes@),
    {
        if bytes.len() >= 8 {
            if starts_with_u8(bytes, &[0x89, 0x50, 0x4E, 0x47, 0x0D, 0x0A, 0x1A, 0x0A]) {
                return String::from_str("image/png");
            }
            if starts_with_u8(bytes, &[0xFF, 0xD8, 0xFF]) {
                return String::from_str("image/jpeg");
            }
            if starts_with_u8(bytes, &[0x47, 0x49, 0x46, 0x38, 0x37, 0x61]) || starts_with_u8(
                bytes,
                &[0x47, 0x49, 0x46, 0x38, 0x39, 0x61],
            ) {
                return String::from_str("image/gif");
            }
            if bytes.len() >= 12 && bytes[0] == 0x52 && bytes[1] == 0x49 && bytes[2] == 0x46 && bytes[3] == 0x46
                && bytes[8] == 0x57 && bytes[9] == 0x45 && bytes[10] == 0x42 && bytes[11] == 0x50 {
                assert(bytes@.take(4) =~= seq![0x52u8, 0x49, 0x46, 0x46]);
                assert(bytes@.subrange(8, 12) =~= seq![0x57u8, 0x45, 0x42, 0x50]);
                return String::from_str("image/webp");
            }
            proof {
                if bytes@.len() >= 12 && bytes@.take(4) == seq![0x52u8, 0x49, 0x46, 0x46] {
                    assert(bytes@[0] == bytes@.take(4)[0]);
                    assert(bytes@[1] == bytes@.take(4)[1]);
                    assert(bytes@[2] == bytes@.take(4)[2]);
                    assert(bytes@[3] == bytes@.take(4)[3]);
                    if bytes@.subrange(8, 12) == seq![0x57u8, 0x45, 0x42, 0x50] {
                        assert(bytes@[8] == bytes@.subrange(8, 12)[0]);
                        assert(bytes@[9] == bytes@.subrange(8, 12)[1]);
                        assert(bytes@[10] == bytes@.subrange(8, 12)[2]);
                        assert(bytes@[11] == bytes@.subrange(8, 12)[3]);
                    }
                }
            }
            if starts_with_u8(bytes, &[0x42, 0x4D]) {
                return String::from_str("image/bmp");
            }
            if starts_with_u8(bytes, &[0x49, 0x49, 0x2A, 0x00]) || starts_with_u8(bytes, &[0x4D, 0x4D, 0x00, 0x2A]) {
                return String::from_str("image/tiff");
            }
        }
        String::from_str("application/octet-stream")
    }

    /// The EXIF metadata of image bytes: one `tag: value` line per field,
    /// or none where there is none.
    pub fn extract_exif_metadata(bytes: &[u8]) -> (r: Option<String>)
        ensures
            opt_str(r) == match exif_fields(bytes@) {
                Some(f) => if exif_text(f).len() > 0 {
                    Some(exif_text(f))
                } else {
                    None
                },
                None => None,
            },
    {
        let fields = match read_exif(bytes) {
            Some(f) => f,
            None => {
                return None;
            },
        };
        let ghost fv = pairs_view(fields@);
        let mut md: Vec<char> = Vec::new();
        let mut i: usize = 0;
        while i < fields.len()
            invariant
                i <= fields@.len(),
                fv == pairs_view(fields@),
                md@ == exif_text(fv.take(i as int)),
            decreases fields@.len() - i,
        {
            extend_str(&mut md, fields[i].0.as_str());
            extend_str(&mut md, ": ");
            extend_str(&mut md, fields[i].1.as_str());
            extend_str(&mut md, "\n");
            proof {
                assert(fv.take(i + 1).drop_last() =~= fv.take(i as int));
            }
            i += 1;
        }
        assert(fv.take(i as int) =~= fv);
        if md.len() == 0 {
            None
        } else {
            Some(to_string(md.as_slice()))
        }
    }

    /// Converts image bytes (see [`image_document`]); `description` is what
    /// a model said of the image, where the caller asked one.
    pub fn bytes_to_document(&self, bytes: &[u8], options: Option<&ConversionOptions>, description: Option<String>) -> (r: Document)
        ensures
            r@ == image_document(bytes@, context_path_of(options), opt_str(description)),
    {
        let mime = Self::detect_mime_type(bytes);
        let mut page = Page::new(1);
        let ghost p0 = page@;
        match Self::extract_exif_metadata(bytes) {
            Some(m) => {
                page.add_content(ContentBlock::Heading { level: 2, text: String::from_str("EXIF Metadata") });
                page.add_content(ContentBlock::Text(m));
            },
            None => {},
        }
        let data = crate::text::sub_vec(bytes, 0, bytes.len());
        assert(data@ =~= bytes@);
        let mut image = ExtractedImage::new(String::from_str("image_1"), data, mime);
        image.page_number = Some(1);
        match options {
            Some(o) => {
                image.source_path = copy_opt_str(&o.image_context_path);
            },
            None => {},
        }
        image.description = description;
        let ghost head = page@.content;
        let ghost iv = image@;
        page.add_content(ContentBlock::Image(image));
        assert(page@.content =~= head.push(BlockView::Image(iv)));
        let mut doc = Document::new();
        let ghost pv = page@;
        doc.add_page(page);
        assert(pv.content =~= image_document(bytes@, context_path_of(options), opt_str(description)).pages[0].content);
        assert(doc@.pages =~= seq![pv]);
        assert(doc@.metadata =~= Seq::<(Seq<char>, Seq<char>)>::empty());
        doc
    }
}

impl DocumentConverter for ImageConverter {
    open spec fn extensions(&self) -> Seq<Seq<char>> {
        seq!["jpg"@, "jpeg"@, "png"@, "gif"@, "webp"@, "bmp"@, "tiff"@, "tif"@]
    }

    fn supported_extensions(&self) -> (r: Vec<&'static str>) {
        let r = vec!["jpg", "jpeg", "png", "gif", "webp", "bmp", "tiff", "tif"];
        assert(ext_views(r@) =~= self.extensions());
        r
    }
}

} // verus!
