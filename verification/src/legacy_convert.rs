//! Word (.doc) and PowerPoint (.ppt) files: streams of the compound file,
//! read with the cfb crate, turned into a page of text and images; and the
//! template formats, which are converted as their modern counterparts.
use vstd::prelude::*;
use crate::chars::to_string;
use crate::error::{is_parse_error, parse_error, MarkitdownError};
use crate::legacy_office::{
    ext_of, image_scan, mime_of, numbered, pictures_from, ppt_scan, DocConverter, ImageFormat, LegacyImage,
    PptConverter,
};
use crate::model::{
    ext_views, extracts_images, opt_str, BlockView, ContentBlock, ConversionOptions, DocPageView, Document,
    DocumentConverter, DocumentView, ExtractedImage, ImageView, Page, blocks_view, pages_of,
};
use crate::office_text::{opt_chars, word_text};
use crate::ppt_text::ppt_text;
use crate::text::{chars_of, decimal, extend_chars, extend_str, is_blank, push_decimal, trim};

verus! {

// ---------------------------------------------------------------------
// Compound files
// ---------------------------------------------------------------------

/// The message of the error that `cfb::CompoundFile::open` gives for the
/// data, if it gives one.
pub uninterp spec fn cfb_open_error(data: Seq<u8>) -> Option<Seq<char>>;

/// What a stream of the compound file holds: the bytes read from it and
/// whether the read completed; `None` where the file does not open or has
/// no such stream.
pub uninterp spec fn cfb_stream(data: Seq<u8>, path: Seq<char>) -> Option<(Seq<u8>, bool)>;

/// Calls `cfb::CompoundFile::open` on the data; the message of its error,
/// if any.
#[verifier::external_body]
fn cfb_open_check(data: &[u8]) -> (r: Option<Vec<char>>)
    ensures
        opt_chars(r) == cfb_open_error(data@),
{
    match cfb::CompoundFile::open(std::io::Cursor::new(data)) {
        Ok(_) => None,
        Err(e) => Some(e.to_string().chars().collect()),
    }
}

/// Opens the compound file (`cfb::CompoundFile::open`), then the stream
/// (`CompoundFile::open_stream`), and reads it to the end
/// (`Read::read_to_end`): the bytes read and whether the read completed.
#[verifier::external_body]
fn cfb_read_stream(data: &[u8], path: &str) -> (r: Option<(Vec<u8>, bool)>)
    ensures
        match r {
            Some((d, ok)) => cfb_stream(data@, path@) == Some((d@, ok)),
            None => cfb_stream(data@, path@) is None,
        },
{
    let mut file = match cfb::CompoundFile::open(std::io::Cursor::new(data)) {
        Ok(f) => f,
        Err(_) => return None,
    };
    let mut stream = match file.open_stream(path) {
        Ok(s) => s,
        Err(_) => return None,
    };
    let mut out: Vec<u8> = Vec::new();
    let ok = std::io::Read::read_to_end(&mut stream, &mut out).is_ok();
    Some((out, ok))
}

/// The bytes of a stream, if it was read completely.
pub open spec fn complete_stream(data: Seq<u8>, path: Seq<char>) -> Option<Seq<u8>> {
    match cfb_stream(data, path) {
        Some((d, true)) => Some(d),
        _ => None,
    }
}

/// The bytes of a stream when it was read completely.
fn read_complete(data: &[u8], path: &str) -> (r: Option<Vec<u8>>)
    ensures
        match r {
            Some(d) => complete_stream(data@, path@) == Some(d@),
            None => complete_stream(data@, path@) is None,
        },
{
    match cfb_read_stream(data, path) {
        Some((d, true)) => Some(d),
        _ => None,
    }
}

// ---------------------------------------------------------------------
// Pages of text and images
// ---------------------------------------------------------------------

/// The Markdown of a legacy file: a heading, then the text; a note when the
/// text is blank; an explanation when there is none.
pub open spec fn legacy_markdown(
    heading: Seq<char>,
    text: Option<Seq<char>>,
    empty_note: Seq<char>,
    failure: Seq<char>,
) -> Seq<char> {
    heading + match text {
        Some(t) => if trim(t).len() > 0 {
            t
        } else {
            empty_note
        },
        None => failure,
    }
}

/// The image block of image number `k` (from 1): id `prefix` and the
/// number, the format's MIME type, alt text `alt` with the number and the
/// format's extension, on page 1.
pub open spec fn legacy_image(prefix: Seq<char>, alt: Seq<char>, k: nat, img: (Seq<u8>, ImageFormat)) -> BlockView {
    BlockView::Image(
        ImageView {
            id: prefix + decimal(k),
            data: img.0,
            mime_type: mime_of(img.1),
            alt_text: Some(alt + decimal(k) + "."@ + ext_of(img.1)),
            description: None,
            width: None,
            height: None,
            page_number: Some(1),
            source_path: None,
        },
    )
}

/// The image blocks of the images, numbered from 1.
pub open spec fn legacy_images(prefix: Seq<char>, alt: Seq<char>, imgs: Seq<(Seq<u8>, ImageFormat)>) -> Seq<
    BlockView,
> {
    Seq::new(imgs.len(), |k: int| legacy_image(prefix, alt, (k + 1) as nat, imgs[k]))
}

/// A document of one page: the Markdown, then the image blocks.
pub open spec fn legacy_document(md: Seq<char>, images: Seq<BlockView>) -> DocumentView {
    DocumentView {
        title: None,
        pages: seq![
            DocPageView {
                page_number: 1,
                content: seq![BlockView::Markdown(md)] + images,
                rendered_image: None,
            },
        ],
        metadata: seq![],
    }
}

/// Adds the image blocks of the images to the page.
fn add_images(page: &mut Page, images: Vec<LegacyImage>, prefix: &str, alt: &str, Ghost(s): Ghost<
    Seq<(Seq<u8>, ImageFormat)>,
>)
    requires
        numbered(images@, s),
    ensures
        final(page)@ == (DocPageView {
            content: old(page)@.content + legacy_images(prefix@, alt@, s),
            ..old(page)@
        }),
{
    let ghost c0 = old(page)@.content;
    let mut k: usize = 0;
    let n = images.len();
    let mut images = images;
    while k < n
        invariant
            n == images@.len() + k,
            forall|j: int| 0 <= j < images@.len() ==> (#[trigger] images@[j]).data@ == s[j + k].0
                && images@[j].format == s[j + k].1 && images@[j].index == j + k + 1,
            s.len() == n,
            page@.page_number == old(page)@.page_number,
            page@.rendered_image == old(page)@.rendered_image,
            page@.content == c0 + legacy_images(prefix@, alt@, s).take(k as int),
        decreases n - k,
    {
        let img = images.remove(0);
        let mut id: Vec<char> = Vec::new();
        extend_str(&mut id, prefix);
        push_decimal(&mut id, img.index);
        let mut alt_text: Vec<char> = Vec::new();
        extend_str(&mut alt_text, alt);
        push_decimal(&mut alt_text, img.index);
        extend_str(&mut alt_text, ".");
        extend_str(&mut alt_text, img.format.extension());
        let mut e = ExtractedImage::new(to_string(id.as_slice()), img.data, String::from_str(img.format.mime_type()));
        e.alt_text = Some(to_string(alt_text.as_slice()));
        e.page_number = Some(1);
        let ghost before = page@.content;
        page.add_content(ContentBlock::Image(e));
        assert(page@.content =~= before.push(legacy_image(prefix@, alt@, (k + 1) as nat, s[k as int])));
        assert(legacy_images(prefix@, alt@, s).take(k + 1) =~= legacy_images(prefix@, alt@, s).take(
            k as int,
        ).push(legacy_image(prefix@, alt@, (k + 1) as nat, s[k as int])));
        k += 1;
    }
    assert(legacy_images(prefix@, alt@, s).take(k as int) =~= legacy_images(prefix@, alt@, s));
}

/// A one-page document of the Markdown and, when images are extracted, the
/// image blocks.
fn legacy_page(md: Vec<char>, images: Option<Vec<LegacyImage>>, prefix: &str, alt: &str, Ghost(s): Ghost<
    Seq<(Seq<u8>, ImageFormat)>,
>) -> (r: Document)
    requires
        images matches Some(v) ==> numbered(v@, s),
    ensures
        r@ == legacy_document(md@, if images is Some {
            legacy_images(prefix@, alt@, s)
        } else {
            seq![]
        }),
{
    let mut page = Page::new(1);
    page.add_content(ContentBlock::Markdown(to_string(md.as_slice())));
    assert(page@.content =~= seq![BlockView::Markdown(md@)]);
    let has = images.is_some();
    match images {
        Some(v) => add_images(&mut page, v, prefix, alt, Ghost(s)),
        None => {
            assert(page@.content =~= page@.content + Seq::<BlockView>::empty());
        },
    }
    let mut document = Document::new();
    document.add_page(page);
    assert(document@.metadata =~= Seq::<(Seq<char>, Seq<char>)>::empty());
    assert(document@.pages =~= legacy_document(md@, if has {
        legacy_images(prefix@, alt@, s)
    } else {
        seq![]
    }).pages);
    document
}

/// Appends the Markdown of a legacy file.
fn legacy_md(heading: &str, text: Option<Vec<char>>, empty_note: &str, failure: &str) -> (r: Vec<char>)
    ensures
        r@ == legacy_markdown(heading@, opt_chars(text), empty_note@, failure@),
{
    let mut md: Vec<char> = Vec::new();
    extend_str(&mut md, heading);
    match text {
        Some(t) => {
            if !is_blank(t.as_slice()) {
                extend_chars(&mut md, t.as_slice());
            } else {
                extend_str(&mut md, empty_note);
            }
        },
        None => extend_str(&mut md, failure),
    }
    md
}

// ---------------------------------------------------------------------
// Word
// ---------------------------------------------------------------------

/// The text of a Word file, from its WordDocument stream.
pub open spec fn doc_text(data: Seq<u8>) -> Option<Seq<char>> {
    match cfb_stream(data, "/WordDocument"@) {
        Some((d, _)) => word_text(d),
        None => None,
    }
}

/// The images of a Word file: those of the Data stream, then of the
/// Pictures stream when it is not empty; when neither has any, those found
/// in the WordDocument stream.
pub open spec fn doc_images(data: Seq<u8>) -> Seq<(Seq<u8>, ImageFormat)> {
    let a = match complete_stream(data, "/Data"@) {
        Some(d) => image_scan(d, 0, 8),
        None => seq![],
    };
    let b = match complete_stream(data, "/Pictures"@) {
        Some(d) => if d.len() > 0 {
            image_scan(d, 0, 8)
        } else {
            seq![]
        },
        None => seq![],
    };
    if (a + b).len() > 0 {
        a + b
    } else {
        match complete_stream(data, "/WordDocument"@) {
            Some(d) => image_scan(d, 0, 16),
            None => seq![],
        }
    }
}

/// The document of a Word file, or the message of the error opening it.
pub open spec fn doc_document(data: Seq<u8>, with_images: bool) -> Result<DocumentView, Seq<char>> {
    match cfb_open_error(data) {
        Some(e) => Err("DOC parse error: "@ + e),
        None => Ok(
            legacy_document(
                legacy_markdown(
                    "# Word Document (.doc)\n\n"@,
                    doc_text(data),
                    "*Document appears to be empty or contains only formatting.*\n"@,
                    "*Unable to extract text from legacy Word document.*\n\nThis .doc file uses a binary format. Consider converting to .docx for better extraction.\n"@,
                ),
                if with_images {
                    legacy_images("doc_image_"@, "image"@, doc_images(data))
                } else {
                    seq![]
                },
            ),
        ),
    }
}

/// Renumbers images from 1 in order.
fn renumber(images: Vec<LegacyImage>, Ghost(s): Ghost<Seq<(Seq<u8>, ImageFormat)>>) -> (r: Vec<LegacyImage>)
    requires
        images@.len() == s.len(),
        forall|k: int| 0 <= k < s.len() ==> (#[trigger] images@[k]).data@ == s[k].0 && images@[k].format == s[k].1,
    ensures
        numbered(r@, s),
{
    let mut out: Vec<LegacyImage> = Vec::new();
    let mut images = images;
    let n = images.len();
    let mut k: usize = 0;
    while k < n
        invariant
            n == s.len(),
            images@.len() == n - k,
            forall|j: int| 0 <= j < images@.len() ==> (#[trigger] images@[j]).data@ == s[j + k].0
                && images@[j].format == s[j + k].1,
            numbered(out@, s.take(k as int)),
        decreases n - k,
    {
        let img = images.remove(0);
        out.push(LegacyImage { data: img.data, format: img.format, index: k + 1 });
        k += 1;
    }
    assert(s.take(k as int) =~= s);
    out
}

/// Appends the images to the list.
fn append_images(a: &mut Vec<LegacyImage>, b: Vec<LegacyImage>, Ghost(sa): Ghost<Seq<(Seq<u8>, ImageFormat)>>, Ghost(sb): Ghost<Seq<(Seq<u8>, ImageFormat)>>)
    requires
        old(a)@.len() == sa.len(),
        forall|k: int| 0 <= k < sa.len() ==> (#[trigger] old(a)@[k]).data@ == sa[k].0 && old(a)@[k].format == sa[k].1,
        numbered(b@, sb),
    ensures
        final(a)@.len() == (sa + sb).len(),
        forall|k: int| 0 <= k < (sa + sb).len() ==> (#[trigger] final(a)@[k]).data@ == (sa + sb)[k].0 && final(a)@[k].format == (sa + sb)[k].1,
{
    let mut b = b;
    let n = b.len();
    let mut k: usize = 0;
    while k < n
        invariant
            n == sb.len(),
            b@.len() == n - k,
            forall|j: int| 0 <= j < b@.len() ==> (#[trigger] b@[j]).data@ == sb[j + k].0 && b@[j].format == sb[j + k].1,
            a@.len() == sa.len() + k,
            forall|j: int| 0 <= j < sa.len() + k ==> (#[trigger] a@[j]).data@ == (sa + sb)[j].0 && a@[j].format == (sa + sb)[j].1,
        decreases n - k,
    {
        let img = b.remove(0);
        a.push(img);
        k += 1;
    }
}

impl DocConverter {
    /// The images of a Word file, numbered from 1.
    pub fn extract_images_from_doc(bytes: &[u8]) -> (r: Vec<LegacyImage>)
        ensures
            numbered(r@, doc_images(bytes@)),
    {
        let ghost sa = match complete_stream(bytes@, "/Data"@) {
            Some(d) => image_scan(d, 0, 8),
            None => seq![],
        };
        let ghost sb = match complete_stream(bytes@, "/Pictures"@) {
            Some(d) => if d.len() > 0 {
                image_scan(d, 0, 8)
            } else {
                seq![]
            },
            None => seq![],
        };
        let mut images: Vec<LegacyImage> = Vec::new();
        match read_complete(bytes, "/Data") {
            Some(d) => {
                images = Self::extract_blips_from_data(d.as_slice());
            },
            None => {},
        }
        match read_complete(bytes, "/Pictures") {
            Some(d) => {
                if d.len() > 0 {
                    let found = Self::extract_blips_from_data(d.as_slice());
                    append_images(&mut images, found, Ghost(sa), Ghost(sb));
                } else {
                    append_images(&mut images, Vec::new(), Ghost(sa), Ghost(sb));
                }
            },
            None => {
                append_images(&mut images, Vec::new(), Ghost(sa), Ghost(sb));
            },
        }
        if images.len() == 0 {
            match read_complete(bytes, "/WordDocument") {
                Some(d) => {
                    return Self::scan_for_images(d.as_slice());
                },
                None => {
                    return Vec::new();
                },
            }
        }
        renumber(images, Ghost(sa + sb))
    }

    /// Converts a Word file: a page with the text of its WordDocument stream
    /// and, when images are extracted, its images; a parse error when the
    /// compound file does not open.
    pub fn convert_doc(bytes: &[u8], options: Option<&ConversionOptions>) -> (r: Result<Document, MarkitdownError>)
        ensures
            match doc_document(bytes@, extracts_images(options)) {
                Ok(d) => r matches Ok(x) && x@ == d,
                Err(m) => r matches Err(e) && is_parse_error(e, m),
            },
    {
        match cfb_open_check(bytes) {
            Some(e) => {
                return Err(parse_error("DOC parse error: ", e.as_slice()));
            },
            None => {},
        }
        let text = match cfb_read_stream(bytes, "/WordDocument") {
            Some((d, _)) => Self::extract_text_from_word_document(d.as_slice()),
            None => None,
        };
        let md = legacy_md(
            "# Word Document (.doc)\n\n",
            text,
            "*Document appears to be empty or contains only formatting.*\n",
            "*Unable to extract text from legacy Word document.*\n\nThis .doc file uses a binary format. Consider converting to .docx for better extraction.\n",
        );
        let extract = match options {
            Some(o) => o.extract_images,
            None => true,
        };
        let images = if extract {
            Some(Self::extract_images_from_doc(bytes))
        } else {
            None
        };
        Ok(legacy_page(md, images, "doc_image_", "image", Ghost(doc_images(bytes@))))
    }

    /// Converts a Word file (see [`DocConverter::convert_doc`]).
    pub fn convert_bytes(&self, bytes: &[u8], options: Option<&ConversionOptions>) -> (r: Result<Document, MarkitdownError>)
        ensures
            match doc_document(bytes@, extracts_images(options)) {
                Ok(d) => r matches Ok(x) && x@ == d,
                Err(m) => r matches Err(e) && is_parse_error(e, m),
            },
    {
        Self::convert_doc(bytes, options)
    }
}

impl DocumentConverter for DocConverter {
    open spec fn extensions(&self) -> Seq<Seq<char>> {
        seq![".doc"@]
    }

    fn supported_extensions(&self) -> (r: Vec<&'static str>) {
        let r = vec![".doc"];
        assert(ext_views(r@) =~= self.extensions());
        r
    }
}

// ---------------------------------------------------------------------
// PowerPoint
// ---------------------------------------------------------------------

/// The text of a PowerPoint file, from its PowerPoint Document stream.
pub open spec fn ppt_file_text(data: Seq<u8>) -> Option<Seq<char>> {
    match cfb_stream(data, "/PowerPoint Document"@) {
        Some((d, _)) => ppt_text(d),
        None => None,
    }
}

/// The images of a PowerPoint file: those of the Pictures stream when it
/// is not empty; when it has none, those found in the PowerPoint Document
/// stream.
pub open spec fn ppt_images(data: Seq<u8>) -> Seq<(Seq<u8>, ImageFormat)> {
    let a = match complete_stream(data, "/Pictures"@) {
        Some(d) => if d.len() > 0 {
            pictures_from(d, 0)
        } else {
            seq![]
        },
        None => seq![],
    };
    if a.len() > 0 {
        a
    } else {
        match complete_stream(data, "/PowerPoint Document"@) {
            Some(d) => ppt_scan(d, 0),
            None => seq![],
        }
    }
}

/// The document of a PowerPoint file, or the message of the error opening
/// it.
pub open spec fn ppt_document(data: Seq<u8>, with_images: bool) -> Result<DocumentView, Seq<char>> {
    match cfb_open_error(data) {
        Some(e) => Err("PPT parse error: "@ + e),
        None => Ok(
            legacy_document(
                legacy_markdown(
                    "# PowerPoint Presentation (.ppt)\n\n"@,
                    ppt_file_text(data),
                    "*Presentation appears to be empty or contains only images.*\n"@,
                    "*Unable to extract text from legacy PowerPoint document.*\n\nThis .ppt file uses a binary format. Consider converting to .pptx for better extraction.\n"@,
                ),
                if with_images {
                    legacy_images("ppt_image_"@, "slide_image"@, ppt_images(data))
                } else {
                    seq![]
                },
            ),
        ),
    }
}

impl PptConverter {
    /// The images of a PowerPoint file, numbered from 1.
    pub fn extract_images_from_ppt(bytes: &[u8]) -> (r: Vec<LegacyImage>)
        ensures
            numbered(r@, ppt_images(bytes@)),
    {
        let mut images: Vec<LegacyImage> = Vec::new();
        match read_complete(bytes, "/Pictures") {
            Some(d) => {
                if d.len() > 0 {
                    images = Self::parse_pictures_stream(d.as_slice());
                }
            },
            None => {},
        }
        if images.len() == 0 {
            match read_complete(bytes, "/PowerPoint Document") {
                Some(d) => {
                    images = Self::scan_ppt_for_images(d.as_slice());
                },
                None => {},
            }
        }
        images
    }

    /// Converts a PowerPoint file: a page with the text of its PowerPoint
    /// Document stream and, when images are extracted, its images; a parse
    /// error when the compound file does not open.
    pub fn convert_ppt(bytes: &[u8], options: Option<&ConversionOptions>) -> (r: Result<Document, MarkitdownError>)
        ensures
            match ppt_document(bytes@, extracts_images(options)) {
                Ok(d) => r matches Ok(x) && x@ == d,
                Err(m) => r matches Err(e) && is_parse_error(e, m),
            },
    {
        match cfb_open_check(bytes) {
            Some(e) => {
                return Err(parse_error("PPT parse error: ", e.as_slice()));
            },
            None => {},
        }
        let text = match cfb_read_stream(bytes, "/PowerPoint Document") {
            Some((d, _)) => Self::extract_text_from_ppt_stream(d.as_slice()),
            None => None,
        };
        let md = legacy_md(
            "# PowerPoint Presentation (.ppt)\n\n",
            text,
            "*Presentation appears to be empty or contains only images.*\n",
            "*Unable to extract text from legacy PowerPoint document.*\n\nThis .ppt file uses a binary format. Consider converting to .pptx for better extraction.\n",
        );
        let extract = match options {
            Some(o) => o.extract_images,
            None => true,
        };
        let images = if extract {
            Some(Self::extract_images_from_ppt(bytes))
        } else {
            None
        };
        Ok(legacy_page(md, images, "ppt_image_", "slide_image", Ghost(ppt_images(bytes@))))
    }

    /// Converts a PowerPoint file (see [`PptConverter::convert_ppt`]).
    pub fn convert_bytes(&self, bytes: &[u8], options: Option<&ConversionOptions>) -> (r: Result<Document, MarkitdownError>)
        ensures
            match ppt_document(bytes@, extracts_images(options)) {
                Ok(d) => r matches Ok(x) && x@ == d,
                Err(m) => r matches Err(e) && is_parse_error(e, m),
            },
    {
        Self::convert_ppt(bytes, options)
    }
}

impl DocumentConverter for PptConverter {
    open spec fn extensions(&self) -> Seq<Seq<char>> {
        seq![".ppt"@]
    }

    fn supported_extensions(&self) -> (r: Vec<&'static str>) {
        let r = vec![".ppt"];
        assert(ext_views(r@) =~= self.extensions());
        r
    }
}

} // verus!
