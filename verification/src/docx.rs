//! Word documents (DOCX): the text of each paragraph and each table, as the
//! `docx_rust` crate reads the body, and the images stored under
//! `word/media/` in the archive.
use vstd::prelude::*;
use docx_rust::document::{BodyContent, TableCellContent, TableRowContent};
use crate::archive_formats::{zip_count, zip_entry, zip_open, zip_read_entry};
use crate::chars::to_string;
use crate::error::{is_parse_error, parse_error, MarkitdownError};
use crate::model::{
    ext_views, opt_str, strs, BlockView, ContentBlock, ConversionOptions, DocPageView, Document, DocumentConverter,
    DocumentView, ExtractedImage, ImageView, Page,
};
use crate::text::{chars_eq_str, chars_of, ends_with_str, extend_chars, extend_str, has_prefix, has_suffix, is_blank, starts_with_str, sub_vec, trim};

verus! {

/// DOCX converter.
pub struct DocxConverter;

/// Why a DOCX file could not be read, with the error's message: the
/// archive and its parts could not be read (`DocxFile::from_reader`), or
/// the parts could not be parsed (`DocxFile::parse`).
pub enum DocxFailure {
    Read(String),
    Parse(String),
}

/// The mathematical content of a [`DocxFailure`].
pub enum DocxFailureView {
    Read(Seq<char>),
    Parse(Seq<char>),
}

impl View for DocxFailure {
    type V = DocxFailureView;

    open spec fn view(&self) -> DocxFailureView {
        match self {
            DocxFailure::Read(m) => DocxFailureView::Read(m@),
            DocxFailure::Parse(m) => DocxFailureView::Parse(m@),
        }
    }
}

/// An item of the document body: a paragraph, as the pieces of text that
/// its runs, links and content controls hold; a table, as its number of
/// rows; or anything else.
pub enum DocxItem {
    Paragraph(Vec<String>),
    Table(usize),
    Other,
}

/// The mathematical content of a [`DocxItem`].
pub enum DocxItemView {
    Paragraph(Seq<Seq<char>>),
    Table(nat),
    Other,
}

impl View for DocxItem {
    type V = DocxItemView;

    open spec fn view(&self) -> DocxItemView {
        match self {
            DocxItem::Paragraph(p) => DocxItemView::Paragraph(strs(p@)),
            DocxItem::Table(n) => DocxItemView::Table(*n as nat),
            DocxItem::Other => DocxItemView::Other,
        }
    }
}

/// The number of items in the body of the DOCX file in the data, or why it
/// could not be read.
pub uninterp spec fn docx_body(data: Seq<u8>) -> Result<nat, DocxFailureView>;

/// Body item `i` of the DOCX file in the data.
pub uninterp spec fn docx_item(data: Seq<u8>, i: nat) -> Option<DocxItemView>;

/// The cells of row `r` of the table that is body item `i`: for each cell,
/// the text pieces of each of its paragraphs; none for a content control
/// in place of a cell.
pub uninterp spec fn docx_row(data: Seq<u8>, i: nat, r: nat) -> Option<Seq<Option<Seq<Seq<Seq<char>>>>>>;

/// Reads the file (`DocxFile::from_reader`) and parses it
/// (`DocxFile::parse`): the number of body items, or the failure with the
/// error's `Display` text.
#[verifier::external_body]
fn open_docx(data: &[u8]) -> (r: Result<usize, DocxFailure>)
    ensures
        match r {
            Ok(n) => docx_body(data@) == Ok::<nat, DocxFailureView>(n as nat),
            Err(f) => docx_body(data@) == Err::<nat, DocxFailureView>(f@),
        },
{
    match docx_rust::DocxFile::from_reader(std::io::Cursor::new(data)) {
        Err(e) => Err(DocxFailure::Read(e.to_string())),
        Ok(f) => match f.parse() {
            Err(e) => Err(DocxFailure::Parse(e.to_string())),
            Ok(d) => Ok(d.document.body.content.len()),
        },
    }
}

/// Reads and parses the file and gives body item `i`; a paragraph's
/// pieces are those of `Paragraph::iter_text`.
#[verifier::external_body]
fn read_item(data: &[u8], i: usize) -> (r: Option<DocxItem>)
    ensures
        match r {
            Some(x) => docx_item(data@, i as nat) == Some(x@),
            None => docx_item(data@, i as nat) is None,
        },
{
    let f = docx_rust::DocxFile::from_reader(std::io::Cursor::new(data)).ok()?;
    let d = f.parse().ok()?;
    match d.document.body.content.get(i)? {
        BodyContent::Paragraph(p) => Some(DocxItem::Paragraph(p.iter_text().map(|t| t.to_string()).collect())),
        BodyContent::Table(t) => Some(DocxItem::Table(t.rows.len())),
        _ => Some(DocxItem::Other),
    }
}

/// The view of the cells of a row.
pub open spec fn cells_view(v: Seq<Option<Vec<Vec<String>>>>) -> Seq<Option<Seq<Seq<Seq<char>>>>> {
    v.map_values(
        |c: Option<Vec<Vec<String>>>|
            match c {
                Some(ps) => Some(ps@.map_values(|p: Vec<String>| strs(p@))),
                None => None,
            },
    )
}

/// Reads and parses the file and gives the cells of row `r` of the table
/// that is body item `i`.
#[verifier::external_body]
fn read_row(data: &[u8], i: usize, r: usize) -> (res: Option<Vec<Option<Vec<Vec<String>>>>>)
    ensures
        match res {
            Some(c) => docx_row(data@, i as nat, r as nat) == Some(cells_view(c@)),
            None => docx_row(data@, i as nat, r as nat) is None,
        },
{
    let f = docx_rust::DocxFile::from_reader(std::io::Cursor::new(data)).ok()?;
    let d = f.parse().ok()?;
    let BodyContent::Table(t) = d.document.body.content.get(i)? else { return None };
    Some(t.rows.get(r)?.cells.iter().map(|c| match c {
        TableRowContent::TableCell(tc) => Some(tc.content.iter().map(|TableCellContent::Paragraph(p)| p.iter_text().map(|x| x.to_string()).collect()).collect()),
        _ => None,
    }).collect())
}

/// The pieces of text one after another.
pub open spec fn concat(parts: Seq<Seq<char>>) -> Seq<char>
    decreases parts.len(),
{
    if parts.len() == 0 {
        Seq::empty()
    } else {
        concat(parts.drop_last()) + parts.last()
    }
}

/// The text of a cell: the text of its paragraphs one after another.
pub open spec fn cell_text(paras: Seq<Seq<Seq<char>>>) -> Seq<char> {
    concat(paras.map_values(|p: Seq<Seq<char>>| concat(p)))
}

/// The texts of the cells of a row (content controls left out).
pub open spec fn row_texts(cells: Seq<Option<Seq<Seq<Seq<char>>>>>) -> Seq<Seq<char>>
    decreases cells.len(),
{
    if cells.len() == 0 {
        Seq::empty()
    } else {
        row_texts(cells.drop_last()) + match cells.last() {
            Some(c) => seq![cell_text(c)],
            None => Seq::empty(),
        }
    }
}

/// The texts of row `r` of the table that is body item `i`.
pub open spec fn table_row(data: Seq<u8>, i: nat, r: nat) -> Seq<Seq<char>> {
    match docx_row(data, i, r) {
        Some(cells) => row_texts(cells),
        None => Seq::empty(),
    }
}

/// The blocks of body item `i`: a paragraph whose text is not blank is a
/// text block; a table with rows is a table whose first row gives the
/// headers; anything else gives nothing.
pub open spec fn item_blocks(data: Seq<u8>, i: nat) -> Seq<BlockView> {
    match docx_item(data, i) {
        Some(DocxItemView::Paragraph(p)) => if trim(concat(p)).len() > 0 {
            seq![BlockView::Text(concat(p))]
        } else {
            Seq::empty()
        },
        Some(DocxItemView::Table(rows)) => if rows > 0 {
            seq![
                BlockView::Table {
                    headers: table_row(data, i, 0),
                    rows: Seq::new((rows - 1) as nat, |r: int| table_row(data, i, (r + 1) as nat)),
                },
            ]
        } else {
            Seq::empty()
        },
        _ => Seq::empty(),
    }
}

/// The blocks of the first `k` body items.
pub open spec fn body_blocks(data: Seq<u8>, k: nat) -> Seq<BlockView>
    decreases k,
{
    if k == 0 {
        Seq::empty()
    } else {
        body_blocks(data, (k - 1) as nat) + item_blocks(data, (k - 1) as nat)
    }
}

/// Why the images could not be taken from the archive: an error of the
/// archive, or of reading an image.
pub enum MediaError {
    Zip(Seq<char>),
    Io(Seq<char>),
}

/// The MIME type of an image under `word/media/`, by the name's ending;
/// none for any other name (Windows metafiles among them).
pub open spec fn media_mime(name: Seq<char>) -> Option<Seq<char>> {
    if has_suffix(name, ".png"@) {
        Some("image/png"@)
    } else if has_suffix(name, ".jpg"@) || has_suffix(name, ".jpeg"@) {
        Some("image/jpeg"@)
    } else if has_suffix(name, ".gif"@) {
        Some("image/gif"@)
    } else if has_suffix(name, ".webp"@) {
        Some("image/webp"@)
    } else {
        None
    }
}

/// An image named by its path below `word/media/`.
pub open spec fn media_image(id: Seq<char>, data: Seq<u8>, mime: Seq<char>) -> ImageView {
    ImageView {
        id,
        data,
        mime_type: mime,
        alt_text: None,
        description: None,
        width: None,
        height: None,
        page_number: None,
        source_path: None,
    }
}

/// The images of entries `i` to `n` of the archive added to `acc`.
pub open spec fn media_from(data: Seq<u8>, i: nat, n: nat, acc: Seq<ImageView>) -> Result<Seq<ImageView>, MediaError>
    decreases n - i,
{
    if i >= n {
        Ok(acc)
    } else {
        match zip_entry(data, i) {
            Err(m) => Err(MediaError::Zip(m)),
            Ok((_, name, c)) => match name {
                Err(m) => Err(MediaError::Zip(m)),
                Ok(p) => if has_prefix(p, "word/media/"@) {
                    match media_mime(p) {
                        Some(mime) => match c {
                            Ok(b) => media_from(
                                data,
                                i + 1,
                                n,
                                acc.push(media_image(p.subrange(11, p.len() as int), b, mime)),
                            ),
                            Err(m) => Err(MediaError::Io(m)),
                        },
                        None => media_from(data, i + 1, n, acc),
                    }
                } else {
                    media_from(data, i + 1, n, acc)
                },
            },
        }
    }
}

/// The images stored under `word/media/`, in the archive's order.
pub open spec fn docx_media(data: Seq<u8>) -> Result<Seq<ImageView>, MediaError> {
    match zip_open(data) {
        Err(m) => Err(MediaError::Zip(m)),
        Ok(n) => media_from(data, 0, n, Seq::empty()),
    }
}

/// The views of images.
pub open spec fn images_view(v: Seq<ExtractedImage>) -> Seq<ImageView> {
    v.map_values(|x: ExtractedImage| x@)
}

/// The error is the one that stopped the taking of images.
pub open spec fn is_media_error(e: MarkitdownError, m: MediaError) -> bool {
    match m {
        MediaError::Zip(x) => e matches MarkitdownError::Zip(y) && y@ == x,
        MediaError::Io(x) => e matches MarkitdownError::Io(y) && y@ == x,
    }
}

/// The document of a DOCX file of `n` body items: one page holding the
/// images, then the blocks of the body.
pub open spec fn docx_document(data: Seq<u8>, n: nat, images: Seq<ImageView>) -> DocumentView {
    DocumentView {
        title: None,
        pages: seq![
            DocPageView {
                page_number: 1,
                content: images.map_values(|x: ImageView| BlockView::Image(x)) + body_blocks(data, n),
                rendered_image: None,
            },
        ],
        metadata: Seq::empty(),
    }
}

/// The result of converting DOCX bytes, images taken or not.
pub open spec fn docx_result(data: Seq<u8>, extract_images: bool, r: Result<Document, MarkitdownError>) -> bool {
    match docx_body(data) {
        Err(DocxFailureView::Read(m)) => r matches Err(e) && is_parse_error(e, "Failed to read DOCX file: "@ + m),
        Err(DocxFailureView::Parse(m)) => r matches Err(e) && is_parse_error(e, "Failed to parse DOCX file: "@ + m),
        Ok(n) => if extract_images {
            match docx_media(data) {
                Ok(imgs) => r matches Ok(d) && d@ == docx_document(data, n, imgs),
                Err(m) => r matches Err(e) && is_media_error(e, m),
            }
        } else {
            r matches Ok(d) && d@ == docx_document(data, n, Seq::empty())
        },
    }
}

/// The pieces of text one after another.
fn concat_strings(parts: &Vec<String>) -> (r: Vec<char>)
    ensures
        r@ == concat(strs(parts@)),
{
    let ghost pv = strs(parts@);
    let mut out: Vec<char> = Vec::new();
    let mut i: usize = 0;
    while i < parts.len()
        invariant
            i <= parts@.len(),
            pv == strs(parts@),
            out@ == concat(pv.take(i as int)),
        decreases parts@.len() - i,
    {
        extend_str(&mut out, parts[i].as_str());
        proof {
            assert(pv.take(i + 1).drop_last() =~= pv.take(i as int));
        }
        i += 1;
    }
    assert(pv.take(i as int) =~= pv);
    out
}

/// The text of a cell.
fn cell_text_of(paras: &Vec<Vec<String>>) -> (r: Vec<char>)
    ensures
        r@ == cell_text(paras@.map_values(|p: Vec<String>| strs(p@))),
{
    let ghost pv = paras@.map_values(|p: Vec<String>| strs(p@)).map_values(|p: Seq<Seq<char>>| concat(p));
    let mut out: Vec<char> = Vec::new();
    let mut i: usize = 0;
    while i < paras.len()
        invariant
            i <= paras@.len(),
            pv == paras@.map_values(|p: Vec<String>| strs(p@)).map_values(|p: Seq<Seq<char>>| concat(p)),
            out@ == concat(pv.take(i as int)),
        decreases paras@.len() - i,
    {
        let t = concat_strings(&paras[i]);
        extend_chars(&mut out, t.as_slice());
        proof {
            assert(pv.take(i + 1).drop_last() =~= pv.take(i as int));
        }
        i += 1;
    }
    assert(pv.take(i as int) =~= pv);
    out
}

/// The texts of a row's cells.
fn row_texts_of(cells: &Vec<Option<Vec<Vec<String>>>>) -> (r: Vec<String>)
    ensures
        strs(r@) == row_texts(cells_view(cells@)),
{
    let ghost cv = cells_view(cells@);
    let mut out: Vec<String> = Vec::new();
    let mut i: usize = 0;
    while i < cells.len()
        invariant
            i <= cells@.len(),
            cv == cells_view(cells@),
            strs(out@) == row_texts(cv.take(i as int)),
        decreases cells@.len() - i,
    {
        let ghost before = out@;
        match &cells[i] {
            Some(ps) => {
                let t = cell_text_of(ps);
                out.push(to_string(t.as_slice()));
                assert(strs(out@) =~= strs(before).push(t@));
            },
            None => {},
        }
        proof {
            assert(cv.take(i + 1).drop_last() =~= cv.take(i as int));
        }
        i += 1;
    }
    assert(cv.take(i as int) =~= cv);
    out
}

/// The texts of row `r` of the table that is body item `i`.
fn table_row_of(data: &[u8], i: usize, r: usize) -> (res: Vec<String>)
    ensures
        strs(res@) == table_row(data@, i as nat, r as nat),
{
    match read_row(data, i, r) {
        Some(cells) => row_texts_of(&cells),
        None => {
            let v: Vec<String> = Vec::new();
            assert(strs(v@) =~= Seq::<Seq<char>>::empty());
            v
        },
    }
}

/// The MIME type of an image under `word/media/`.
fn media_mime_of(name: &[char]) -> (r: Option<&'static str>)
    ensures
        match r {
            Some(m) => media_mime(name@) == Some(m@),
            None => media_mime(name@) is None,
        },
{
    if ends_with_str(name, ".png") {
        Some("image/png")
    } else if ends_with_str(name, ".jpg") || ends_with_str(name, ".jpeg") {
        Some("image/jpeg")
    } else if ends_with_str(name, ".gif") {
        Some("image/gif")
    } else if ends_with_str(name, ".webp") {
        Some("image/webp")
    } else {
        None
    }
}

impl DocxConverter {
    /// The images stored under `word/media/` (see [`docx_media`]).
    pub fn extract_images_from_docx(&self, bytes: &[u8]) -> (r: Result<Vec<ExtractedImage>, MarkitdownError>)
        ensures
            match docx_media(bytes@) {
                Ok(v) => r matches Ok(imgs) && images_view(imgs@) == v,
                Err(m) => r matches Err(e) && is_media_error(e, m),
            },
    {
        let n = match zip_count(bytes) {
            Ok(n) => n,
            Err(m) => {
                return Err(MarkitdownError::Zip(to_string(m.as_slice())));
            },
        };
        let mut images: Vec<ExtractedImage> = Vec::new();
        let mut i: usize = 0;
        assert(images_view(images@) =~= Seq::<ImageView>::empty());
        while i < n
            invariant
                i <= n,
                zip_open(bytes@) == Ok::<nat, Seq<char>>(n as nat),
                docx_media(bytes@) == media_from(bytes@, i as nat, n as nat, images_view(images@)),
            decreases n - i,
        {
            let ghost before = images@;
            match zip_read_entry(bytes, i) {
                Err(m) => {
                    return Err(MarkitdownError::Zip(to_string(m.as_slice())));
                },
                Ok((_, name, c)) => match name {
                    Err(m) => {
                        return Err(MarkitdownError::Zip(to_string(m.as_slice())));
                    },
                    Ok(p) => {
                        if starts_with_str(p.as_slice(), "word/media/") {
                            proof {
                                reveal_strlit("word/media/");
                            }
                            match media_mime_of(p.as_slice()) {
                                Some(mime) => match c {
                                    Ok(b) => {
                                        let id = to_string(sub_vec(p.as_slice(), 11, p.len()).as_slice());
                                        let img = ExtractedImage::new(id, b, String::from_str(mime));
                                        images.push(img);
                                        assert(images_view(images@) =~= images_view(before).push(img@));
                                    },
                                    Err(m) => {
                                        return Err(MarkitdownError::Io(to_string(m.as_slice())));
                                    },
                                },
                                None => {},
                            }
                        }
                    },
                },
            }
            i += 1;
        }
        Ok(images)
    }

    /// Converts DOCX bytes (see [`docx_result`]).
    pub fn convert_docx_bytes(&self, bytes: &[u8], extract_images: bool) -> (r: Result<Document, MarkitdownError>)
        ensures
            docx_result(bytes@, extract_images, r),
    {
        let n = match open_docx(bytes) {
            Ok(n) => n,
            Err(DocxFailure::Read(m)) => {
                let mc = chars_of(m.as_str());
                return Err(parse_error("Failed to read DOCX file: ", mc.as_slice()));
            },
            Err(DocxFailure::Parse(m)) => {
                let mc = chars_of(m.as_str());
                return Err(parse_error("Failed to parse DOCX file: ", mc.as_slice()));
            },
        };
        let mut page = Page::new(1);
        let ghost mut imgs: Seq<ImageView> = Seq::empty();
        if extract_images {
            let mut images = match self.extract_images_from_docx(bytes) {
                Ok(v) => v,
                Err(e) => {
                    return Err(e);
                },
            };
            proof {
                imgs = images_view(images@);
            }
            while images.len() > 0
                invariant
                    page.page_number == 1,
                    page.rendered_image is None,
                    page@.content + images_view(images@).map_values(|x: ImageView| BlockView::Image(x))
                        == imgs.map_values(|x: ImageView| BlockView::Image(x)),
                decreases images@.len(),
            {
                let ghost before = page@.content;
                let ghost rest = images@;
                let img = images.remove(0);
                let ghost iv = img@;
                page.add_content(ContentBlock::Image(img));
                assert(page@.content =~= before.push(BlockView::Image(iv)));
                assert(images_view(rest).map_values(|x: ImageView| BlockView::Image(x)) =~= seq![BlockView::Image(iv)]
                    + images_view(images@).map_values(|x: ImageView| BlockView::Image(x)));
                assert(page@.content + images_view(images@).map_values(|x: ImageView| BlockView::Image(x))
                    =~= before + images_view(rest).map_values(|x: ImageView| BlockView::Image(x)));
            }
            assert(images_view(images@).map_values(|x: ImageView| BlockView::Image(x)) =~= Seq::<BlockView>::empty());
            assert(page@.content =~= imgs.map_values(|x: ImageView| BlockView::Image(x)));
        } else {
            assert(page@.content =~= imgs.map_values(|x: ImageView| BlockView::Image(x)));
        }
        let ghost head = page@.content;
        let mut k: usize = 0;
        while k < n
            invariant
                k <= n,
                docx_body(bytes@) == Ok::<nat, DocxFailureView>(n as nat),
                page.page_number == 1,
                page.rendered_image is None,
                page@.content == head + body_blocks(bytes@, k as nat),
            decreases n - k,
        {
            let ghost before = page@.content;
            match read_item(bytes, k) {
                Some(DocxItem::Paragraph(pieces)) => {
                    let text = concat_strings(&pieces);
                    if !is_blank(text.as_slice()) {
                        page.add_content(ContentBlock::Text(to_string(text.as_slice())));
                        assert(page@.content =~= before.push(BlockView::Text(text@)));
                    }
                },
                Some(DocxItem::Table(rows)) => {
                    if rows > 0 {
                        let headers = table_row_of(bytes, k, 0);
                        let mut data_rows: Vec<Vec<String>> = Vec::new();
                        let mut r: usize = 1;
                        while r < rows
                            invariant
                                1 <= r <= rows,
                                data_rows@.len() == r - 1,
                                forall|q: int| 0 <= q < r - 1 ==> #[trigger] strs(data_rows@[q]@) == table_row(bytes@, k as nat, (q + 1) as nat),
                            decreases rows - r,
                        {
                            let row = table_row_of(bytes, k, r);
                            data_rows.push(row);
                            r += 1;
                        }
                        let ghost hv = strs(headers@);
                        let ghost rv = data_rows@.map_values(|x: Vec<String>| strs(x@));
                        assert(rv =~= Seq::new((rows - 1) as nat, |q: int| table_row(bytes@, k as nat, (q + 1) as nat)));
                        page.add_content(ContentBlock::Table { headers, rows: data_rows });
                        assert(page@.content =~= before.push(BlockView::Table { headers: hv, rows: rv }));
                    }
                },
                _ => {},
            }
            assert(page@.content =~= head + body_blocks(bytes@, (k + 1) as nat));
            k += 1;
        }
        let mut doc = Document::new();
        let ghost pv = page@;
        doc.add_page(page);
        assert(doc@.pages =~= seq![pv]);
        assert(doc@.metadata =~= Seq::<(Seq<char>, Seq<char>)>::empty());
        Ok(doc)
    }

    /// Converts DOCX bytes; an extension hint other than `.docx` is an
    /// invalid file. Images are taken unless the options say otherwise.
    pub fn convert_bytes(&self, bytes: &[u8], options: Option<&ConversionOptions>) -> (r: Result<Document, MarkitdownError>)
        ensures
            match options {
                Some(o) => match opt_str(o.file_extension) {
                    Some(e) => if e == ".docx"@ {
                        docx_result(bytes@, o.extract_images, r)
                    } else {
                        r matches Err(MarkitdownError::InvalidFile(m)) && m@ == "Expected .docx file, got "@ + e
                    },
                    None => docx_result(bytes@, o.extract_images, r),
                },
                None => docx_result(bytes@, true, r),
            },
    {
        let extract = match options {
            Some(o) => {
                match &o.file_extension {
                    Some(e) => {
                        let c = chars_of(e.as_str());
                        if !chars_eq_str(c.as_slice(), ".docx") {
                            let mut m: Vec<char> = Vec::new();
                            extend_str(&mut m, "Expected .docx file, got ");
                            extend_chars(&mut m, c.as_slice());
                            return Err(MarkitdownError::InvalidFile(to_string(m.as_slice())));
                        }
                    },
                    None => {},
                }
                o.extract_images
            },
            None => true,
        };
        self.convert_docx_bytes(bytes, extract)
    }
}

impl DocumentConverter for DocxConverter {
    open spec fn extensions(&self) -> Seq<Seq<char>> {
        seq![".docx"@]
    }

    fn supported_extensions(&self) -> (r: Vec<&'static str>) {
        let r = vec![".docx"];
        assert(ext_views(r@) =~= self.extensions());
        r
    }
}

} // verus!
