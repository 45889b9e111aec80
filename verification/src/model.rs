//! The document model: pages of content blocks, rendered to Markdown.
use vstd::prelude::*;
use base64::Engine;
use crate::chars::to_string;
use crate::table_merge::{merge_pages_from, merge_tables_across_pages, pages_view, initial_pages, PageView, MergedPageContent};
use crate::text::{
    chars_of, decimal, extend_chars, extend_str, join, lines_of, push_decimal, push_repeat, repeat_char,
    split_lines, lemma_chars_deep_view, eq_ignore_ascii_case, eq_ignore_case,
};

verus! {

/// An image extracted from a document.
#[derive(Debug, Clone)]
pub struct ExtractedImage {
    /// Identifier of the image within the document.
    pub id: String,
    /// The raw image bytes.
    pub data: Vec<u8>,
    /// MIME type of the image.
    pub mime_type: String,
    /// Alt text or caption from the source, if any.
    pub alt_text: Option<String>,
    /// A generated description, if any.
    pub description: Option<String>,
    /// Width in pixels, if known.
    pub width: Option<u32>,
    /// Height in pixels, if known.
    pub height: Option<u32>,
    /// Page number (from 1) where the image appears.
    pub page_number: Option<u32>,
    /// Source path or context hint for the image.
    pub source_path: Option<String>,
}

/// The view of an optional string.
pub open spec fn opt_str(s: Option<String>) -> Option<Seq<char>> {
    match s {
        Some(x) => Some(x@),
        None => None,
    }
}

/// The text that the `base64` crate's standard engine (with padding)
/// encodes the bytes to.
pub uninterp spec fn base64_encoded(data: Seq<u8>) -> Seq<char>;

/// Calls `BASE64_STANDARD.encode` on the bytes.
#[verifier::external_body]
fn encode_base64(data: &[u8]) -> (r: String)
    ensures
        r@ == base64_encoded(data@),
{
    base64::engine::general_purpose::STANDARD.encode(data)
}

impl ExtractedImage {
    /// The image data in Base64 (standard alphabet, padded).
    pub fn to_base64(&self) -> (r: String)
        ensures
            r@ == base64_encoded(self.data@),
    {
        encode_base64(self.data.as_slice())
    }

    /// A new image with the given identifier, data and MIME type and no
    /// other information.
    pub fn new(id: String, data: Vec<u8>, mime_type: String) -> (r: Self)
        ensures
            r.id@ == id@,
            r.data@ == data@,
            r.mime_type@ == mime_type@,
            r.alt_text is None,
            r.description is None,
            r.width is None,
            r.height is None,
            r.page_number is None,
            r.source_path is None,
    {
        ExtractedImage {
            id,
            data,
            mime_type,
            alt_text: None,
            description: None,
            width: None,
            height: None,
            page_number: None,
            source_path: None,
        }
    }

    /// The description, or else the alt text.
    pub open spec fn display_text(&self) -> Option<Seq<char>> {
        if self.description is Some {
            opt_str(self.description)
        } else {
            opt_str(self.alt_text)
        }
    }

    /// The description, or else the alt text.
    pub fn get_display_text(&self) -> (r: Option<&str>)
        ensures
            match r {
                Some(s) => self.display_text() == Some(s@),
                None => self.display_text() is None,
            },
    {
        match &self.description {
            Some(d) => Some(d.as_str()),
            None => match &self.alt_text {
                Some(a) => Some(a.as_str()),
                None => None,
            },
        }
    }

    /// A Markdown image reference: `![Image: id](image:id)`.
    pub fn as_markdown_placeholder(&self) -> (r: String)
        ensures
            r@ == "![Image: "@ + self.id@ + "](image:"@ + self.id@ + ")"@,
    {
        let mut out: Vec<char> = Vec::new();
        extend_str(&mut out, "![Image: ");
        extend_str(&mut out, self.id.as_str());
        extend_str(&mut out, "](image:");
        extend_str(&mut out, self.id.as_str());
        extend_str(&mut out, ")");
        to_string(out.as_slice())
    }
}

/// A block of page content.
#[derive(Debug, Clone)]
pub enum ContentBlock {
    /// Plain text.
    Text(String),
    /// A heading with its level and text.
    Heading { level: u8, text: String },
    /// An image.
    Image(ExtractedImage),
    /// A table with header cells and rows of cells.
    Table { headers: Vec<String>, rows: Vec<Vec<String>> },
    /// A list, numbered or not.
    List { ordered: bool, items: Vec<String> },
    /// A code block with an optional language.
    Code { language: Option<String>, code: String },
    /// A block quote.
    Quote(String),
    /// Markdown that is already formatted.
    Markdown(String),
}

/// A page of content.
#[derive(Debug, Clone)]
pub struct Page {
    /// Page number (from 1).
    pub page_number: u32,
    /// The content blocks in order.
    pub content: Vec<ContentBlock>,
    /// A rendered image of the whole page, if any.
    pub rendered_image: Option<ExtractedImage>,
}

impl Page {
    /// An empty page with the given number.
    pub fn new(page_number: u32) -> (r: Self)
        ensures
            r.page_number == page_number,
            r.content@.len() == 0,
            r.rendered_image is None,
    {
        Page { page_number, content: Vec::new(), rendered_image: None }
    }

    /// The page with the rendered image set.
    pub fn with_rendered_image(self, image: ExtractedImage) -> (r: Self)
        ensures
            r.page_number == self.page_number,
            r.content == self.content,
            r.rendered_image == Some(image),
    {
        let mut p = self;
        p.rendered_image = Some(image);
        p
    }

    /// Appends a content block.
    pub fn add_content(&mut self, block: ContentBlock)
        ensures
            final(self).page_number == old(self).page_number,
            final(self).content@ == old(self).content@.push(block),
            final(self).rendered_image == old(self).rendered_image,
    {
        self.content.push(block);
    }
}

/// A document: an optional title, pages and metadata entries.
#[derive(Debug, Clone)]
pub struct Document {
    /// The document title, if any.
    pub title: Option<String>,
    /// The pages in order.
    pub pages: Vec<Page>,
    /// Metadata as key and value pairs.
    pub metadata: Vec<(String, String)>,
}

impl Document {
    /// An empty document.
    pub fn new() -> (r: Self)
        ensures
            r.title is None,
            r.pages@.len() == 0,
            r.metadata@.len() == 0,
    {
        Document { title: None, pages: Vec::new(), metadata: Vec::new() }
    }

    /// A document of one page.
    pub fn from_page(page: Page) -> (r: Self)
        ensures
            r.title is None,
            r.pages@ == seq![page],
            r.metadata@.len() == 0,
    {
        let mut pages: Vec<Page> = Vec::new();
        pages.push(page);
        Document { title: None, pages, metadata: Vec::new() }
    }

    /// Appends a page.
    pub fn add_page(&mut self, page: Page)
        ensures
            final(self).title == old(self).title,
            final(self).pages@ == old(self).pages@.push(page),
            final(self).metadata == old(self).metadata,
    {
        self.pages.push(page);
    }
}

/// A document of one page holding one Markdown block.
pub open spec fn is_markdown_doc(d: Document, md: Seq<char>) -> bool {
    &&& d.title is None
    &&& d.metadata@.len() == 0
    &&& d.pages@.len() == 1
    &&& d.pages@[0].page_number == 1
    &&& d.pages@[0].rendered_image is None
    &&& d.pages@[0].content@.len() == 1
    &&& d.pages@[0].content@[0] matches ContentBlock::Markdown(m) && m@ == md
}

/// A document of one page (number 1) holding one Markdown block.
pub fn markdown_document(md: Vec<char>) -> (r: Document)
    ensures
        is_markdown_doc(r, md@),
{
    let mut page = Page::new(1);
    page.add_content(ContentBlock::Markdown(to_string(md.as_slice())));
    let mut doc = Document::new();
    doc.add_page(page);
    doc
}

// ---------------------------------------------------------------------
// Views
// ---------------------------------------------------------------------

/// The mathematical content of an [`ExtractedImage`].
pub struct ImageView {
    pub id: Seq<char>,
    pub data: Seq<u8>,
    pub mime_type: Seq<char>,
    pub alt_text: Option<Seq<char>>,
    pub description: Option<Seq<char>>,
    pub width: Option<u32>,
    pub height: Option<u32>,
    pub page_number: Option<u32>,
    pub source_path: Option<Seq<char>>,
}

impl View for ExtractedImage {
    type V = ImageView;

    open spec fn view(&self) -> ImageView {
        ImageView {
            id: self.id@,
            data: self.data@,
            mime_type: self.mime_type@,
            alt_text: opt_str(self.alt_text),
            description: opt_str(self.description),
            width: self.width,
            height: self.height,
            page_number: self.page_number,
            source_path: opt_str(self.source_path),
        }
    }
}

/// The views of a list of strings.
pub open spec fn strs(v: Seq<String>) -> Seq<Seq<char>> {
    v.map_values(|s: String| s@)
}

/// The mathematical content of a [`ContentBlock`].
pub enum BlockView {
    Text(Seq<char>),
    Heading { level: u8, text: Seq<char> },
    Image(ImageView),
    Table { headers: Seq<Seq<char>>, rows: Seq<Seq<Seq<char>>> },
    List { ordered: bool, items: Seq<Seq<char>> },
    Code { language: Option<Seq<char>>, code: Seq<char> },
    Quote(Seq<char>),
    Markdown(Seq<char>),
}

impl View for ContentBlock {
    type V = BlockView;

    open spec fn view(&self) -> BlockView {
        match self {
            ContentBlock::Text(t) => BlockView::Text(t@),
            ContentBlock::Heading { level, text } => BlockView::Heading { level: *level, text: text@ },
            ContentBlock::Image(img) => BlockView::Image(img@),
            ContentBlock::Table { headers, rows } => BlockView::Table {
                headers: strs(headers@),
                rows: rows@.map_values(|r: Vec<String>| strs(r@)),
            },
            ContentBlock::List { ordered, items } => BlockView::List {
                ordered: *ordered,
                items: strs(items@),
            },
            ContentBlock::Code { language, code } => BlockView::Code {
                language: opt_str(*language),
                code: code@,
            },
            ContentBlock::Quote(t) => BlockView::Quote(t@),
            ContentBlock::Markdown(m) => BlockView::Markdown(m@),
        }
    }
}

/// The mathematical content of a [`Page`].
pub struct DocPageView {
    pub page_number: u32,
    pub content: Seq<BlockView>,
    pub rendered_image: Option<ImageView>,
}

/// The views of content blocks.
pub open spec fn blocks_view(v: Seq<ContentBlock>) -> Seq<BlockView> {
    v.map_values(|b: ContentBlock| b@)
}

/// The view of an optional image.
pub open spec fn opt_image(i: Option<ExtractedImage>) -> Option<ImageView> {
    match i {
        Some(x) => Some(x@),
        None => None,
    }
}

impl View for Page {
    type V = DocPageView;

    open spec fn view(&self) -> DocPageView {
        DocPageView {
            page_number: self.page_number,
            content: blocks_view(self.content@),
            rendered_image: opt_image(self.rendered_image),
        }
    }
}

/// The mathematical content of a [`Document`].
pub struct DocumentView {
    pub title: Option<Seq<char>>,
    pub pages: Seq<DocPageView>,
    pub metadata: Seq<(Seq<char>, Seq<char>)>,
}

/// The views of pages.
pub open spec fn pages_of(v: Seq<Page>) -> Seq<DocPageView> {
    v.map_values(|p: Page| p@)
}

impl View for Document {
    type V = DocumentView;

    open spec fn view(&self) -> DocumentView {
        DocumentView {
            title: opt_str(self.title),
            pages: pages_of(self.pages@),
            metadata: self.metadata@.map_values(|e: (String, String)| (e.0@, e.1@)),
        }
    }
}

// ---------------------------------------------------------------------
// Markdown rendering
// ---------------------------------------------------------------------

/// The description of an image, or else its alt text.
pub open spec fn display_of(img: ImageView) -> Option<Seq<char>> {
    if img.description is Some {
        img.description
    } else {
        img.alt_text
    }
}

/// The Markdown of an image block: `![id](id)`, followed by the display
/// text in italics when there is one.
pub open spec fn image_md(img: ImageView) -> Seq<char> {
    match display_of(img) {
        Some(d) => "!["@ + img.id + "]("@ + img.id + ")\n\n*"@ + d + "*\n"@,
        None => "!["@ + img.id + "]("@ + img.id + ")\n"@,
    }
}

/// `n` separator cells.
pub open spec fn dashes(n: nat) -> Seq<Seq<char>> {
    Seq::new(n, |i: int| "---"@)
}

/// A table row: `| a | b |` and a newline.
pub open spec fn row_md(cells: Seq<Seq<char>>) -> Seq<char> {
    "| "@ + join(cells, " | "@) + " |\n"@
}

/// The table rows.
pub open spec fn rows_md(rows: Seq<Seq<Seq<char>>>) -> Seq<char>
    decreases rows.len(),
{
    if rows.len() == 0 {
        seq![]
    } else {
        rows_md(rows.drop_last()) + row_md(rows.last())
    }
}

/// The list items, each on a line, numbered from 1 or bulleted.
pub open spec fn items_md(items: Seq<Seq<char>>, ordered: bool) -> Seq<char>
    decreases items.len(),
{
    if items.len() == 0 {
        seq![]
    } else {
        items_md(items.drop_last(), ordered) + (if ordered {
            decimal(items.len()) + ". "@
        } else {
            "- "@
        }) + items.last() + "\n"@
    }
}

/// The lines of a quote, each prefixed with `> `.
pub open spec fn quote_lines(lines: Seq<Seq<char>>) -> Seq<Seq<char>> {
    lines.map_values(|l: Seq<char>| "> "@ + l)
}

/// The Markdown of a content block.
pub open spec fn block_md(b: BlockView) -> Seq<char> {
    match b {
        BlockView::Text(t) => t + "\n"@,
        BlockView::Heading { level, text } => repeat_char('#', level as nat) + " "@ + text + "\n"@,
        BlockView::Image(img) => image_md(img),
        BlockView::Table { headers, rows } => row_md(headers) + row_md(dashes(headers.len()))
            + rows_md(rows),
        BlockView::List { ordered, items } => items_md(items, ordered),
        BlockView::Code { language, code } => "```"@ + (match language {
            Some(l) => l,
            None => seq![],
        }) + "\n"@ + code + "\n```\n"@,
        BlockView::Quote(t) => join(quote_lines(lines_of(t)), "\n"@) + "\n"@,
        BlockView::Markdown(m) => m,
    }
}

/// Appends the parts joined with `sep`.
fn push_joined(out: &mut Vec<char>, parts: &Vec<String>, sep: &str)
    ensures
        final(out)@ == old(out)@ + join(strs(parts@), sep@),
{
    let ghost pv = strs(parts@);
    let ghost start = out@;
    let mut i: usize = 0;
    while i < parts.len()
        invariant
            i <= parts@.len(),
            pv == strs(parts@),
            out@ == start + join(pv.take(i as int), sep@),
        decreases parts@.len() - i,
    {
        assert(pv.take(i + 1).drop_last() =~= pv.take(i as int));
        if i > 0 {
            extend_str(out, sep);
        }
        extend_str(out, parts[i].as_str());
        proof {
            if i == 0 {
                assert(pv.take(1) =~= seq![pv[0]]);
            }
        }
        assert(out@ =~= start + join(pv.take(i + 1), sep@));
        i += 1;
    }
    assert(pv.take(i as int) =~= pv);
}

/// Appends a table row.
fn push_row(out: &mut Vec<char>, cells: &Vec<String>)
    ensures
        final(out)@ == old(out)@ + row_md(strs(cells@)),
{
    let ghost start = out@;
    extend_str(out, "| ");
    push_joined(out, cells, " | ");
    extend_str(out, " |\n");
    assert(out@ =~= start + row_md(strs(cells@)));
}

/// Appends the Markdown of an image block.
fn push_image_md(out: &mut Vec<char>, img: &ExtractedImage)
    ensures
        final(out)@ == old(out)@ + image_md(img@),
{
    let ghost start = out@;
    extend_str(out, "![");
    extend_str(out, img.id.as_str());
    extend_str(out, "](");
    extend_str(out, img.id.as_str());
    match img.get_display_text() {
        Some(d) => {
            extend_str(out, ")\n\n*");
            extend_str(out, d);
            extend_str(out, "*\n");
        },
        None => {
            extend_str(out, ")\n");
        },
    }
    assert(out@ =~= start + image_md(img@));
}

impl ContentBlock {
    /// The Markdown of the block.
    pub fn to_markdown(&self) -> (r: String)
        ensures
            r@ == block_md(self@),
    {
        let mut out: Vec<char> = Vec::new();
        match self {
            ContentBlock::Text(t) => {
                extend_str(&mut out, t.as_str());
                extend_str(&mut out, "\n");
                assert(out@ =~= block_md(self@));
            },
            ContentBlock::Heading { level, text } => {
                push_repeat(&mut out, '#', *level as usize);
                extend_str(&mut out, " ");
                extend_str(&mut out, text.as_str());
                extend_str(&mut out, "\n");
                assert(out@ =~= block_md(self@));
            },
            ContentBlock::Image(img) => {
                push_image_md(&mut out, img);
                assert(out@ =~= block_md(self@));
            },
            ContentBlock::Table { headers, rows } => {
                push_row(&mut out, headers);
                let mut dash: Vec<String> = Vec::new();
                let mut k: usize = 0;
                while k < headers.len()
                    invariant
                        k <= headers@.len(),
                        dash@.len() == k,
                        strs(dash@) =~= dashes(k as nat),
                    decreases headers@.len() - k,
                {
                    let d = String::from_str("---");
                    assert(d@ == "---"@);
                    let ghost before = dash@;
                    dash.push(d);
                    assert(dash@ == before.push(d));
                    assert forall|j: int| 0 <= j < k + 1 implies #[trigger] strs(dash@)[j] == dashes((k + 1) as nat)[j] by {
                        if j < k {
                            assert(strs(before)[j] == dashes(k as nat)[j]);
                        }
                    }
                    assert(strs(dash@) =~= dashes((k + 1) as nat));
                    k += 1;
                }
                push_row(&mut out, &dash);
                let ghost head = out@;
                let ghost rv = rows@.map_values(|r: Vec<String>| strs(r@));
                let mut i: usize = 0;
                while i < rows.len()
                    invariant
                        i <= rows@.len(),
                        rv == rows@.map_values(|r: Vec<String>| strs(r@)),
                        out@ == head + rows_md(rv.take(i as int)),
                    decreases rows@.len() - i,
                {
                    assert(rv.take(i + 1).drop_last() =~= rv.take(i as int));
                    push_row(&mut out, &rows[i]);
                    assert(out@ =~= head + rows_md(rv.take(i + 1)));
                    i += 1;
                }
                assert(rv.take(i as int) =~= rv);
                assert(out@ =~= block_md(self@));
            },
            ContentBlock::List { ordered, items } => {
                let ghost iv = strs(items@);
                let mut i: usize = 0;
                while i < items.len()
                    invariant
                        i <= items@.len(),
                        iv == strs(items@),
                        out@ == items_md(iv.take(i as int), *ordered),
                    decreases items@.len() - i,
                {
                    assert(iv.take(i + 1).drop_last() =~= iv.take(i as int));
                    let ghost before = out@;
                    if *ordered {
                        push_decimal(&mut out, i + 1);
                        extend_str(&mut out, ". ");
                    } else {
                        extend_str(&mut out, "- ");
                    }
                    extend_str(&mut out, items[i].as_str());
                    extend_str(&mut out, "\n");
                    assert(out@ =~= items_md(iv.take(i + 1), *ordered));
                    i += 1;
                }
                assert(iv.take(i as int) =~= iv);
            },
            ContentBlock::Code { language, code } => {
                extend_str(&mut out, "```");
                match language {
                    Some(l) => extend_str(&mut out, l.as_str()),
                    None => {},
                }
                extend_str(&mut out, "\n");
                extend_str(&mut out, code.as_str());
                extend_str(&mut out, "\n```\n");
                assert(out@ =~= block_md(self@));
            },
            ContentBlock::Quote(t) => {
                let tc = chars_of(t.as_str());
                let lines = split_lines(tc.as_slice());
                let ghost lv = lines_of(t@);
                let ghost qv = quote_lines(lv);
                let mut i: usize = 0;
                while i < lines.len()
                    invariant
                        i <= lines@.len(),
                        lines.deep_view() == lv,
                        qv == quote_lines(lv),
                        out@ == join(qv.take(i as int), "\n"@),
                    decreases lines@.len() - i,
                {
                    assert(qv.take(i + 1).drop_last() =~= qv.take(i as int));
                    proof {
                        lemma_chars_deep_view(lines@[i as int]);
                    }
                    if i > 0 {
                        extend_str(&mut out, "\n");
                    }
                    extend_str(&mut out, "> ");
                    extend_chars(&mut out, lines[i].as_slice());
                    proof {
                        if i == 0 {
                            assert(qv.take(1) =~= seq![qv[0]]);
                        }
                    }
                    assert(out@ =~= join(qv.take(i + 1), "\n"@));
                    i += 1;
                }
                assert(qv.take(i as int) =~= qv);
                extend_str(&mut out, "\n");
                assert(out@ =~= block_md(self@));
            },
            ContentBlock::Markdown(m) => {
                extend_str(&mut out, m.as_str());
                assert(out@ =~= block_md(self@));
            },
        }
        to_string(out.as_slice())
    }
}

// ---------------------------------------------------------------------
// Copies
// ---------------------------------------------------------------------

pub(crate) fn copy_opt_str(o: &Option<String>) -> (r: Option<String>)
    ensures
        opt_str(r) == opt_str(*o),
{
    match o {
        Some(s) => Some(s.clone()),
        None => None,
    }
}

fn copy_strings(v: &Vec<String>) -> (r: Vec<String>)
    ensures
        strs(r@) == strs(v@),
{
    let mut out: Vec<String> = Vec::new();
    let mut i: usize = 0;
    while i < v.len()
        invariant
            i <= v@.len(),
            out@.len() == i,
            forall|j: int| 0 <= j < i ==> #[trigger] out@[j]@ == v@[j]@,
        decreases v@.len() - i,
    {
        out.push(v[i].clone());
        i += 1;
    }
    assert(strs(out@) =~= strs(v@));
    out
}

fn copy_rows(v: &Vec<Vec<String>>) -> (r: Vec<Vec<String>>)
    ensures
        r@.map_values(|x: Vec<String>| strs(x@)) == v@.map_values(|x: Vec<String>| strs(x@)),
{
    let mut out: Vec<Vec<String>> = Vec::new();
    let mut i: usize = 0;
    while i < v.len()
        invariant
            i <= v@.len(),
            out@.len() == i,
            forall|j: int| 0 <= j < i ==> strs(#[trigger] out@[j]@) == strs(v@[j]@),
        decreases v@.len() - i,
    {
        out.push(copy_strings(&v[i]));
        i += 1;
    }
    assert(out@.map_values(|x: Vec<String>| strs(x@)) =~= v@.map_values(|x: Vec<String>| strs(x@)));
    out
}

fn copy_image(img: &ExtractedImage) -> (r: ExtractedImage)
    ensures
        r@ == img@,
{
    let data = crate::text::sub_vec(img.data.as_slice(), 0, img.data.len());
    assert(data@ =~= img.data@);
    ExtractedImage {
        id: img.id.clone(),
        data,
        mime_type: img.mime_type.clone(),
        alt_text: copy_opt_str(&img.alt_text),
        description: copy_opt_str(&img.description),
        width: img.width,
        height: img.height,
        page_number: img.page_number,
        source_path: copy_opt_str(&img.source_path),
    }
}

fn copy_block(b: &ContentBlock) -> (r: ContentBlock)
    ensures
        r@ == b@,
{
    match b {
        ContentBlock::Text(t) => ContentBlock::Text(t.clone()),
        ContentBlock::Heading { level, text } => ContentBlock::Heading { level: *level, text: text.clone() },
        ContentBlock::Image(img) => ContentBlock::Image(copy_image(img)),
        ContentBlock::Table { headers, rows } => ContentBlock::Table {
            headers: copy_strings(headers),
            rows: copy_rows(rows),
        },
        ContentBlock::List { ordered, items } => ContentBlock::List {
            ordered: *ordered,
            items: copy_strings(items),
        },
        ContentBlock::Code { language, code } => ContentBlock::Code {
            language: copy_opt_str(language),
            code: code.clone(),
        },
        ContentBlock::Quote(t) => ContentBlock::Quote(t.clone()),
        ContentBlock::Markdown(m) => ContentBlock::Markdown(m.clone()),
    }
}

fn copy_metadata(v: &Vec<(String, String)>) -> (r: Vec<(String, String)>)
    ensures
        r@.map_values(|e: (String, String)| (e.0@, e.1@)) == v@.map_values(|e: (String, String)| (e.0@, e.1@)),
{
    let mut out: Vec<(String, String)> = Vec::new();
    let mut i: usize = 0;
    while i < v.len()
        invariant
            i <= v@.len(),
            out@.len() == i,
            forall|j: int| 0 <= j < i ==> (#[trigger] out@[j]).0@ == v@[j].0@ && out@[j].1@ == v@[j].1@,
        decreases v@.len() - i,
    {
        out.push((v[i].0.clone(), v[i].1.clone()));
        i += 1;
    }
    assert(out@.map_values(|e: (String, String)| (e.0@, e.1@)) =~= v@.map_values(|e: (String, String)| (e.0@, e.1@)));
    out
}

fn copy_page(p: &Page) -> (r: Page)
    ensures
        r@ == p@,
{
    let mut content: Vec<ContentBlock> = Vec::new();
    let mut i: usize = 0;
    while i < p.content.len()
        invariant
            i <= p.content@.len(),
            content@.len() == i,
            forall|j: int| 0 <= j < i ==> (#[trigger] content@[j])@ == p.content@[j]@,
        decreases p.content@.len() - i,
    {
        content.push(copy_block(&p.content[i]));
        i += 1;
    }
    assert(blocks_view(content@) =~= blocks_view(p.content@));
    let rendered_image = match &p.rendered_image {
        Some(img) => Some(copy_image(img)),
        None => None,
    };
    Page { page_number: p.page_number, content, rendered_image }
}

fn copy_document(d: &Document) -> (r: Document)
    ensures
        r@ == d@,
{
    let mut pages: Vec<Page> = Vec::new();
    let mut i: usize = 0;
    while i < d.pages.len()
        invariant
            i <= d.pages@.len(),
            pages@.len() == i,
            forall|j: int| 0 <= j < i ==> (#[trigger] pages@[j])@ == d.pages@[j]@,
        decreases d.pages@.len() - i,
    {
        pages.push(copy_page(&d.pages[i]));
        i += 1;
    }
    assert(pages_of(pages@) =~= pages_of(d.pages@));
    Document { title: copy_opt_str(&d.title), pages, metadata: copy_metadata(&d.metadata) }
}

// ---------------------------------------------------------------------
// Pages and documents
// ---------------------------------------------------------------------

/// The images among the blocks, in order.
pub open spec fn images_of(c: Seq<BlockView>) -> Seq<ImageView>
    decreases c.len(),
{
    if c.len() == 0 {
        seq![]
    } else {
        images_of(c.drop_last()) + (match c.last() {
            BlockView::Image(img) => seq![img],
            _ => seq![],
        })
    }
}

/// The images of the pages, page by page.
pub open spec fn doc_images(pages: Seq<DocPageView>) -> Seq<ImageView>
    decreases pages.len(),
{
    if pages.len() == 0 {
        seq![]
    } else {
        doc_images(pages.drop_last()) + images_of(pages.last().content)
    }
}

/// The image with `path` as its source path unless it has one.
pub open spec fn with_source(img: ImageView, path: Seq<char>) -> ImageView {
    if img.source_path is None {
        ImageView { source_path: Some(path), ..img }
    } else {
        img
    }
}

/// The block with [`with_source`] applied to an image.
pub open spec fn block_with_source(b: BlockView, path: Seq<char>) -> BlockView {
    match b {
        BlockView::Image(img) => BlockView::Image(with_source(img, path)),
        _ => b,
    }
}

/// The page with [`with_source`] applied to its images and rendered image.
pub open spec fn page_with_source(p: DocPageView, path: Seq<char>) -> DocPageView {
    DocPageView {
        page_number: p.page_number,
        content: p.content.map_values(|b: BlockView| block_with_source(b, path)),
        rendered_image: match p.rendered_image {
            Some(img) => Some(with_source(img, path)),
            None => None,
        },
    }
}

/// The Markdown of a page: its blocks' Markdown joined by newlines.
pub open spec fn page_md(p: DocPageView) -> Seq<char> {
    join(p.content.map_values(|b: BlockView| block_md(b)), "\n"@)
}

/// The Markdown of the pages, each under a page heading when `numbered`.
pub open spec fn pages_md(pages: Seq<DocPageView>, numbered: bool) -> Seq<char>
    decreases pages.len(),
{
    if pages.len() == 0 {
        seq![]
    } else {
        pages_md(pages.drop_last(), numbered) + (if numbered {
            "\n---\n## Page "@ + decimal(pages.last().page_number as nat) + "\n\n"@
        } else {
            seq![]
        }) + page_md(pages.last())
    }
}

/// The Markdown of a document: the title as a heading, then the pages,
/// each under a page heading when there is more than one.
pub open spec fn doc_md(d: DocumentView) -> Seq<char> {
    (match d.title {
        Some(t) => "# "@ + t + "\n\n"@,
        None => seq![],
    }) + pages_md(d.pages, d.pages.len() > 1)
}

/// A block with an image replaced by a text block `[Image: ...]` holding
/// its display text, or else its id.
pub open spec fn text_only_block(b: BlockView) -> BlockView {
    match b {
        BlockView::Image(img) => BlockView::Text(
            "[Image: "@ + (match display_of(img) {
                Some(t) => t,
                None => img.id,
            }) + "]"@,
        ),
        _ => b,
    }
}

/// The page with its images replaced by text, without a rendered image.
pub open spec fn text_only_page(p: DocPageView) -> DocPageView {
    DocPageView {
        page_number: p.page_number,
        content: p.content.map_values(|b: BlockView| text_only_block(b)),
        rendered_image: None,
    }
}

/// The pages for table merging: page number and Markdown.
pub open spec fn merge_input(pages: Seq<DocPageView>) -> Seq<PageView> {
    pages.map_values(
        |p: DocPageView|
            PageView {
                page_number: p.page_number,
                content: page_md(p),
                merged_from_next: false,
                merged_into_previous: false,
            },
    )
}

/// The document with tables merged across pages: with more than one page,
/// each merged page becomes a page holding its Markdown.
pub open spec fn merged_doc(d: DocumentView) -> DocumentView {
    if d.pages.len() <= 1 {
        d
    } else {
        DocumentView {
            title: d.title,
            pages: merge_pages_from(merge_input(d.pages), 0, 1).map_values(
                |m: PageView|
                    DocPageView {
                        page_number: m.page_number,
                        content: seq![BlockView::Markdown(m.content)],
                        rendered_image: None,
                    },
            ),
            metadata: d.metadata,
        }
    }
}

impl Page {
    /// Gives each image of the page, and the rendered image, `path` as
    /// source path unless it has one.
    pub fn apply_image_context_path(&mut self, path: &str)
        ensures
            final(self)@ == page_with_source(old(self)@, path@),
    {
        let ghost c0 = self.content@;
        let mut i: usize = 0;
        while i < self.content.len()
            invariant
                i <= self.content@.len(),
                self.content@.len() == c0.len(),
                forall|j: int| 0 <= j < i ==> (#[trigger] self.content@[j])@ == block_with_source(c0[j]@, path@),
                forall|j: int| i <= j < c0.len() ==> #[trigger] self.content@[j] == c0[j],
                self.page_number == old(self).page_number,
                self.rendered_image == old(self).rendered_image,
                c0 == old(self).content@,
            decreases c0.len() - i,
        {
            let replacement = match &self.content[i] {
                ContentBlock::Image(img) => {
                    if img.source_path.is_none() {
                        let mut n = copy_image(img);
                        n.source_path = Some(path.to_string());
                        Some(ContentBlock::Image(n))
                    } else {
                        None
                    }
                },
                _ => None,
            };
            match replacement {
                Some(b) => {
                    self.content.set(i, b);
                },
                None => {},
            }
            i += 1;
        }
        match &self.rendered_image {
            Some(img) => {
                if img.source_path.is_none() {
                    let mut n = copy_image(img);
                    n.source_path = Some(path.to_string());
                    self.rendered_image = Some(n);
                }
            },
            None => {},
        }
        assert(blocks_view(self.content@) =~= blocks_view(c0).map_values(|b: BlockView| block_with_source(b, path@)));
    }

    /// The images among the page's blocks, in order.
    pub fn images(&self) -> (r: Vec<&ExtractedImage>)
        ensures
            r@.map_values(|x: &ExtractedImage| x@) == images_of(self@.content),
    {
        let ghost cv = self@.content;
        let mut out: Vec<&ExtractedImage> = Vec::new();
        let mut i: usize = 0;
        while i < self.content.len()
            invariant
                i <= self.content@.len(),
                cv == blocks_view(self.content@),
                out@.map_values(|x: &ExtractedImage| x@) == images_of(cv.take(i as int)),
            decreases self.content@.len() - i,
        {
            assert(cv.take(i + 1).drop_last() =~= cv.take(i as int));
            let ghost before = out@;
            match &self.content[i] {
                ContentBlock::Image(img) => {
                    out.push(img);
                    assert(out@.map_values(|x: &ExtractedImage| x@) =~= before.map_values(|x: &ExtractedImage| x@).push(img@));
                },
                _ => {
                    assert(out@ == before);
                },
            }
            assert(out@.map_values(|x: &ExtractedImage| x@) =~= images_of(cv.take(i + 1)));
            i += 1;
        }
        assert(cv.take(i as int) =~= cv);
        out
    }

    /// The Markdown of the page.
    pub fn to_markdown(&self) -> (r: String)
        ensures
            r@ == page_md(self@),
    {
        let ghost mv = self@.content.map_values(|b: BlockView| block_md(b));
        let mut out: Vec<char> = Vec::new();
        let mut i: usize = 0;
        while i < self.content.len()
            invariant
                i <= self.content@.len(),
                mv == self@.content.map_values(|b: BlockView| block_md(b)),
                out@ == join(mv.take(i as int), "\n"@),
            decreases self.content@.len() - i,
        {
            assert(mv.take(i + 1).drop_last() =~= mv.take(i as int));
            let md = self.content[i].to_markdown();
            assert(md@ == mv[i as int]);
            if i > 0 {
                extend_str(&mut out, "\n");
            }
            extend_str(&mut out, md.as_str());
            proof {
                if i == 0 {
                    assert(mv.take(1) =~= seq![mv[0]]);
                }
            }
            assert(out@ =~= join(mv.take(i + 1), "\n"@));
            i += 1;
        }
        assert(mv.take(i as int) =~= mv);
        to_string(out.as_slice())
    }

    /// The page with images replaced by their display text (or id).
    pub fn to_text_only(&self) -> (r: Page)
        ensures
            r@ == text_only_page(self@),
    {
        let mut new_page = Page::new(self.page_number);
        let mut i: usize = 0;
        while i < self.content.len()
            invariant
                i <= self.content@.len(),
                new_page.page_number == self.page_number,
                new_page.rendered_image is None,
                new_page.content@.len() == i,
                forall|j: int| 0 <= j < i ==> (#[trigger] new_page.content@[j])@ == text_only_block(self.content@[j]@),
            decreases self.content@.len() - i,
        {
            let b = match &self.content[i] {
                ContentBlock::Image(img) => {
                    let mut t: Vec<char> = Vec::new();
                    extend_str(&mut t, "[Image: ");
                    match img.get_display_text() {
                        Some(d) => extend_str(&mut t, d),
                        None => extend_str(&mut t, img.id.as_str()),
                    }
                    extend_str(&mut t, "]");
                    ContentBlock::Text(to_string(t.as_slice()))
                },
                other => copy_block(other),
            };
            new_page.add_content(b);
            i += 1;
        }
        assert(blocks_view(new_page.content@) =~= blocks_view(self.content@).map_values(|b: BlockView| text_only_block(b)));
        new_page
    }
}

/// The positions, among the first `k` blocks, of the images that have no
/// description.
pub open spec fn undescribed_from(bs: Seq<BlockView>, k: nat) -> Seq<usize>
    decreases k,
{
    if k == 0 {
        Seq::empty()
    } else {
        undescribed_from(bs, (k - 1) as nat) + if bs[k - 1] matches BlockView::Image(x) && x.description is None {
            seq![(k - 1) as usize]
        } else {
            Seq::empty()
        }
    }
}

/// The positions of the page's images that have no description, in order:
/// those a model is asked to describe.
pub open spec fn undescribed(p: DocPageView) -> Seq<usize> {
    undescribed_from(p.content, p.content.len())
}

/// Block `j` with the description for it: the `n`-th image without a
/// description takes the `n`-th description, where there is one.
pub open spec fn described_block(bs: Seq<BlockView>, j: int, descs: Seq<Seq<char>>) -> BlockView {
    match bs[j] {
        BlockView::Image(x) => if x.description is None && undescribed_from(bs, j as nat).len() < descs.len() {
            BlockView::Image(ImageView { description: Some(descs[undescribed_from(bs, j as nat).len() as int]), ..x })
        } else {
            bs[j]
        },
        _ => bs[j],
    }
}

/// The page with the descriptions given to its images that had none; a
/// page with such images is made anew, without a rendered image.
pub open spec fn described(p: DocPageView, descs: Seq<Seq<char>>) -> DocPageView {
    DocPageView {
        page_number: p.page_number,
        content: Seq::new(p.content.len(), |j: int| described_block(p.content, j, descs)),
        rendered_image: if undescribed(p).len() == 0 {
            p.rendered_image
        } else {
            None
        },
    }
}

impl Page {
    /// The positions of the images that have no description (see
    /// [`undescribed`]).
    pub fn images_to_describe(&self) -> (r: Vec<usize>)
        ensures
            r@ == undescribed(self@),
    {
        let ghost bs = self@.content;
        let mut r: Vec<usize> = Vec::new();
        let mut i: usize = 0;
        while i < self.content.len()
            invariant
                i <= self.content@.len(),
                bs == self@.content,
                r@ == undescribed_from(bs, i as nat),
            decreases self.content@.len() - i,
        {
            assert(bs[i as int] == self.content@[i as int]@);
            match &self.content[i] {
                ContentBlock::Image(img) => {
                    if img.description.is_none() {
                        r.push(i);
                    }
                },
                _ => {},
            }
            i += 1;
        }
        r
    }

    /// The page with the descriptions a model gave, in order, for its images
    /// that had none (see [`described`]).
    pub fn with_descriptions(&self, descs: &Vec<String>) -> (r: Page)
        ensures
            r@ == described(self@, strs(descs@)),
    {
        let ghost bs = self@.content;
        let ghost dv = strs(descs@);
        let mut new_page = Page::new(self.page_number);
        let mut n: usize = 0;
        let mut i: usize = 0;
        while i < self.content.len()
            invariant
                i <= self.content@.len(),
                bs == self@.content,
                dv == strs(descs@),
                n == undescribed_from(bs, i as nat).len(),
                n <= i,
                new_page.page_number == self.page_number,
                new_page.rendered_image is None,
                new_page.content@.len() == i,
                forall|j: int| 0 <= j < i ==> (#[trigger] new_page.content@[j])@ == described_block(bs, j, dv),
            decreases self.content@.len() - i,
        {
            assert(bs[i as int] == self.content@[i as int]@);
            let b = match &self.content[i] {
                ContentBlock::Image(img) => {
                    if img.description.is_none() {
                        let mut x = copy_image(img);
                        if n < descs.len() {
                            x.description = Some(descs[n].clone());
                        }
                        n = n + 1;
                        ContentBlock::Image(x)
                    } else {
                        copy_block(&self.content[i])
                    }
                },
                other => copy_block(other),
            };
            new_page.add_content(b);
            i += 1;
        }
        let ghost cv = Seq::new(bs.len(), |j: int| described_block(bs, j, dv));
        assert(blocks_view(new_page.content@) =~= cv);
        if n == 0 {
            assert(undescribed(self@).len() == 0);
            match &self.rendered_image {
                Some(img) => {
                    new_page.rendered_image = Some(copy_image(img));
                },
                None => {},
            }
        }
        new_page
    }
}

impl Document {
    /// The images of all pages, page by page.
    pub fn images(&self) -> (r: Vec<&ExtractedImage>)
        ensures
            r@.map_values(|x: &ExtractedImage| x@) == doc_images(self@.pages),
    {
        let ghost pv = self@.pages;
        let mut out: Vec<&ExtractedImage> = Vec::new();
        let mut i: usize = 0;
        while i < self.pages.len()
            invariant
                i <= self.pages@.len(),
                pv == pages_of(self.pages@),
                out@.map_values(|x: &ExtractedImage| x@) == doc_images(pv.take(i as int)),
            decreases self.pages@.len() - i,
        {
            assert(pv.take(i + 1).drop_last() =~= pv.take(i as int));
            let imgs = self.pages[i].images();
            let ghost before = out@;
            let mut k: usize = 0;
            while k < imgs.len()
                invariant
                    k <= imgs@.len(),
                    out@ == before + imgs@.take(k as int),
                decreases imgs@.len() - k,
            {
                out.push(imgs[k]);
                k += 1;
                assert(out@ =~= before + imgs@.take(k as int));
            }
            assert(imgs@.take(k as int) =~= imgs@);
            assert(out@.map_values(|x: &ExtractedImage| x@) =~= before.map_values(|x: &ExtractedImage| x@)
                + imgs@.map_values(|x: &ExtractedImage| x@));
            assert(out@.map_values(|x: &ExtractedImage| x@) =~= doc_images(pv.take(i + 1)));
            i += 1;
        }
        assert(pv.take(i as int) =~= pv);
        out
    }

    /// Gives every image of every page `path` as source path unless it has
    /// one.
    pub fn apply_image_context_path(&mut self, path: &str)
        ensures
            final(self)@ == (DocumentView {
                pages: old(self)@.pages.map_values(|p: DocPageView| page_with_source(p, path@)),
                ..old(self)@
            }),
    {
        let ghost p0 = self.pages@;
        let mut i: usize = 0;
        while i < self.pages.len()
            invariant
                i <= self.pages@.len(),
                self.pages@.len() == p0.len(),
                forall|j: int| 0 <= j < i ==> (#[trigger] self.pages@[j])@ == page_with_source(p0[j]@, path@),
                forall|j: int| i <= j < p0.len() ==> #[trigger] self.pages@[j] == p0[j],
                self.title == old(self).title,
                self.metadata == old(self).metadata,
                p0 == old(self).pages@,
            decreases p0.len() - i,
        {
            let mut page = copy_page(&self.pages[i]);
            page.apply_image_context_path(path);
            self.pages.set(i, page);
            i += 1;
        }
        assert(pages_of(self.pages@) =~= pages_of(p0).map_values(|p: DocPageView| page_with_source(p, path@)));
    }

    /// The Markdown of the document.
    pub fn to_markdown(&self) -> (r: String)
        ensures
            r@ == doc_md(self@),
    {
        let ghost pv = self@.pages;
        let numbered = self.pages.len() > 1;
        let mut out: Vec<char> = Vec::new();
        match &self.title {
            Some(t) => {
                extend_str(&mut out, "# ");
                extend_str(&mut out, t.as_str());
                extend_str(&mut out, "\n\n");
            },
            None => {},
        }
        let ghost head = out@;
        let mut i: usize = 0;
        while i < self.pages.len()
            invariant
                i <= self.pages@.len(),
                pv == pages_of(self.pages@),
                numbered == (self.pages@.len() > 1),
                out@ == head + pages_md(pv.take(i as int), numbered),
            decreases self.pages@.len() - i,
        {
            assert(pv.take(i + 1).drop_last() =~= pv.take(i as int));
            if numbered {
                extend_str(&mut out, "\n---\n## Page ");
                push_decimal(&mut out, self.pages[i].page_number as usize);
                extend_str(&mut out, "\n\n");
            }
            let md = self.pages[i].to_markdown();
            extend_str(&mut out, md.as_str());
            assert(out@ =~= head + pages_md(pv.take(i + 1), numbered));
            i += 1;
        }
        assert(pv.take(i as int) =~= pv);
        assert(out@ =~= doc_md(self@));
        to_string(out.as_slice())
    }

    /// The document with each page made text only.
    pub fn to_text_only(&self) -> (r: Document)
        ensures
            r@ == (DocumentView {
                pages: self@.pages.map_values(|p: DocPageView| text_only_page(p)),
                ..self@
            }),
    {
        let mut new_doc = Document::new();
        new_doc.title = copy_opt_str(&self.title);
        new_doc.metadata = copy_metadata(&self.metadata);
        let mut i: usize = 0;
        while i < self.pages.len()
            invariant
                i <= self.pages@.len(),
                opt_str(new_doc.title) == opt_str(self.title),
                new_doc@.metadata == self@.metadata,
                new_doc.pages@.len() == i,
                forall|j: int| 0 <= j < i ==> (#[trigger] new_doc.pages@[j])@ == text_only_page(self.pages@[j]@),
            decreases self.pages@.len() - i,
        {
            new_doc.add_page(self.pages[i].to_text_only());
            i += 1;
        }
        assert(pages_of(new_doc.pages@) =~= pages_of(self.pages@).map_values(|p: DocPageView| text_only_page(p)));
        new_doc
    }

    /// The document with each page given the descriptions a model gave
    /// for it (`descs[k]` for page `k`; none for a page past them), as
    /// [`Page::with_descriptions`] gives them.
    pub fn with_descriptions(&self, descs: &Vec<Vec<String>>) -> (r: Document)
        ensures
            r@ == (DocumentView {
                pages: Seq::new(
                    self@.pages.len(),
                    |k: int|
                        described(
                            self@.pages[k],
                            if k < descs@.len() {
                                strs(descs@[k]@)
                            } else {
                                Seq::empty()
                            },
                        ),
                ),
                ..self@
            }),
    {
        let mut new_doc = Document::new();
        new_doc.title = copy_opt_str(&self.title);
        new_doc.metadata = copy_metadata(&self.metadata);
        let none: Vec<String> = Vec::new();
        let mut i: usize = 0;
        while i < self.pages.len()
            invariant
                i <= self.pages@.len(),
                none@.len() == 0,
                opt_str(new_doc.title) == opt_str(self.title),
                new_doc@.metadata == self@.metadata,
                new_doc.pages@.len() == i,
                forall|j: int|
                    0 <= j < i ==> (#[trigger] new_doc.pages@[j])@ == described(
                        self.pages@[j]@,
                        if j < descs@.len() {
                            strs(descs@[j]@)
                        } else {
                            Seq::empty()
                        },
                    ),
            decreases self.pages@.len() - i,
        {
            let d = if i < descs.len() {
                &descs[i]
            } else {
                &none
            };
            assert(strs(none@) =~= Seq::<Seq<char>>::empty());
            new_doc.add_page(self.pages[i].with_descriptions(d));
            i += 1;
        }
        assert(pages_of(new_doc.pages@) =~= Seq::new(
            self@.pages.len(),
            |k: int|
                described(
                    self@.pages[k],
                    if k < descs@.len() {
                        strs(descs@[k]@)
                    } else {
                        Seq::empty()
                    },
                ),
        ));
        new_doc
    }

    /// The document with tables that continue across page breaks merged
    /// (see [`crate::table_merge::merge_tables_across_pages`]); a document of
    /// at most one page is returned unchanged.
    pub fn with_merged_tables(&self) -> (r: Document)
        ensures
            r@ == merged_doc(self@),
    {
        if self.pages.len() <= 1 {
            return copy_document(self);
        }
        let ghost pv = self@.pages;
        let mut contents: Vec<(u32, String)> = Vec::new();
        let mut i: usize = 0;
        while i < self.pages.len()
            invariant
                i <= self.pages@.len(),
                pv == pages_of(self.pages@),
                contents@.len() == i,
                forall|j: int| 0 <= j < i ==> (#[trigger] contents@[j]).0 == pv[j].page_number
                    && contents@[j].1@ == page_md(pv[j]),
            decreases self.pages@.len() - i,
        {
            contents.push((self.pages[i].page_number, self.pages[i].to_markdown()));
            i += 1;
        }
        assert(initial_pages(contents@) =~= merge_input(pv));
        let merged = merge_tables_across_pages(contents.as_slice());
        let ghost mv = merge_pages_from(merge_input(pv), 0, 1);
        let mut new_doc = Document::new();
        new_doc.title = copy_opt_str(&self.title);
        new_doc.metadata = copy_metadata(&self.metadata);
        let mut k: usize = 0;
        while k < merged.len()
            invariant
                k <= merged@.len(),
                pages_view(merged@) == mv,
                opt_str(new_doc.title) == opt_str(self.title),
                new_doc@.metadata == self@.metadata,
                new_doc.pages@.len() == k,
                forall|j: int| 0 <= j < k ==> (#[trigger] new_doc.pages@[j])@ == (DocPageView {
                    page_number: mv[j].page_number,
                    content: seq![BlockView::Markdown(mv[j].content)],
                    rendered_image: None,
                }),
            decreases merged@.len() - k,
        {
            assert(pages_view(merged@)[k as int] == merged@[k as int]@);
            let mut page = Page::new(merged[k].page_number);
            page.add_content(ContentBlock::Markdown(merged[k].content.clone()));
            assert(page@.content =~= seq![BlockView::Markdown(mv[k as int].content)]);
            new_doc.add_page(page);
            k += 1;
        }
        assert(pages_of(new_doc.pages@) =~= merged_doc(self@).pages);
        new_doc
    }
}

// ---------------------------------------------------------------------
// Converters
// ---------------------------------------------------------------------

/// `s` without its leading dots (`str::trim_start_matches('.')`).
pub open spec fn trim_dots(s: Seq<char>) -> Seq<char>
    decreases s.len(),
{
    if s.len() > 0 && s[0] == '.' {
        trim_dots(s.drop_first())
    } else {
        s
    }
}

/// The views of extension strings.
pub open spec fn ext_views(v: Seq<&str>) -> Seq<Seq<char>> {
    v.map_values(|s: &str| s@)
}

/// Some extension of `exts` equals `ext` up to leading dots and ASCII case.
pub open spec fn handles(exts: Seq<Seq<char>>, ext: Seq<char>) -> bool {
    exists|i: int| 0 <= i < exts.len() && eq_ignore_case(trim_dots(exts[i]), trim_dots(ext))
}

/// `s` without its leading dots.
fn trim_dots_chars(s: &[char]) -> (r: Vec<char>)
    ensures
        r@ == trim_dots(s@),
{
    let mut i: usize = 0;
    assert(s@.skip(0) =~= s@);
    while i < s.len() && s[i] == '.'
        invariant
            i <= s@.len(),
            trim_dots(s@) == trim_dots(s@.skip(i as int)),
        decreases s@.len() - i,
    {
        assert(s@.skip(i as int).drop_first() =~= s@.skip(i + 1));
        i += 1;
    }
    let r = crate::text::sub_vec(s, i, s.len());
    assert(r@ =~= s@.skip(i as int));
    r
}

/// Whether some extension of `exts` equals `ext` up to leading dots and
/// ASCII case.
pub(crate) fn any_extension_matches(exts: &[&str], ext: &str) -> (r: bool)
    ensures
        r == handles(ext_views(exts@), ext@),
{
    let ec = chars_of(ext);
    let e = trim_dots_chars(ec.as_slice());
    let mut i: usize = 0;
    while i < exts.len()
        invariant
            i <= exts@.len(),
            e@ == trim_dots(ext@),
            forall|j: int| 0 <= j < i ==> !eq_ignore_case(trim_dots(#[trigger] ext_views(exts@)[j]), trim_dots(ext@)),
        decreases exts@.len() - i,
    {
        let sc = chars_of(exts[i]);
        let t = trim_dots_chars(sc.as_slice());
        assert(ext_views(exts@)[i as int] == exts@[i as int]@);
        if eq_ignore_ascii_case(t.as_slice(), e.as_slice()) {
            return true;
        }
        i += 1;
    }
    false
}

/// A converter of documents of some formats to Markdown.
pub trait DocumentConverter {
    /// The file extensions the converter handles.
    spec fn extensions(&self) -> Seq<Seq<char>>;

    /// The file extensions the converter handles.
    fn supported_extensions(&self) -> (r: Vec<&'static str>)
        ensures
            ext_views(r@) == self.extensions(),
    ;

    /// Whether the converter handles the extension: some supported
    /// extension equals it once leading dots are removed from both, ignoring
    /// ASCII case.
    fn can_handle(&self, extension: &str) -> (r: bool)
        ensures
            r == handles(self.extensions(), extension@),
    {
        let exts = self.supported_extensions();
        any_extension_matches(exts.as_slice(), extension)
    }
}

/// Whether a converter handles an extension does not depend on leading dots
/// or ASCII case of the extension.
pub proof fn lemma_handles_normalized(exts: Seq<Seq<char>>, a: Seq<char>, b: Seq<char>)
    requires
        eq_ignore_case(trim_dots(a), trim_dots(b)),
    ensures
        handles(exts, a) == handles(exts, b),
{
    let ta = trim_dots(a);
    let tb = trim_dots(b);
    if handles(exts, a) {
        let i = choose|i: int| 0 <= i < exts.len() && eq_ignore_case(trim_dots(exts[i]), ta);
        assert(eq_ignore_case(trim_dots(exts[i]), tb));
    }
    if handles(exts, b) {
        let i = choose|i: int| 0 <= i < exts.len() && eq_ignore_case(trim_dots(exts[i]), tb);
        assert(eq_ignore_case(trim_dots(exts[i]), ta));
    }
}

// ---------------------------------------------------------------------
// Options and results
// ---------------------------------------------------------------------

/// Options for a conversion.
pub struct ConversionOptions {
    /// File extension hint, such as `.pdf`.
    pub file_extension: Option<String>,
    /// Source URL, if any.
    pub url: Option<String>,
    /// Path hint for image descriptions.
    pub image_context_path: Option<String>,
    /// Whether to extract images.
    pub extract_images: bool,
    /// Whether to describe every PDF page with a model.
    pub force_llm_ocr: bool,
    /// Whether to merge tables that continue across pages.
    pub merge_multipage_tables: bool,
}

impl ConversionOptions {
    /// The default options: no hints, images extracted, nothing forced or
    /// merged.
    pub fn new() -> (r: Self)
        ensures
            r.file_extension is None,
            r.url is None,
            r.image_context_path is None,
            r.extract_images,
            !r.force_llm_ocr,
            !r.merge_multipage_tables,
    {
        ConversionOptions {
            file_extension: None,
            url: None,
            image_context_path: None,
            extract_images: true,
            force_llm_ocr: false,
            merge_multipage_tables: false,
        }
    }

    /// The options with the extension hint set.
    pub fn with_extension(self, ext: &str) -> (r: Self)
        ensures
            opt_str(r.file_extension) == Some(ext@),
            r.url == self.url,
            r.image_context_path == self.image_context_path,
            r.extract_images == self.extract_images,
            r.force_llm_ocr == self.force_llm_ocr,
            r.merge_multipage_tables == self.merge_multipage_tables,
    {
        let mut o = self;
        o.file_extension = Some(String::from_str(ext));
        o
    }

    /// The options with the image path hint set.
    pub fn with_image_context_path(self, path: &str) -> (r: Self)
        ensures
            opt_str(r.image_context_path) == Some(path@),
            r.file_extension == self.file_extension,
            r.url == self.url,
            r.extract_images == self.extract_images,
            r.force_llm_ocr == self.force_llm_ocr,
            r.merge_multipage_tables == self.merge_multipage_tables,
    {
        let mut o = self;
        o.image_context_path = Some(String::from_str(path));
        o
    }

    /// The options with image extraction set.
    pub fn with_images(self, extract: bool) -> (r: Self)
        ensures
            r.extract_images == extract,
            r.file_extension == self.file_extension,
            r.url == self.url,
            r.image_context_path == self.image_context_path,
            r.force_llm_ocr == self.force_llm_ocr,
            r.merge_multipage_tables == self.merge_multipage_tables,
    {
        let mut o = self;
        o.extract_images = extract;
        o
    }

    /// The options with page descriptions forced or not.
    pub fn with_force_llm_ocr(self, force: bool) -> (r: Self)
        ensures
            r.force_llm_ocr == force,
            r.file_extension == self.file_extension,
            r.url == self.url,
            r.image_context_path == self.image_context_path,
            r.extract_images == self.extract_images,
            r.merge_multipage_tables == self.merge_multipage_tables,
    {
        let mut o = self;
        o.force_llm_ocr = force;
        o
    }

    /// The options with table merging set.
    pub fn with_merge_multipage_tables(self, merge: bool) -> (r: Self)
        ensures
            r.merge_multipage_tables == merge,
            r.file_extension == self.file_extension,
            r.url == self.url,
            r.image_context_path == self.image_context_path,
            r.extract_images == self.extract_images,
            r.force_llm_ocr == self.force_llm_ocr,
    {
        let mut o = self;
        o.merge_multipage_tables = merge;
        o
    }
}

impl Default for ConversionOptions {
    fn default() -> (r: Self)
        ensures
            r.file_extension is None,
            r.url is None,
            r.image_context_path is None,
            r.extract_images,
            !r.force_llm_ocr,
            !r.merge_multipage_tables,
    {
        ConversionOptions::new()
    }
}

/// Whether image extraction is on: the option's setting, on by default.
pub open spec fn extracts_images(o: Option<&ConversionOptions>) -> bool {
    match o {
        Some(x) => x.extract_images,
        None => true,
    }
}

/// The title and Markdown of a converted document.
pub struct DocumentConverterResult {
    /// The title, if any.
    pub title: Option<String>,
    /// The document's Markdown.
    pub text_content: String,
}

impl DocumentConverterResult {
    /// The title and Markdown of the document.
    pub fn from(doc: Document) -> (r: Self)
        ensures
            opt_str(r.title) == opt_str(doc.title),
            r.text_content@ == doc_md(doc@),
    {
        let text_content = doc.to_markdown();
        DocumentConverterResult { title: doc.title, text_content }
    }
}

} // verus!
