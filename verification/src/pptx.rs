//! PowerPoint (PPTX) presentations: one page per slide file, in the order of
//! the files' names, holding the slide's text bodies and tables read from its
//! XML events and the images that its relationships lead to; the Markdown of
//! tables and the detection of the type of images.
use vstd::prelude::*;
use crate::archive_formats::{starts_with_bytes, starts_with_u8, zip_count, zip_entry, zip_open, zip_read_entry};
use crate::opendocument::{read_zip_text, zip_text_entry};
use crate::chars::to_string;
use crate::error::{is_parse_error, parse_error, MarkitdownError};
use crate::model::{
    blocks_view, ext_views, pages_of, strs, BlockView, ContentBlock, ConversionOptions, DocPageView, Document,
    DocumentConverter, DocumentView, ExtractedImage, ImageView, Page,
};
use crate::ppt_text::{find_substring, has_substring};
use crate::text::{
    chars_eq, chars_eq_str, chars_of, decimal, ends_with_str, extend_chars, extend_str, has_prefix, has_suffix,
    push_decimal, starts_with_str, sub_vec,
};
use crate::xml::{events_view, read_xml_events, xml_events, AttrView, XmlAttr, XmlEvent, XmlEventView};

verus! {

/// PPTX converter.
pub struct PptxConverter;

/// The cells of a row, each as ` cell |`.
pub open spec fn cells_md(cells: Seq<Seq<char>>) -> Seq<char>
    decreases cells.len(),
{
    if cells.len() == 0 {
        Seq::empty()
    } else {
        cells_md(cells.drop_last()) + " "@ + cells.last() + " |"@
    }
}

/// The rows of a table, each as `|` and its cells on a line.
pub open spec fn rows_md(rows: Seq<Seq<Seq<char>>>) -> Seq<char>
    decreases rows.len(),
{
    if rows.len() == 0 {
        Seq::empty()
    } else {
        rows_md(rows.drop_last()) + "|"@ + cells_md(rows.last()) + "\n"@
    }
}

/// `n` copies of `---|`.
pub open spec fn separators(n: nat) -> Seq<char>
    decreases n,
{
    if n == 0 {
        Seq::empty()
    } else {
        separators((n - 1) as nat) + "---|"@
    }
}

/// A Markdown table: the header row, one separator per header, the rows,
/// and an empty line.
pub open spec fn pptx_table_md(headers: Seq<Seq<char>>, rows: Seq<Seq<Seq<char>>>) -> Seq<char> {
    "|"@ + cells_md(headers) + "\n|"@ + separators(headers.len()) + "\n"@ + rows_md(rows) + "\n"@
}

/// The views of a list of strings.
pub open spec fn str_views(v: Seq<String>) -> Seq<Seq<char>> {
    v.map_values(|s: String| s@)
}

/// The MIME type of image bytes by their signature; at least 8 bytes are
/// needed.
pub open spec fn pptx_mime(b: Seq<u8>) -> Seq<char> {
    if b.len() < 8 {
        "application/octet-stream"@
    } else if starts_with_bytes(b, seq![0x89u8, 0x50, 0x4E, 0x47, 0x0D, 0x0A, 0x1A, 0x0A]) {
        "image/png"@
    } else if starts_with_bytes(b, seq![0xFFu8, 0xD8, 0xFF]) {
        "image/jpeg"@
    } else if starts_with_bytes(b, seq![0x47u8, 0x49, 0x46, 0x38, 0x37, 0x61]) || starts_with_bytes(
        b,
        seq![0x47u8, 0x49, 0x46, 0x38, 0x39, 0x61],
    ) {
        "image/gif"@
    } else if b.len() >= 12 && b.take(4) == seq![0x52u8, 0x49, 0x46, 0x46] && b.subrange(8, 12) == seq![
        0x57u8,
        0x45,
        0x42,
        0x50,
    ] {
        "image/webp"@
    } else if starts_with_bytes(b, seq![0x42u8, 0x4D]) {
        "image/bmp"@
    } else if starts_with_bytes(b, seq![0x01u8, 0x00, 0x00, 0x00]) {
        "image/emf"@
    } else if starts_with_bytes(b, seq![0xD7u8, 0xCD, 0xC6, 0x9A]) {
        "image/wmf"@
    } else {
        "application/octet-stream"@
    }
}


// ---------------------------------------------------------------------
// Slide text
// ---------------------------------------------------------------------

/// Where the slide reader stands and what it has gathered: `mode` is 0 at
/// the top of the slide, 1 in a text body, 2 in a run of text, 3 in a table
/// and 4 in a table cell; `text` is the text body's text so far, `rows` the
/// table's rows so far, `cell` the cell's text so far, `blocks` the blocks
/// read.
pub struct SlideScan {
    pub mode: u8,
    pub text: Seq<char>,
    pub rows: Seq<Seq<Seq<char>>>,
    pub cell: Seq<char>,
    pub blocks: Seq<BlockView>,
}

/// The reader before the first event.
pub open spec fn scan_start() -> SlideScan {
    SlideScan { mode: 0, text: Seq::empty(), rows: Seq::empty(), cell: Seq::empty(), blocks: Seq::empty() }
}

/// The event opens an element of that name.
pub open spec fn starts(e: XmlEventView, n: Seq<char>) -> bool {
    e matches XmlEventView::Start { name, .. } && name == n
}

/// The event closes an element of that name.
pub open spec fn ends(e: XmlEventView, n: Seq<char>) -> bool {
    e matches XmlEventView::End { name } && name == n
}

/// The reader in another mode, all else kept.
pub open spec fn in_mode(s: SlideScan, m: u8) -> SlideScan {
    SlideScan { mode: m, text: s.text, rows: s.rows, cell: s.cell, blocks: s.blocks }
}

/// One event read: a text body (`p:txBody`) gathers the text of its runs
/// (`a:t`) and becomes a text block if that is not empty; a table (`a:tbl`)
/// gathers rows (`a:tr`) of cells (`a:tc`, the text within them; a cell
/// before any row is passed over) and becomes a table block whose first row
/// is the header, if it has rows. Other events leave the reader as it is.
pub open spec fn slide_step(s: SlideScan, e: XmlEventView) -> SlideScan {
    if s.mode == 0 {
        if starts(e, "p:txBody"@) {
            SlideScan { mode: 1, text: Seq::empty(), rows: s.rows, cell: s.cell, blocks: s.blocks }
        } else if starts(e, "a:tbl"@) {
            SlideScan { mode: 3, text: s.text, rows: Seq::empty(), cell: s.cell, blocks: s.blocks }
        } else {
            s
        }
    } else if s.mode == 1 {
        if starts(e, "a:t"@) {
            in_mode(s, 2)
        } else if ends(e, "p:txBody"@) {
            SlideScan {
                mode: 0,
                text: s.text,
                rows: s.rows,
                cell: s.cell,
                blocks: if s.text.len() > 0 {
                    s.blocks.push(BlockView::Text(s.text))
                } else {
                    s.blocks
                },
            }
        } else {
            s
        }
    } else if s.mode == 2 {
        match e {
            XmlEventView::Text(t) => SlideScan {
                mode: 2,
                text: s.text + t,
                rows: s.rows,
                cell: s.cell,
                blocks: s.blocks,
            },
            XmlEventView::End { name } => if name == "a:t"@ {
                in_mode(s, 1)
            } else {
                s
            },
            _ => s,
        }
    } else if s.mode == 3 {
        if starts(e, "a:tr"@) {
            SlideScan { mode: 3, text: s.text, rows: s.rows.push(Seq::empty()), cell: s.cell, blocks: s.blocks }
        } else if starts(e, "a:tc"@) {
            if s.rows.len() > 0 {
                SlideScan { mode: 4, text: s.text, rows: s.rows, cell: Seq::empty(), blocks: s.blocks }
            } else {
                s
            }
        } else if ends(e, "a:tbl"@) {
            SlideScan {
                mode: 0,
                text: s.text,
                rows: Seq::empty(),
                cell: s.cell,
                blocks: if s.rows.len() > 0 {
                    s.blocks.push(BlockView::Table { headers: s.rows[0], rows: s.rows.skip(1) })
                } else {
                    s.blocks
                },
            }
        } else {
            s
        }
    } else {
        match e {
            XmlEventView::Text(t) => SlideScan {
                mode: 4,
                text: s.text,
                rows: s.rows,
                cell: s.cell + t,
                blocks: s.blocks,
            },
            XmlEventView::End { name } => if name == "a:tc"@ {
                SlideScan {
                    mode: 3,
                    text: s.text,
                    rows: s.rows.update(s.rows.len() - 1, s.rows.last().push(s.cell)),
                    cell: s.cell,
                    blocks: s.blocks,
                }
            } else {
                s
            },
            _ => s,
        }
    }
}

/// The blocks of a slide read from event `i` on: an error event is a parse
/// error; the end of input (or of the events) ends the slide with the blocks
/// read, an element left open there giving none.
pub open spec fn slide_blocks_from(ev: Seq<XmlEventView>, i: int, s: SlideScan) -> Result<Seq<BlockView>, Seq<char>>
    decreases ev.len() - i,
{
    if i < 0 || i >= ev.len() {
        Ok(s.blocks)
    } else {
        match ev[i] {
            XmlEventView::Error(m) => Err("Failed to read XML event: "@ + m),
            XmlEventView::Eof => Ok(s.blocks),
            _ => slide_blocks_from(ev, i + 1, slide_step(s, ev[i])),
        }
    }
}

/// The text and table blocks of a slide's events, or the message of the
/// parse error.
pub open spec fn slide_blocks_spec(ev: Seq<XmlEventView>) -> Result<Seq<BlockView>, Seq<char>> {
    slide_blocks_from(ev, 0, scan_start())
}

/// The reader's state in executable form.
struct SlideState {
    mode: u8,
    text: Vec<char>,
    rows: Vec<Vec<String>>,
    cell: Vec<char>,
    blocks: Vec<ContentBlock>,
}

/// The views of rows of cells.
pub open spec fn rows_view(rows: Seq<Vec<String>>) -> Seq<Seq<Seq<char>>> {
    rows.map_values(|r: Vec<String>| strs(r@))
}

impl View for SlideState {
    type V = SlideScan;

    closed spec fn view(&self) -> SlideScan {
        SlideScan {
            mode: self.mode,
            text: self.text@,
            rows: rows_view(self.rows@),
            cell: self.cell@,
            blocks: blocks_view(self.blocks@),
        }
    }
}

impl SlideState {
    /// A reader in a consistent mode: at most 4, and in a cell only with a
    /// row to put it in.
    spec fn wf(&self) -> bool {
        self.mode <= 4 && (self.mode == 4 ==> self.rows@.len() > 0)
    }
}

fn scan_step(st: SlideState, e: &XmlEvent) -> (r: SlideState)
    requires
        st.wf(),
    ensures
        r.wf(),
        r@ == slide_step(st@, e@),
{
    let ghost s0 = st@;
    let SlideState { mode, mut text, mut rows, mut cell, mut blocks } = st;
    match e {
        XmlEvent::Start { name, .. } => {
            if mode == 0 {
                if chars_eq_str(name.as_slice(), "p:txBody") {
                    return SlideState { mode: 1, text: Vec::new(), rows, cell, blocks };
                } else if chars_eq_str(name.as_slice(), "a:tbl") {
                    let r = SlideState { mode: 3, text, rows: Vec::new(), cell, blocks };
                    assert(r@.rows =~= Seq::<Seq<Seq<char>>>::empty());
                    return r;
                }
            } else if mode == 1 {
                if chars_eq_str(name.as_slice(), "a:t") {
                    return SlideState { mode: 2, text, rows, cell, blocks };
                }
            } else if mode == 3 {
                if chars_eq_str(name.as_slice(), "a:tr") {
                    let ghost rv = rows_view(rows@);
                    let nr: Vec<String> = Vec::new();
                    assert(strs(nr@) =~= Seq::<Seq<char>>::empty());
                    rows.push(nr);
                    assert(rows_view(rows@) =~= rv.push(Seq::empty()));
                    return SlideState { mode: 3, text, rows, cell, blocks };
                } else if chars_eq_str(name.as_slice(), "a:tc") && rows.len() > 0 {
                    return SlideState { mode: 4, text, rows, cell: Vec::new(), blocks };
                }
            }
            SlideState { mode, text, rows, cell, blocks }
        },
        XmlEvent::End { name } => {
            if mode == 1 && chars_eq_str(name.as_slice(), "p:txBody") {
                if text.len() > 0 {
                    blocks.push(ContentBlock::Text(to_string(text.as_slice())));
                    assert(blocks_view(blocks@) =~= s0.blocks.push(BlockView::Text(s0.text)));
                }
                SlideState { mode: 0, text, rows, cell, blocks }
            } else if mode == 2 && chars_eq_str(name.as_slice(), "a:t") {
                SlideState { mode: 1, text, rows, cell, blocks }
            } else if mode == 3 && chars_eq_str(name.as_slice(), "a:tbl") {
                if rows.len() > 0 {
                    let ghost rv = rows_view(rows@);
                    let headers = rows.remove(0);
                    assert(rows_view(rows@) =~= rv.skip(1));
                    blocks.push(ContentBlock::Table { headers, rows });
                    assert(blocks_view(blocks@) =~= s0.blocks.push(
                        BlockView::Table { headers: rv[0], rows: rv.skip(1) },
                    ));
                }
                let r = SlideState { mode: 0, text, rows: Vec::new(), cell, blocks };
                assert(r@.rows =~= Seq::<Seq<Seq<char>>>::empty());
                r
            } else if mode == 4 && chars_eq_str(name.as_slice(), "a:tc") {
                let ghost rv = rows_view(rows@);
                let mut last = match rows.pop() {
                    Some(l) => l,
                    None => Vec::new(),
                };
                assert(strs(last@) == rv.last());
                let ghost lv = strs(last@);
                last.push(to_string(cell.as_slice()));
                assert(strs(last@) =~= lv.push(s0.cell));
                let ghost mid = rows_view(rows@);
                assert(mid =~= rv.drop_last());
                rows.push(last);
                assert(rows_view(rows@) =~= rv.update(rv.len() - 1, rv.last().push(s0.cell)));
                SlideState { mode: 3, text, rows, cell, blocks }
            } else {
                SlideState { mode, text, rows, cell, blocks }
            }
        },
        XmlEvent::Text(t) => {
            if mode == 2 {
                extend_chars(&mut text, t.as_slice());
            } else if mode == 4 {
                extend_chars(&mut cell, t.as_slice());
            }
            SlideState { mode, text, rows, cell, blocks }
        },
        _ => SlideState { mode, text, rows, cell, blocks },
    }
}

/// The text and table blocks of a slide's events (see [`slide_blocks_spec`]).
pub fn slide_blocks(events: &Vec<XmlEvent>) -> (r: Result<Vec<ContentBlock>, MarkitdownError>)
    ensures
        match slide_blocks_spec(events_view(events@)) {
            Ok(b) => r matches Ok(v) && blocks_view(v@) == b,
            Err(m) => r matches Err(e) && is_parse_error(e, m),
        },
{
    let ghost ev = events_view(events@);
    let mut st = SlideState { mode: 0, text: Vec::new(), rows: Vec::new(), cell: Vec::new(), blocks: Vec::new() };
    assert(st@ == scan_start()) by {
        assert(st@.rows =~= Seq::<Seq<Seq<char>>>::empty());
        assert(st@.blocks =~= Seq::<BlockView>::empty());
    }
    let mut i: usize = 0;
    while i < events.len()
        invariant
            ev == events_view(events@),
            i <= events@.len(),
            st.wf(),
            slide_blocks_spec(ev) == slide_blocks_from(ev, i as int, st@),
        decreases events@.len() - i,
    {
        let e = &events[i];
        assert(ev[i as int] == e@);
        match e {
            XmlEvent::Error(m) => {
                return Err(parse_error("Failed to read XML event: ", m.as_slice()));
            },
            XmlEvent::Eof => {
                return Ok(st.blocks);
            },
            _ => {},
        }
        st = scan_step(st, e);
        i += 1;
    }
    Ok(st.blocks)
}


// ---------------------------------------------------------------------
// Slide images
// ---------------------------------------------------------------------

/// The views of character vectors.
pub open spec fn char_vecs(v: Seq<Vec<char>>) -> Seq<Seq<char>> {
    v.map_values(|c: Vec<char>| c@)
}

/// The `r:embed` values among the attributes, in order.
pub open spec fn embeds(attrs: Seq<AttrView>) -> Seq<Seq<char>>
    decreases attrs.len(),
{
    if attrs.len() == 0 {
        Seq::empty()
    } else {
        embeds(attrs.drop_last()) + match attrs.last() {
            Some((k, Some(v))) => if k == "r:embed"@ {
                seq![v]
            } else {
                Seq::empty()
            },
            _ => Seq::empty(),
        }
    }
}

/// The image references of a slide from event `i` on: the `r:embed`
/// values of each `a:blip` element, up to the end of input or an error.
pub open spec fn image_refs_from(ev: Seq<XmlEventView>, i: int) -> Seq<Seq<char>>
    decreases ev.len() - i,
{
    if i < 0 || i >= ev.len() {
        Seq::empty()
    } else {
        match ev[i] {
            XmlEventView::Start { name, attrs } => if name == "a:blip"@ {
                embeds(attrs) + image_refs_from(ev, i + 1)
            } else {
                image_refs_from(ev, i + 1)
            },
            XmlEventView::Empty { name, attrs } => if name == "a:blip"@ {
                embeds(attrs) + image_refs_from(ev, i + 1)
            } else {
                image_refs_from(ev, i + 1)
            },
            XmlEventView::Eof => Seq::empty(),
            XmlEventView::Error(_) => Seq::empty(),
            _ => image_refs_from(ev, i + 1),
        }
    }
}

/// The value of the last attribute with the key, where it could be read.
pub open spec fn attr_value(attrs: Seq<AttrView>, key: Seq<char>) -> Option<Seq<char>>
    decreases attrs.len(),
{
    if attrs.len() == 0 {
        None
    } else {
        match attrs.last() {
            Some((k, v)) => if k == key {
                v
            } else {
                attr_value(attrs.drop_last(), key)
            },
            None => attr_value(attrs.drop_last(), key),
        }
    }
}

/// What follows the last `/` of a path, or the whole path.
pub open spec fn after_last_slash(t: Seq<char>) -> Seq<char>
    decreases t.len(),
{
    if t.len() == 0 {
        t
    } else if t.last() == '/' {
        Seq::empty()
    } else {
        after_last_slash(t.drop_last()).push(t.last())
    }
}

/// The relationship that a `Relationship` element's attributes declare:
/// its `Id` and the file name of its `Target`, where the target lies in a
/// `/media/` folder.
pub open spec fn media_rel(attrs: Seq<AttrView>) -> Seq<(Seq<char>, Seq<char>)> {
    match (attr_value(attrs, "Id"@), attr_value(attrs, "Target"@)) {
        (Some(id), Some(t)) => if has_substring(t, "/media/"@) {
            seq![(id, after_last_slash(t))]
        } else {
            Seq::empty()
        },
        _ => Seq::empty(),
    }
}

/// The media relationships of a slide's relationship events from event `i`
/// on, up to the end of input or an error.
pub open spec fn rels_from(ev: Seq<XmlEventView>, i: int) -> Seq<(Seq<char>, Seq<char>)>
    decreases ev.len() - i,
{
    if i < 0 || i >= ev.len() {
        Seq::empty()
    } else {
        match ev[i] {
            XmlEventView::Start { name, attrs } => if name == "Relationship"@ {
                media_rel(attrs) + rels_from(ev, i + 1)
            } else {
                rels_from(ev, i + 1)
            },
            XmlEventView::Empty { name, attrs } => if name == "Relationship"@ {
                media_rel(attrs) + rels_from(ev, i + 1)
            } else {
                rels_from(ev, i + 1)
            },
            XmlEventView::Eof => Seq::empty(),
            XmlEventView::Error(_) => Seq::empty(),
            _ => rels_from(ev, i + 1),
        }
    }
}

/// The value of the last entry with the key: a map filled in order.
pub open spec fn lookup_last<V>(m: Seq<(Seq<char>, V)>, k: Seq<char>) -> Option<V>
    decreases m.len(),
{
    if m.len() == 0 {
        None
    } else if m.last().0 == k {
        Some(m.last().1)
    } else {
        lookup_last(m.drop_last(), k)
    }
}

/// The marker that opens a slide's page.
pub open spec fn slide_marker(n: u32) -> Seq<char> {
    "<!-- Slide "@ + decimal(n as nat) + " -->\n"@
}

/// Image `k` (from 0) of slide `n`: its file name is the alt text, and its
/// type is found from its bytes.
pub open spec fn slide_image(n: u32, k: nat, f: Seq<char>, d: Seq<u8>) -> ImageView {
    ImageView {
        id: "slide"@ + decimal(n as nat) + "_image"@ + decimal(k + 1),
        data: d,
        mime_type: pptx_mime(d),
        alt_text: Some(f),
        description: None,
        width: None,
        height: None,
        page_number: Some(n),
        source_path: None,
    }
}

/// The image block of reference `k`, where its relationship names a media
/// file that the presentation holds.
pub open spec fn image_for(
    refs: Seq<Seq<char>>,
    rels: Seq<(Seq<char>, Seq<char>)>,
    media: Seq<(Seq<char>, Seq<u8>)>,
    n: u32,
    k: nat,
) -> Seq<BlockView> {
    match lookup_last(rels, refs[k as int]) {
        Some(f) => match lookup_last(media, f) {
            Some(d) => seq![BlockView::Image(slide_image(n, k, f, d))],
            None => Seq::empty(),
        },
        None => Seq::empty(),
    }
}

/// The image blocks of the first `k` references.
pub open spec fn slide_images(
    refs: Seq<Seq<char>>,
    rels: Seq<(Seq<char>, Seq<char>)>,
    media: Seq<(Seq<char>, Seq<u8>)>,
    n: u32,
    k: nat,
) -> Seq<BlockView>
    decreases k,
{
    if k == 0 {
        Seq::empty()
    } else {
        slide_images(refs, rels, media, n, (k - 1) as nat) + image_for(refs, rels, media, n, (k - 1) as nat)
    }
}

/// The views of media files.
pub open spec fn media_view(v: Seq<(String, Vec<u8>)>) -> Seq<(Seq<char>, Seq<u8>)> {
    v.map_values(|m: (String, Vec<u8>)| (m.0@, m.1@))
}

/// Slide `n`'s page, from its events, its relationship events and the
/// presentation's media files: the slide marker, the text and table blocks,
/// then an image block for each image reference that its relationships lead
/// to a media file; or the message of the parse error.
pub open spec fn slide_page_spec(
    ev: Seq<XmlEventView>,
    rels: Seq<XmlEventView>,
    n: u32,
    media: Seq<(Seq<char>, Seq<u8>)>,
) -> Result<DocPageView, Seq<char>> {
    match slide_blocks_spec(ev) {
        Err(m) => Err(m),
        Ok(b) => {
            let refs = image_refs_from(ev, 0);
            Ok(
                DocPageView {
                    page_number: n,
                    content: seq![BlockView::Markdown(slide_marker(n))] + b + slide_images(
                        refs,
                        rels_from(rels, 0),
                        media,
                        n,
                        refs.len(),
                    ),
                    rendered_image: None,
                },
            )
        },
    }
}

fn copy_chars(v: &Vec<char>) -> (r: Vec<char>)
    ensures
        r@ == v@,
{
    let mut r: Vec<char> = Vec::new();
    extend_chars(&mut r, v.as_slice());
    r
}

fn embeds_of(attrs: &Vec<Option<XmlAttr>>, out: &mut Vec<Vec<char>>)
    ensures
        char_vecs(final(out)@) == char_vecs(old(out)@) + embeds(crate::xml::attrs_view(attrs@)),
{
    let ghost av = crate::xml::attrs_view(attrs@);
    let ghost base = char_vecs(out@);
    let mut j: usize = 0;
    while j < attrs.len()
        invariant
            av == crate::xml::attrs_view(attrs@),
            j <= attrs@.len(),
            char_vecs(out@) == base + embeds(av.take(j as int)),
        decreases attrs@.len() - j,
    {
        let ghost before = char_vecs(out@);
        assert(av.take(j + 1).drop_last() =~= av.take(j as int));
        assert(av.take(j + 1).last() == av[j as int]);
        match &attrs[j] {
            Some(a) => match &a.value {
                Some(v) => {
                    if chars_eq_str(a.key.as_slice(), "r:embed") {
                        out.push(copy_chars(v));
                        assert(char_vecs(out@) =~= before + seq![v@]);
                    } else {
                        assert(char_vecs(out@) =~= before + Seq::<Seq<char>>::empty());
                    }
                },
                None => {
                    assert(char_vecs(out@) =~= before + Seq::<Seq<char>>::empty());
                },
            },
            None => {
                assert(char_vecs(out@) =~= before + Seq::<Seq<char>>::empty());
            },
        }
        j += 1;
    }
    assert(av.take(j as int) =~= av);
}

/// The image references of a slide's events (see [`image_refs_from`]).
pub fn image_refs(events: &Vec<XmlEvent>) -> (r: Vec<Vec<char>>)
    ensures
        char_vecs(r@) == image_refs_from(events_view(events@), 0),
{
    let ghost ev = events_view(events@);
    let mut out: Vec<Vec<char>> = Vec::new();
    let mut i: usize = 0;
    while i < events.len()
        invariant
            ev == events_view(events@),
            i <= events@.len(),
            char_vecs(out@) + image_refs_from(ev, i as int) == image_refs_from(ev, 0),
        decreases events@.len() - i,
    {
        let ghost before = char_vecs(out@);
        assert(ev[i as int] == events[i as int]@);
        match &events[i] {
            XmlEvent::Start { name, attrs } => {
                if chars_eq_str(name.as_slice(), "a:blip") {
                    embeds_of(attrs, &mut out);
                    assert(before + image_refs_from(ev, i as int) =~= char_vecs(out@) + image_refs_from(
                        ev,
                        i + 1,
                    ));
                }
            },
            XmlEvent::Empty { name, attrs } => {
                if chars_eq_str(name.as_slice(), "a:blip") {
                    embeds_of(attrs, &mut out);
                    assert(before + image_refs_from(ev, i as int) =~= char_vecs(out@) + image_refs_from(
                        ev,
                        i + 1,
                    ));
                }
            },
            XmlEvent::Eof => {
                assert(char_vecs(out@) =~= char_vecs(out@) + image_refs_from(ev, i as int));
                return out;
            },
            XmlEvent::Error(_) => {
                assert(char_vecs(out@) =~= char_vecs(out@) + image_refs_from(ev, i as int));
                return out;
            },
            _ => {},
        }
        i += 1;
    }
    assert(char_vecs(out@) =~= char_vecs(out@) + image_refs_from(ev, i as int));
    out
}

fn attr_value_of(attrs: &Vec<Option<XmlAttr>>, key: &str) -> (r: Option<Vec<char>>)
    ensures
        match attr_value(crate::xml::attrs_view(attrs@), key@) {
            Some(v) => r matches Some(x) && x@ == v,
            None => r is None,
        },
{
    let ghost av = crate::xml::attrs_view(attrs@);
    let mut j: usize = attrs.len();
    assert(av.take(j as int) =~= av);
    while j > 0
        invariant
            av == crate::xml::attrs_view(attrs@),
            j <= attrs@.len(),
            attr_value(av, key@) == attr_value(av.take(j as int), key@),
        decreases j,
    {
        assert(av.take(j as int).drop_last() =~= av.take(j - 1));
        assert(av.take(j as int).last() == av[j - 1]);
        match &attrs[j - 1] {
            Some(a) => {
                if chars_eq_str(a.key.as_slice(), key) {
                    return match &a.value {
                        Some(v) => Some(copy_chars(v)),
                        None => None,
                    };
                }
            },
            None => {},
        }
        j -= 1;
    }
    None
}

fn after_last_slash_of(t: &Vec<char>) -> (r: Vec<char>)
    ensures
        r@ == after_last_slash(t@),
{
    let n = t.len();
    let mut j: usize = n;
    assert(t@.take(n as int) =~= t@);
    assert(after_last_slash(t@) =~= after_last_slash(t@.take(n as int)) + t@.subrange(n as int, n as int));
    while j > 0 && t[j - 1] != '/'
        invariant
            n == t@.len(),
            j <= n,
            after_last_slash(t@) == after_last_slash(t@.take(j as int)) + t@.subrange(j as int, n as int),
        decreases j,
    {
        assert(t@.take(j as int).drop_last() =~= t@.take(j - 1));
        assert(t@.subrange(j - 1, n as int) =~= seq![t@[j - 1]] + t@.subrange(j as int, n as int));
        assert(after_last_slash(t@.take(j - 1)).push(t@[j - 1]) + t@.subrange(j as int, n as int)
            =~= after_last_slash(t@.take(j - 1)) + t@.subrange(j - 1, n as int));
        j -= 1;
    }
    proof {
        if j == 0 {
            assert(t@.take(0) =~= Seq::<char>::empty());
        }
    }
    sub_vec(t.as_slice(), j, n)
}

/// The media relationships of a slide's relationship events (see
/// [`rels_from`]).
pub fn media_rels(events: &Vec<XmlEvent>) -> (r: Vec<(Vec<char>, Vec<char>)>)
    ensures
        r@.map_values(|p: (Vec<char>, Vec<char>)| (p.0@, p.1@)) == rels_from(events_view(events@), 0),
{
    let ghost ev = events_view(events@);
    let mut out: Vec<(Vec<char>, Vec<char>)> = Vec::new();
    let mut i: usize = 0;
    while i < events.len()
        invariant
            ev == events_view(events@),
            i <= events@.len(),
            out@.map_values(|p: (Vec<char>, Vec<char>)| (p.0@, p.1@)) + rels_from(ev, i as int) == rels_from(ev, 0),
        decreases events@.len() - i,
    {
        let ghost before = out@.map_values(|p: (Vec<char>, Vec<char>)| (p.0@, p.1@));
        assert(ev[i as int] == events[i as int]@);
        let attrs = match &events[i] {
            XmlEvent::Start { name, attrs } => if chars_eq_str(name.as_slice(), "Relationship") {
                Some(attrs)
            } else {
                None
            },
            XmlEvent::Empty { name, attrs } => if chars_eq_str(name.as_slice(), "Relationship") {
                Some(attrs)
            } else {
                None
            },
            XmlEvent::Eof => {
                assert(before =~= before + rels_from(ev, i as int));
                return out;
            },
            XmlEvent::Error(_) => {
                assert(before =~= before + rels_from(ev, i as int));
                return out;
            },
            _ => None,
        };
        match attrs {
            Some(a) => {
                let ghost av = crate::xml::attrs_view(a@);
                let id = attr_value_of(a, "Id");
                let target = attr_value_of(a, "Target");
                match (id, target) {
                    (Some(id), Some(t)) => {
                        let media = chars_of("/media/");
                        if find_substring(t.as_slice(), media.as_slice()) {
                            let f = after_last_slash_of(&t);
                            out.push((id, f));
                            assert(out@.map_values(|p: (Vec<char>, Vec<char>)| (p.0@, p.1@)) =~= before + media_rel(av));
                        } else {
                            assert(media_rel(av) =~= Seq::<(Seq<char>, Seq<char>)>::empty());
                        }
                    },
                    _ => {
                        assert(media_rel(av) =~= Seq::<(Seq<char>, Seq<char>)>::empty());
                    },
                }
                assert(before + rels_from(ev, i as int) =~= (before + media_rel(av)) + rels_from(ev, i + 1));
            },
            None => {},
        }
        i += 1;
    }
    assert(out@.map_values(|p: (Vec<char>, Vec<char>)| (p.0@, p.1@)) =~= out@.map_values(
        |p: (Vec<char>, Vec<char>)| (p.0@, p.1@),
    ) + rels_from(ev, i as int));
    out
}


fn lookup_rel(rels: &Vec<(Vec<char>, Vec<char>)>, k: &Vec<char>) -> (r: Option<Vec<char>>)
    ensures
        match lookup_last(rels@.map_values(|p: (Vec<char>, Vec<char>)| (p.0@, p.1@)), k@) {
            Some(v) => r matches Some(x) && x@ == v,
            None => r is None,
        },
{
    let ghost rv = rels@.map_values(|p: (Vec<char>, Vec<char>)| (p.0@, p.1@));
    let mut j: usize = rels.len();
    assert(rv.take(j as int) =~= rv);
    while j > 0
        invariant
            rv == rels@.map_values(|p: (Vec<char>, Vec<char>)| (p.0@, p.1@)),
            j <= rels@.len(),
            lookup_last(rv, k@) == lookup_last(rv.take(j as int), k@),
        decreases j,
    {
        assert(rv.take(j as int).drop_last() =~= rv.take(j - 1));
        assert(rv.take(j as int).last() == rv[j - 1]);
        if chars_eq(rels[j - 1].0.as_slice(), k.as_slice()) {
            return Some(copy_chars(&rels[j - 1].1));
        }
        j -= 1;
    }
    None
}

fn lookup_media(images: &Vec<(String, Vec<u8>)>, f: &Vec<char>) -> (r: Option<usize>)
    ensures
        match lookup_last(media_view(images@), f@) {
            Some(d) => r matches Some(i) && i < images@.len() && images@[i as int].1@ == d,
            None => r is None,
        },
{
    let ghost mv = media_view(images@);
    let mut j: usize = images.len();
    assert(mv.take(j as int) =~= mv);
    while j > 0
        invariant
            mv == media_view(images@),
            j <= images@.len(),
            lookup_last(mv, f@) == lookup_last(mv.take(j as int), f@),
        decreases j,
    {
        assert(mv.take(j as int).drop_last() =~= mv.take(j - 1));
        assert(mv.take(j as int).last() == mv[j - 1]);
        let name = chars_of(images[j - 1].0.as_str());
        if chars_eq(name.as_slice(), f.as_slice()) {
            return Some(j - 1);
        }
        j -= 1;
    }
    None
}

/// Slide `n`'s page (see [`slide_page_spec`]) from its events, its
/// relationship events and the presentation's media files, each a file
/// name and its bytes.
pub fn slide_page(events: &Vec<XmlEvent>, rels: &Vec<XmlEvent>, n: u32, images: &Vec<(String, Vec<u8>)>) -> (r: Result<
    Page,
    MarkitdownError,
>)
    ensures
        match slide_page_spec(events_view(events@), events_view(rels@), n, media_view(images@)) {
            Ok(p) => r matches Ok(pg) && pg@ == p,
            Err(m) => r matches Err(e) && is_parse_error(e, m),
        },
{
    let mut blocks = match slide_blocks(events) {
        Ok(b) => b,
        Err(e) => return Err(e),
    };
    let ghost bv = blocks_view(blocks@);
    let refs = image_refs(events);
    let rl = media_rels(rels);
    let ghost rv = char_vecs(refs@);
    let ghost relv = rl@.map_values(|p: (Vec<char>, Vec<char>)| (p.0@, p.1@));
    let ghost mv = media_view(images@);
    let mut marker: Vec<char> = Vec::new();
    extend_str(&mut marker, "<!-- Slide ");
    push_decimal(&mut marker, n as usize);
    extend_str(&mut marker, " -->\n");
    let mut content: Vec<ContentBlock> = Vec::new();
    content.push(ContentBlock::Markdown(to_string(marker.as_slice())));
    assert(marker@ =~= slide_marker(n));
    content.append(&mut blocks);
    let ghost head = blocks_view(content@);
    assert(head =~= seq![BlockView::Markdown(slide_marker(n))] + bv);
    let mut k: usize = 0;
    while k < refs.len()
        invariant
            k <= refs@.len(),
            rv == char_vecs(refs@),
            relv == rl@.map_values(|p: (Vec<char>, Vec<char>)| (p.0@, p.1@)),
            mv == media_view(images@),
            blocks_view(content@) == head + slide_images(rv, relv, mv, n, k as nat),
        decreases refs@.len() - k,
    {
        let ghost before = blocks_view(content@);
        assert(rv[k as int] == refs@[k as int]@);
        match lookup_rel(&rl, &refs[k]) {
            Some(f) => match lookup_media(images, &f) {
                Some(j) => {
                    let data = sub_vec(images[j].1.as_slice(), 0, images[j].1.len());
                    assert(data@ =~= images@[j as int].1@);
                    let mime = PptxConverter::detect_mime_type(data.as_slice());
                    let mut id: Vec<char> = Vec::new();
                    extend_str(&mut id, "slide");
                    push_decimal(&mut id, n as usize);
                    extend_str(&mut id, "_image");
                    push_decimal(&mut id, k + 1);
                    let alt = to_string(f.as_slice());
                    let mut image = ExtractedImage::new(to_string(id.as_slice()), data, mime);
                    image.alt_text = Some(alt);
                    image.page_number = Some(n);
                    let ghost iv = image@;
                    assert(iv == slide_image(n, k as nat, f@, images@[j as int].1@));
                    content.push(ContentBlock::Image(image));
                    assert(blocks_view(content@) =~= before + seq![BlockView::Image(iv)]);
                },
                None => {
                    assert(blocks_view(content@) =~= before + Seq::<BlockView>::empty());
                },
            },
            None => {
                assert(blocks_view(content@) =~= before + Seq::<BlockView>::empty());
            },
        }
        assert(head + slide_images(rv, relv, mv, n, (k + 1) as nat) =~= before + image_for(
            rv,
            relv,
            mv,
            n,
            k as nat,
        ));
        k += 1;
    }
    let page = Page { page_number: n, content, rendered_image: None };
    assert(page@.content =~= seq![BlockView::Markdown(slide_marker(n))] + bv + slide_images(
        rv,
        relv,
        mv,
        n,
        rv.len(),
    ));
    Ok(page)
}


// ---------------------------------------------------------------------
// The presentation
// ---------------------------------------------------------------------

/// The media files of the archive from entry `i` of `n`: each entry under
/// `ppt/media/` whose name and contents could be read, by its file name.
pub open spec fn media_from(data: Seq<u8>, i: nat, n: nat) -> Seq<(Seq<char>, Seq<u8>)>
    decreases n - i,
{
    if i >= n {
        Seq::empty()
    } else {
        (match zip_entry(data, i) {
            Ok((_, Ok(name), Ok(b))) => if has_prefix(name, "ppt/media/"@) {
                seq![(after_last_slash(name), b)]
            } else {
                Seq::empty()
            },
            _ => Seq::empty(),
        }) + media_from(data, i + 1, n)
    }
}

/// A slide file: `ppt/slides/slide*.xml`.
pub open spec fn is_slide_name(name: Seq<char>) -> bool {
    has_prefix(name, "ppt/slides/slide"@) && has_suffix(name, ".xml"@)
}

/// The slide files of the archive from entry `i` of `n`, in archive
/// order, or the message of the first entry that cannot be opened or
/// named.
pub open spec fn slide_names_from(data: Seq<u8>, i: nat, n: nat) -> Result<Seq<Seq<char>>, Seq<char>>
    decreases n - i,
{
    if i >= n {
        Ok(Seq::empty())
    } else {
        match zip_entry(data, i) {
            Err(m) => Err("Failed to access ZIP: "@ + m),
            Ok((_, Err(m), _)) => Err("Failed to access ZIP: "@ + m),
            Ok((_, Ok(name), _)) => match slide_names_from(data, i + 1, n) {
                Err(m) => Err(m),
                Ok(rest) => Ok(
                    if is_slide_name(name) {
                        seq![name] + rest
                    } else {
                        rest
                    },
                ),
            },
        }
    }
}

/// `a` comes before `b` in the order of their characters (the order of
/// `String`s).
pub open spec fn lex_lt(a: Seq<char>, b: Seq<char>) -> bool
    decreases a.len(),
{
    if a.len() == 0 {
        b.len() > 0
    } else if b.len() == 0 {
        false
    } else if a[0] != b[0] {
        (a[0] as u32) < (b[0] as u32)
    } else {
        lex_lt(a.skip(1), b.skip(1))
    }
}

/// The place of `x` in `s` from position `k`: before the first name
/// after it.
pub open spec fn insert_pos(s: Seq<Seq<char>>, x: Seq<char>, k: nat) -> nat
    decreases s.len() - k,
{
    if k >= s.len() {
        s.len()
    } else if lex_lt(x, s[k as int]) {
        k
    } else {
        insert_pos(s, x, k + 1)
    }
}

/// `x` put into `s` before the first name after it.
pub open spec fn insert_name(s: Seq<Seq<char>>, x: Seq<char>) -> Seq<Seq<char>> {
    let p = insert_pos(s, x, 0) as int;
    s.take(p) + seq![x] + s.skip(p)
}

/// The names in order.
pub open spec fn sort_names(s: Seq<Seq<char>>) -> Seq<Seq<char>>
    decreases s.len(),
{
    if s.len() == 0 {
        Seq::empty()
    } else {
        insert_name(sort_names(s.drop_last()), s.last())
    }
}

/// Why a presentation cannot be read: a ZIP error or a parse error, with
/// its message.
pub enum PptxFailure {
    Zip(Seq<char>),
    Parse(Seq<char>),
}

/// The error is the failure.
pub open spec fn failure_is(e: MarkitdownError, f: PptxFailure) -> bool {
    match f {
        PptxFailure::Zip(m) => e matches MarkitdownError::Zip(x) && x@ == m,
        PptxFailure::Parse(m) => is_parse_error(e, m),
    }
}

/// The relationship file of slide `n`.
pub open spec fn rels_path(n: u32) -> Seq<char> {
    "ppt/slides/_rels/slide"@ + decimal(n as nat) + ".xml.rels"@
}

/// The events of slide `n`'s relationship file, none where it cannot be
/// read.
pub open spec fn rels_events(data: Seq<u8>, n: u32) -> Seq<XmlEventView> {
    match zip_text_entry(data, rels_path(n)) {
        Ok(Ok(t)) => xml_events(t),
        _ => Seq::empty(),
    }
}

/// The page of the slide file `name`, numbered `n`.
pub open spec fn slide_of(data: Seq<u8>, name: Seq<char>, n: u32, media: Seq<(Seq<char>, Seq<u8>)>) -> Result<
    DocPageView,
    PptxFailure,
> {
    match zip_text_entry(data, name) {
        Err(m) => Err(PptxFailure::Zip("Failed to access slide: "@ + m)),
        Ok(Err(m)) => Err(PptxFailure::Parse("Failed to read slide: "@ + m)),
        Ok(Ok(t)) => match slide_page_spec(xml_events(t), rels_events(data, n), n, media) {
            Err(m) => Err(PptxFailure::Parse(m)),
            Ok(p) => Ok(p),
        },
    }
}

/// The pages of the slides from the `k`-th of `names` on, numbered from
/// `k + 1`.
pub open spec fn pages_from(data: Seq<u8>, names: Seq<Seq<char>>, media: Seq<(Seq<char>, Seq<u8>)>, k: nat) -> Result<
    Seq<DocPageView>,
    PptxFailure,
>
    decreases names.len() - k,
{
    if k >= names.len() {
        Ok(Seq::empty())
    } else {
        match slide_of(data, names[k as int], (k + 1) as u32, media) {
            Err(f) => Err(f),
            Ok(p) => match pages_from(data, names, media, k + 1) {
                Err(f) => Err(f),
                Ok(ps) => Ok(seq![p] + ps),
            },
        }
    }
}

/// The document of a presentation: one page per slide file, in the order
/// of the files' names, each numbered by its place; the media files are
/// taken only when images are extracted.
pub open spec fn pptx_result(data: Seq<u8>, extract_images: bool) -> Result<DocumentView, PptxFailure> {
    match zip_open(data) {
        Err(m) => Err(PptxFailure::Zip(m)),
        Ok(n) => match slide_names_from(data, 0, n) {
            Err(m) => Err(PptxFailure::Zip(m)),
            Ok(names) => match pages_from(
                data,
                sort_names(names),
                if extract_images {
                    media_from(data, 0, n)
                } else {
                    Seq::empty()
                },
                0,
            ) {
                Err(f) => Err(f),
                Ok(ps) => Ok(DocumentView { title: None, pages: ps, metadata: Seq::empty() }),
            },
        },
    }
}

// ---------------------------------------------------------------------
// The order of slide names
// ---------------------------------------------------------------------

/// No name of `s` comes before an earlier one.
pub open spec fn names_sorted(s: Seq<Seq<char>>) -> bool {
    forall|i: int, j: int| 0 <= i < j < s.len() ==> !lex_lt(#[trigger] s[j], #[trigger] s[i])
}

proof fn lemma_lex_asym(a: Seq<char>, b: Seq<char>)
    ensures
        lex_lt(a, b) ==> !lex_lt(b, a),
    decreases a.len(),
{
    if a.len() > 0 && b.len() > 0 && a[0] == b[0] {
        lemma_lex_asym(a.skip(1), b.skip(1));
    }
}

proof fn lemma_lex_trans(a: Seq<char>, b: Seq<char>, c: Seq<char>)
    requires
        lex_lt(a, b),
        lex_lt(b, c),
    ensures
        lex_lt(a, c),
    decreases a.len(),
{
    if a.len() > 0 && b.len() > 0 && c.len() > 0 && a[0] == b[0] && b[0] == c[0] {
        lemma_lex_trans(a.skip(1), b.skip(1), c.skip(1));
    }
}

proof fn lemma_insert_pos(s: Seq<Seq<char>>, x: Seq<char>, k: nat)
    requires
        k <= s.len(),
    ensures
        k <= insert_pos(s, x, k) <= s.len(),
        forall|q: int| k <= q < insert_pos(s, x, k) ==> !lex_lt(x, #[trigger] s[q]),
        insert_pos(s, x, k) < s.len() ==> lex_lt(x, s[insert_pos(s, x, k) as int]),
    decreases s.len() - k,
{
    if k < s.len() && !lex_lt(x, s[k as int]) {
        lemma_insert_pos(s, x, k + 1);
    }
}

proof fn lemma_insert_sorted(s: Seq<Seq<char>>, x: Seq<char>)
    requires
        names_sorted(s),
    ensures
        names_sorted(insert_name(s, x)),
        insert_name(s, x).len() == s.len() + 1,
{
    let p = insert_pos(s, x, 0) as int;
    lemma_insert_pos(s, x, 0);
    let r = insert_name(s, x);
    assert(r.len() == s.len() + 1);
    assert forall|i: int, j: int| 0 <= i < j < r.len() implies !lex_lt(#[trigger] r[j], #[trigger] r[i]) by {
        if j < p {
            assert(r[i] == s[i] && r[j] == s[j]);
        } else if j == p {
            assert(r[j] == x && r[i] == s[i]);
        } else if i == p {
            assert(r[i] == x && r[j] == s[j - 1]);
            assert(lex_lt(x, s[p]));
            if lex_lt(s[j - 1], x) {
                if j - 1 > p {
                    assert(!lex_lt(s[j - 1], s[p]));
                    lemma_lex_trans(s[j - 1], x, s[p]);
                } else {
                    lemma_lex_asym(x, s[p]);
                }
            }
        } else if i < p {
            assert(r[i] == s[i] && r[j] == s[j - 1]);
        } else {
            assert(r[i] == s[i - 1] && r[j] == s[j - 1]);
        }
    }
}

/// The slide files are read in the order of their names: no name comes
/// before the one read ahead of it, and each file is read once.
pub proof fn slide_names_in_order(s: Seq<Seq<char>>)
    ensures
        names_sorted(sort_names(s)),
        sort_names(s).len() == s.len(),
        sort_names(s).to_multiset() == s.to_multiset(),
    decreases s.len(),
{
    if s.len() > 0 {
        slide_names_in_order(s.drop_last());
        let t = sort_names(s.drop_last());
        lemma_insert_sorted(t, s.last());
        let p = insert_pos(t, s.last(), 0) as int;
        lemma_insert_pos(t, s.last(), 0);
        vstd::seq_lib::lemma_multiset_commutative(t.take(p), seq![s.last()] + t.skip(p));
        vstd::seq_lib::lemma_multiset_commutative(seq![s.last()], t.skip(p));
        vstd::seq_lib::lemma_multiset_commutative(t.take(p), t.skip(p));
        assert(t.take(p) + t.skip(p) =~= t);
        vstd::seq_lib::lemma_multiset_commutative(s.drop_last(), seq![s.last()]);
        assert(s.drop_last() + seq![s.last()] =~= s);
        assert(t.take(p) + seq![s.last()] + t.skip(p) =~= t.take(p) + (seq![s.last()] + t.skip(p)));
    } else {
        assert(s =~= Seq::<Seq<char>>::empty());
    }
}

fn name_lt(a: &Vec<char>, b: &Vec<char>) -> (r: bool)
    ensures
        r == lex_lt(a@, b@),
{
    let mut i: usize = 0;
    assert(a@.skip(0) =~= a@);
    assert(b@.skip(0) =~= b@);
    while i < a.len() && i < b.len() && a[i] == b[i]
        invariant
            i <= a@.len(),
            i <= b@.len(),
            lex_lt(a@, b@) == lex_lt(a@.skip(i as int), b@.skip(i as int)),
        decreases a@.len() - i,
    {
        assert(a@.skip(i as int).skip(1) =~= a@.skip(i + 1));
        assert(b@.skip(i as int).skip(1) =~= b@.skip(i + 1));
        assert(a@.skip(i as int)[0] == a@[i as int]);
        assert(b@.skip(i as int)[0] == b@[i as int]);
        i += 1;
    }
    if i == a.len() {
        i < b.len()
    } else if i == b.len() {
        false
    } else {
        assert(a@.skip(i as int)[0] == a@[i as int]);
        assert(b@.skip(i as int)[0] == b@[i as int]);
        (a[i] as u32) < (b[i] as u32)
    }
}

fn insert_sorted(v: &mut Vec<Vec<char>>, x: Vec<char>)
    ensures
        char_vecs(final(v)@) == insert_name(char_vecs(old(v)@), x@),
{
    let ghost s = char_vecs(v@);
    let mut k: usize = 0;
    while k < v.len() && !name_lt(&x, &v[k])
        invariant
            s == char_vecs(v@),
            k <= v@.len(),
            insert_pos(s, x@, 0) == insert_pos(s, x@, k as nat),
        decreases v@.len() - k,
    {
        k += 1;
    }
    let ghost xv = x@;
    v.insert(k, x);
    assert(char_vecs(v@) =~= s.take(k as int) + seq![xv] + s.skip(k as int));
}

/// The slide file names in order (see [`sort_names`]).
fn sorted_names(names: Vec<Vec<char>>) -> (r: Vec<Vec<char>>)
    ensures
        char_vecs(r@) == sort_names(char_vecs(names@)),
{
    let ghost nv = char_vecs(names@);
    let mut out: Vec<Vec<char>> = Vec::new();
    let mut rest = names;
    let mut taken: Vec<Vec<char>> = Vec::new();
    let mut i: usize = 0;
    assert(char_vecs(out@) =~= sort_names(nv.take(0)));
    while i < rest.len()
        invariant
            nv == char_vecs(rest@),
            i <= rest@.len(),
            char_vecs(out@) == sort_names(nv.take(i as int)),
        decreases rest@.len() - i,
    {
        let x = copy_chars(&rest[i]);
        assert(nv.take(i + 1).drop_last() =~= nv.take(i as int));
        assert(nv.take(i + 1).last() == x@);
        insert_sorted(&mut out, x);
        i += 1;
    }
    assert(nv.take(i as int) =~= nv);
    out
}

impl PptxConverter {
    /// The document of a PPTX presentation (see [`pptx_result`]); the
    /// media files are read only when images are extracted.
    pub fn convert_pptx(bytes: &[u8], extract_images: bool) -> (r: Result<Document, MarkitdownError>)
        ensures
            match pptx_result(bytes@, extract_images) {
                Ok(d) => r matches Ok(doc) && doc@ == d,
                Err(f) => r matches Err(e) && failure_is(e, f),
            },
    {
        let n = match zip_count(bytes) {
            Ok(n) => n,
            Err(m) => return Err(MarkitdownError::Zip(to_string(m.as_slice()))),
        };
        let ghost data = bytes@;
        let mut media: Vec<(String, Vec<u8>)> = Vec::new();
        if extract_images {
            let mut i: usize = 0;
            while i < n
                invariant
                    data == bytes@,
                    i <= n,
                    media_view(media@) + media_from(data, i as nat, n as nat) == media_from(data, 0, n as nat),
                decreases n - i,
            {
                let ghost before = media_view(media@);
                match zip_read_entry(bytes, i) {
                    Ok((_, Ok(name), Ok(b))) => {
                        if starts_with_str(name.as_slice(), "ppt/media/") {
                            let f = after_last_slash_of(&name);
                            media.push((to_string(f.as_slice()), b));
                            assert(media_view(media@) =~= before + seq![(f@, b@)]);
                        }
                    },
                    _ => {},
                }
                assert(before + media_from(data, i as nat, n as nat) =~= media_view(media@) + media_from(
                    data,
                    (i + 1) as nat,
                    n as nat,
                ));
                i += 1;
            }
            assert(media_view(media@) =~= media_view(media@) + media_from(data, i as nat, n as nat));
        } else {
            assert(media_view(media@) =~= Seq::<(Seq<char>, Seq<u8>)>::empty());
        }
        let ghost mv = media_view(media@);
        let mut names: Vec<Vec<char>> = Vec::new();
        let mut i: usize = 0;
        while i < n
            invariant
                data == bytes@,
                i <= n,
                zip_open(data) == Ok::<nat, Seq<char>>(n as nat),
                mv == media_view(media@),
                mv == if extract_images {
                    media_from(data, 0, n as nat)
                } else {
                    Seq::empty()
                },
                slide_names_from(data, 0, n as nat) == match slide_names_from(data, i as nat, n as nat) {
                    Ok(r) => Ok(char_vecs(names@) + r),
                    Err(m) => Err(m),
                },
            decreases n - i,
        {
            let ghost before = char_vecs(names@);
            match zip_read_entry(bytes, i) {
                Err(m) => {
                    let mut msg: Vec<char> = Vec::new();
                    extend_str(&mut msg, "Failed to access ZIP: ");
                    extend_chars(&mut msg, m.as_slice());
                    assert(slide_names_from(data, i as nat, n as nat) == Err::<Seq<Seq<char>>, Seq<char>>(msg@));
                    assert(pptx_result(data, extract_images) == Err::<DocumentView, PptxFailure>(PptxFailure::Zip(msg@)));
                    return Err(MarkitdownError::Zip(to_string(msg.as_slice())));
                },
                Ok((_, Err(m), _)) => {
                    let mut msg: Vec<char> = Vec::new();
                    extend_str(&mut msg, "Failed to access ZIP: ");
                    extend_chars(&mut msg, m.as_slice());
                    assert(slide_names_from(data, i as nat, n as nat) == Err::<Seq<Seq<char>>, Seq<char>>(msg@));
                    assert(pptx_result(data, extract_images) == Err::<DocumentView, PptxFailure>(PptxFailure::Zip(msg@)));
                    return Err(MarkitdownError::Zip(to_string(msg.as_slice())));
                },
                Ok((_, Ok(name), _)) => {
                    if starts_with_str(name.as_slice(), "ppt/slides/slide") && ends_with_str(name.as_slice(), ".xml") {
                        let ghost nm = name@;
                        names.push(name);
                        assert(char_vecs(names@) =~= before + seq![nm]);
                        proof {
                            match slide_names_from(data, (i + 1) as nat, n as nat) {
                                Ok(r) => {
                                    assert(before + (seq![nm] + r) =~= char_vecs(names@) + r);
                                },
                                Err(_) => {},
                            }
                        }
                    }
                },
            }
            i += 1;
        }
        assert(char_vecs(names@) =~= char_vecs(names@) + Seq::<Seq<char>>::empty());
        let ghost nmv = char_vecs(names@);
        let sorted = sorted_names(names);
        let ghost sv = char_vecs(sorted@);
        assert(slide_names_from(data, 0, n as nat) == Ok::<Seq<Seq<char>>, Seq<char>>(nmv));
        assert(sv == sort_names(nmv));
        assert(pptx_result(data, extract_images) == match pages_from(data, sv, mv, 0) {
            Err(f) => Err(f),
            Ok(ps) => Ok(DocumentView { title: None, pages: ps, metadata: Seq::empty() }),
        });
        let mut doc = Document::new();
        let mut k: usize = 0;
        while k < sorted.len()
            invariant
                data == bytes@,
                sv == char_vecs(sorted@),
                mv == media_view(media@),
                k <= sorted@.len(),
                doc.title is None,
                doc@.metadata.len() == 0,
                pptx_result(data, extract_images) == match pages_from(data, sv, mv, 0) {
                    Err(f) => Err(f),
                    Ok(ps) => Ok(DocumentView { title: None, pages: ps, metadata: Seq::empty() }),
                },
                pages_from(data, sv, mv, 0) == match pages_from(data, sv, mv, k as nat) {
                    Ok(ps) => Ok(doc@.pages + ps),
                    Err(f) => Err(f),
                },
            decreases sorted@.len() - k,
        {
            let num = (k + 1) as u32;
            let name = to_string(sorted[k].as_slice());
            assert(name@ == sv[k as int]);
            let mut rp: Vec<char> = Vec::new();
            extend_str(&mut rp, "ppt/slides/_rels/slide");
            push_decimal(&mut rp, num as usize);
            extend_str(&mut rp, ".xml.rels");
            assert(rp@ =~= rels_path(num));
            let rels_name = to_string(rp.as_slice());
            let content = match read_zip_text(bytes, name.as_str()) {
                Err(m) => {
                    let mut msg: Vec<char> = Vec::new();
                    extend_str(&mut msg, "Failed to access slide: ");
                    let mc = chars_of(m.as_str());
                    extend_chars(&mut msg, mc.as_slice());
                    assert(pages_from(data, sv, mv, k as nat) == Err::<Seq<DocPageView>, PptxFailure>(
                        PptxFailure::Zip(msg@),
                    ));
                    return Err(MarkitdownError::Zip(to_string(msg.as_slice())));
                },
                Ok(Err(m)) => {
                    let mc = chars_of(m.as_str());
                    assert(pages_from(data, sv, mv, k as nat) == Err::<Seq<DocPageView>, PptxFailure>(
                        PptxFailure::Parse("Failed to read slide: "@ + mc@),
                    ));
                    return Err(parse_error("Failed to read slide: ", mc.as_slice()));
                },
                Ok(Ok(t)) => t,
            };
            let events = read_xml_events(content.as_str());
            let rels = match read_zip_text(bytes, rels_name.as_str()) {
                Ok(Ok(t)) => read_xml_events(t.as_str()),
                _ => Vec::new(),
            };
            assert(events_view(rels@) =~= rels_events(data, num));
            let page = match slide_page(&events, &rels, num, &media) {
                Ok(p) => p,
                Err(e) => return Err(e),
            };
            let ghost pv = page@;
            let ghost before = doc@.pages;
            doc.add_page(page);
            assert(doc@.pages =~= before.push(pv));
            proof {
                match pages_from(data, sv, mv, (k + 1) as nat) {
                    Ok(ps) => {
                        assert(before + (seq![pv] + ps) =~= doc@.pages + ps);
                    },
                    Err(_) => {},
                }
            }
            k += 1;
        }
        assert(doc@.pages =~= doc@.pages + Seq::<DocPageView>::empty());
        assert(doc@.metadata =~= Seq::<(Seq<char>, Seq<char>)>::empty());
        Ok(doc)
    }

    /// Converts PPTX bytes; images are extracted unless the options say
    /// otherwise.
    pub fn convert_bytes(&self, bytes: &[u8], options: Option<&ConversionOptions>) -> (r: Result<Document, MarkitdownError>)
        ensures
            match pptx_result(
                bytes@,
                match options {
                    Some(o) => o.extract_images,
                    None => true,
                },
            ) {
                Ok(d) => r matches Ok(doc) && doc@ == d,
                Err(f) => r matches Err(e) && failure_is(e, f),
            },
    {
        let extract = match options {
            Some(o) => o.extract_images,
            None => true,
        };
        Self::convert_pptx(bytes, extract)
    }
}

impl PptxConverter {
    /// Appends a Markdown table of the headers and rows.
    pub fn append_table_markdown(markdown: &mut String, headers: &[String], rows: &[Vec<String>])
        ensures
            final(markdown)@ == old(markdown)@ + pptx_table_md(
                str_views(headers@),
                rows@.map_values(|r: Vec<String>| str_views(r@)),
            ),
    {
        let ghost start = markdown@;
        let ghost hv = str_views(headers@);
        let ghost rv = rows@.map_values(|r: Vec<String>| str_views(r@));
        markdown.append("|");
        let ghost h0 = markdown@;
        let mut i: usize = 0;
        while i < headers.len()
            invariant
                i <= headers@.len(),
                hv == str_views(headers@),
                markdown@ == h0 + cells_md(hv.take(i as int)),
            decreases headers@.len() - i,
        {
            markdown.append(" ");
            markdown.append(headers[i].as_str());
            markdown.append(" |");
            proof {
                assert(hv.take(i + 1).drop_last() =~= hv.take(i as int));
            }
            i += 1;
        }
        assert(hv.take(i as int) =~= hv);
        markdown.append("\n|");
        let ghost s0 = markdown@;
        let mut k: usize = 0;
        while k < headers.len()
            invariant
                k <= headers@.len(),
                markdown@ == s0 + separators(k as nat),
            decreases headers@.len() - k,
        {
            markdown.append("---|");
            k += 1;
        }
        markdown.append("\n");
        let ghost r0 = markdown@;
        let mut j: usize = 0;
        while j < rows.len()
            invariant
                j <= rows@.len(),
                rv == rows@.map_values(|r: Vec<String>| str_views(r@)),
                markdown@ == r0 + rows_md(rv.take(j as int)),
            decreases rows@.len() - j,
        {
            let row = &rows[j];
            let ghost cv = str_views(row@);
            let ghost before = markdown@;
            markdown.append("|");
            let ghost c0 = markdown@;
            let mut c: usize = 0;
            while c < row.len()
                invariant
                    c <= row@.len(),
                    cv == str_views(row@),
                    markdown@ == c0 + cells_md(cv.take(c as int)),
                decreases row@.len() - c,
            {
                markdown.append(" ");
                markdown.append(row[c].as_str());
                markdown.append(" |");
                proof {
                    assert(cv.take(c + 1).drop_last() =~= cv.take(c as int));
                }
                c += 1;
            }
            assert(cv.take(c as int) =~= cv);
            markdown.append("\n");
            proof {
                assert(rv.take(j + 1).drop_last() =~= rv.take(j as int));
                assert(rv[j as int] == cv);
            }
            j += 1;
        }
        assert(rv.take(j as int) =~= rv);
        markdown.append("\n");
        assert(markdown@ =~= start + pptx_table_md(hv, rv));
    }

    /// The MIME type of image bytes by their signature.
    pub fn detect_mime_type(bytes: &[u8]) -> (r: String)
        ensures
            r@ == pptx_mime(bytes@),
    {
        if bytes.len() >= 8 {
            if starts_with_u8(bytes, &[0x89, 0x50, 0x4E, 0x47, 0x0D, 0x0A, 0x1A, 0x0A]) {
                return String::from_str("image/png");
            }
            if starts_with_u8(bytes, &[0xFF, 0xD8, 0xFF]) {
                return String::from_str("image/jpeg");
            }
            if starts_with_u8(bytes, &[0x47, 0x49, 0x46, 0x38, 0x37, 0x61]) || starts_with_u8(
                bytes,
                &[0x47, 0x49, 0x46, 0x38, 0x39, 0x61],
            ) {
                return String::from_str("image/gif");
            }
            if bytes.len() >= 12 && bytes[0] == 0x52 && bytes[1] == 0x49 && bytes[2] == 0x46 && bytes[3] == 0x46
                && bytes[8] == 0x57 && bytes[9] == 0x45 && bytes[10] == 0x42 && bytes[11] == 0x50 {
                assert(bytes@.take(4) =~= seq![0x52u8, 0x49, 0x46, 0x46]);
                assert(bytes@.subrange(8, 12) =~= seq![0x57u8, 0x45, 0x42, 0x50]);
                return String::from_str("image/webp");
            }
            proof {
                if bytes@.len() >= 12 && bytes@.take(4) == seq![0x52u8, 0x49, 0x46, 0x46] {
                    assert(bytes@[0] == bytes@.take(4)[0]);
                    assert(bytes@[1] == bytes@.take(4)[1]);
                    assert(bytes@[2] == bytes@.take(4)[2]);
                    assert(bytes@[3] == bytes@.take(4)[3]);
                    if bytes@.subrange(8, 12) == seq![0x57u8, 0x45, 0x42, 0x50] {
                        assert(bytes@[8] == bytes@.subrange(8, 12)[0]);
                        assert(bytes@[9] == bytes@.subrange(8, 12)[1]);
                        assert(bytes@[10] == bytes@.subrange(8, 12)[2]);
                        assert(bytes@[11] == bytes@.subrange(8, 12)[3]);
                    }
                }
            }
            if starts_with_u8(bytes, &[0x42, 0x4D]) {
                return String::from_str("image/bmp");
            }
            if starts_with_u8(bytes, &[0x01, 0x00, 0x00, 0x00]) {
                return String::from_str("image/emf");
            }
            if starts_with_u8(bytes, &[0xD7, 0xCD, 0xC6, 0x9A]) {
                return String::from_str("image/wmf");
            }
        }
        String::from_str("application/octet-stream")
    }
}

impl DocumentConverter for PptxConverter {
    open spec fn extensions(&self) -> Seq<Seq<char>> {
        seq!["pptx"@]
    }

    fn supported_extensions(&self) -> (r: Vec<&'static str>) {
        let r = vec!["pptx"];
        assert(ext_views(r@) =~= self.extensions());
        r
    }
}

} // verus!
