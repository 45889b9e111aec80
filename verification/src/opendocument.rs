//! OpenDocument text, spreadsheets and presentations: the text of
//! `content.xml` read as XML events, and spreadsheets read with `calamine`.
use vstd::prelude::*;
use crate::chars::to_string;
use crate::error::{is_parse_error, parse_error, MarkitdownError};
use crate::model::{
    ext_views, is_markdown_doc, markdown_document, strs, BlockView, ContentBlock, DocPageView, Document,
    DocumentConverter, DocumentView, Page,
};
use crate::spreadsheet::{all_rows_empty, auto_rows, auto_sheet_names, opt_rows, rows_view};
use crate::sqlite::escape_cell;
use crate::text::{chars_of, decimal, extend_chars, extend_str, push_decimal, repeat_char, trim, trim_chars};
use crate::xml::{attrs_view, events_view, read_xml_events, well_ended, xml_events, AttrView, XmlAttr, XmlEvent, XmlEventView};

verus! {

/// What `zip::ZipArchive::by_name` and `Read::read_to_string` give for the
/// named entry of the archive: the message of the error opening the archive
/// or finding the entry, else the text or the message of the read error.
pub uninterp spec fn zip_text_entry(data: Seq<u8>, name: Seq<char>) -> Result<Result<Seq<char>, Seq<char>>, Seq<char>>;

/// The view of a read entry text.
pub open spec fn entry_text_view(r: Result<Result<String, String>, String>) -> Result<Result<Seq<char>, Seq<char>>, Seq<char>> {
    match r {
        Ok(Ok(t)) => Ok(Ok(t@)),
        Ok(Err(m)) => Ok(Err(m@)),
        Err(m) => Err(m@),
    }
}

/// Opens the archive (`zip::ZipArchive::new`), looks the entry up
/// (`by_name`) and reads it (`read_to_string`).
#[verifier::external_body]
pub(crate) fn read_zip_text(data: &[u8], name: &str) -> (r: Result<Result<String, String>, String>)
    ensures
        zip_text_entry(data@, name@) == entry_text_view(r),
{
    let mut a = zip::ZipArchive::new(std::io::Cursor::new(data)).map_err(|e| e.to_string())?;
    let mut f = a.by_name(name).map_err(|e| e.to_string())?;
    let mut s = String::new();
    Ok(std::io::Read::read_to_string(&mut f, &mut s).map(|_| s).map_err(|e| e.to_string()))
}

/// ODT converter.
pub struct OdtConverter;

/// ODS converter.
pub struct OdsConverter;

/// ODP converter.
pub struct OdpConverter;

/// An ASCII decimal digit.
pub open spec fn is_digit(c: char) -> bool {
    '0' <= c && c <= '9'
}

/// The text after a leading `+`, if any.
pub open spec fn unsigned_digits(s: Seq<char>) -> Seq<char> {
    if s.len() > 0 && s[0] == '+' {
        s.skip(1)
    } else {
        s
    }
}

/// Every character is a digit.
pub open spec fn all_digits(d: Seq<char>) -> bool {
    forall|i: int| 0 <= i < d.len() ==> is_digit(#[trigger] d[i])
}

/// The value of `str::parse::<u8>`: an optional `+` and one or more ASCII
/// digits, with a value below 256.
pub open spec fn parse_u8(s: Seq<char>) -> Option<u8> {
    let d = unsigned_digits(s);
    if d.len() > 0 && all_digits(d) && digits_value(d) < 256 {
        Some(digits_value(d) as u8)
    } else {
        None
    }
}

/// The value of a string of decimal digits.
pub open spec fn digits_value(d: Seq<char>) -> nat
    decreases d.len(),
{
    if d.len() == 0 {
        0
    } else {
        digits_value(d.drop_last()) * 10 + ((d.last() as nat) - ('0' as nat)) as nat
    }
}

/// The state of reading ODT text.
pub struct OdtState {
    pub text: Seq<char>,
    pub in_text: bool,
    pub in_heading: bool,
    pub level: u8,
    pub current: Seq<char>,
}

/// The heading level set by the attributes, in order: each
/// `text:outline-level` whose value parses as a `u8` sets it (at most 6).
pub open spec fn outline_level(attrs: Seq<AttrView>, level: u8) -> u8
    decreases attrs.len(),
{
    if attrs.len() == 0 {
        level
    } else {
        let l = outline_level(attrs.drop_last(), level);
        match attrs.last() {
            Some((k, Some(v))) => if k == "text:outline-level"@ {
                match parse_u8(v) {
                    Some(x) => if x < 6 {
                        x
                    } else {
                        6
                    },
                    None => l,
                }
            } else {
                l
            },
            _ => l,
        }
    }
}

/// One event of ODT text.
pub open spec fn odt_step(s: OdtState, e: XmlEventView) -> OdtState {
    match e {
        XmlEventView::Start { name, attrs } => if name == "text:p"@ {
            OdtState { in_text: true, current: Seq::empty(), ..s }
        } else if name == "text:h"@ {
            OdtState { in_heading: true, current: Seq::empty(), level: outline_level(attrs, s.level), ..s }
        } else if name == "text:list-item"@ {
            OdtState { current: s.current + "- "@, ..s }
        } else {
            s
        },
        XmlEventView::End { name } => if name == "text:p"@ && s.in_text {
            OdtState { text: s.text + s.current + "\n\n"@, in_text: false, ..s }
        } else if name == "text:h"@ && s.in_heading {
            OdtState {
                text: s.text + repeat_char('#', s.level as nat) + " "@ + s.current + "\n\n"@,
                in_heading: false,
                ..s
            }
        } else {
            s
        },
        XmlEventView::Text(t) => OdtState { current: s.current + t, ..s },
        _ => s,
    }
}

/// The text of ODT events from `i` on: paragraphs, headings with their
/// outline level, list items marked; trimmed at the end of input; an XML
/// error is reported.
pub open spec fn odt_from(evs: Seq<XmlEventView>, i: int, s: OdtState) -> Result<Seq<char>, Seq<char>>
    decreases evs.len() - i,
{
    if i < 0 || i >= evs.len() {
        Ok(trim(s.text))
    } else {
        match evs[i] {
            XmlEventView::Eof => Ok(trim(s.text)),
            XmlEventView::Error(m) => Err("XML error: "@ + m),
            e => odt_from(evs, i + 1, odt_step(s, e)),
        }
    }
}

/// The state before any event.
pub open spec fn odt_start() -> OdtState {
    OdtState { text: Seq::empty(), in_text: false, in_heading: false, level: 1, current: Seq::empty() }
}

/// The text of ODT content XML.
pub open spec fn odt_text(xml: Seq<char>) -> Result<Seq<char>, Seq<char>> {
    odt_from(xml_events(xml), 0, odt_start())
}

/// The value of a string as `str::parse::<u8>` reads it.
fn parse_u8_exec(s: &[char]) -> (r: Option<u8>)
    ensures
        r == parse_u8(s@),
{
    let start: usize = if s.len() > 0 && s[0] == '+' {
        1
    } else {
        0
    };
    let ghost d = unsigned_digits(s@);
    assert(d =~= s@.skip(start as int));
    if start >= s.len() {
        return None;
    }
    let mut v: u32 = 0;
    let mut i: usize = start;
    while i < s.len()
        invariant
            start <= i <= s@.len(),
            d =~= s@.skip(start as int),
            d == unsigned_digits(s@),
            forall|j: int| 0 <= j < i - start ==> is_digit(#[trigger] d[j]),
            v == digits_value(d.take(i - start)),
            v < 256,
        decreases s@.len() - i,
    {
        let c = s[i];
        if c < '0' || c > '9' {
            assert(d[i - start] == c);
            assert(!is_digit(d[i - start]));
            assert(!all_digits(d));
            return None;
        }
        let digit: u32 = (c as u32) - ('0' as u32);
        proof {
            assert(d.take(i - start + 1).drop_last() =~= d.take(i - start));
            assert(d.take(i - start + 1).last() == c);
        }
        if v * 10 + digit >= 256 {
            proof {
                assert(digits_value(d.take(i - start + 1)) >= 256);
                if all_digits(d) {
                    lemma_digits_prefix(d, i - start + 1);
                }
            }
            return None;
        }
        v = v * 10 + digit;
        i += 1;
    }
    assert(d.take(i - start) =~= d);
    Some(v as u8)
}

/// The value of a prefix of a string of digits is at most that of the
/// whole string.
proof fn lemma_digits_prefix(d: Seq<char>, k: int)
    requires
        0 <= k <= d.len(),
        all_digits(d),
    ensures
        digits_value(d.take(k)) <= digits_value(d),
    decreases d.len() - k,
{
    if k < d.len() {
        lemma_digits_prefix(d, k + 1);
        assert(d.take(k + 1).drop_last() =~= d.take(k));
        assert(is_digit(d[k]));
    } else {
        assert(d.take(k) =~= d);
    }
}

/// The heading level after the attributes of a heading tag.
fn heading_level(attrs: &Vec<Option<XmlAttr>>, level: u8) -> (r: u8)
    ensures
        r == outline_level(attrs_view(attrs@), level),
{
    let ghost av = attrs_view(attrs@);
    let mut l = level;
    let mut i: usize = 0;
    while i < attrs.len()
        invariant
            i <= attrs@.len(),
            av == attrs_view(attrs@),
            l == outline_level(av.take(i as int), level),
        decreases attrs@.len() - i,
    {
        proof {
            assert(av.take(i + 1).drop_last() =~= av.take(i as int));
            assert(av.take(i + 1).last() == av[i as int]);
        }
        match &attrs[i] {
            Some(a) => {
                if crate::text::chars_eq_str(a.key.as_slice(), "text:outline-level") {
                    match &a.value {
                        Some(v) => {
                            match parse_u8_exec(v.as_slice()) {
                                Some(x) => {
                                    l = if x < 6 {
                                        x
                                    } else {
                                        6
                                    };
                                },
                                None => {},
                            }
                        },
                        None => {},
                    }
                }
            },
            None => {},
        }
        i += 1;
    }
    assert(av.take(i as int) =~= av);
    l
}

impl OdtConverter {
    /// The text of ODT content XML (see [`odt_text`]); an XML error is a
    /// parse error.
    pub fn extract_text_from_xml(xml: &str) -> (r: Result<String, MarkitdownError>)
        ensures
            match odt_text(xml@) {
                Ok(t) => r matches Ok(s) && s@ == t,
                Err(m) => r matches Err(e) && is_parse_error(e, m),
            },
    {
        let events = read_xml_events(xml);
        let ghost evs = events_view(events@);
        let mut text: Vec<char> = Vec::new();
        let mut in_text = false;
        let mut in_heading = false;
        let mut level: u8 = 1;
        let mut current: Vec<char> = Vec::new();
        let mut i: usize = 0;
        while i < events.len()
            invariant
                evs == events_view(events@),
                evs == xml_events(xml@),
                i <= evs.len(),
                odt_text(xml@) == odt_from(
                    evs,
                    i as int,
                    OdtState { text: text@, in_text, in_heading, level, current: current@ },
                ),
            decreases evs.len() - i,
        {
            assert(evs[i as int] == events@[i as int]@);
            match &events[i] {
                XmlEvent::Start { name, attrs } => {
                    if crate::text::chars_eq_str(name.as_slice(), "text:p") {
                        in_text = true;
                        current = Vec::new();
                    } else if crate::text::chars_eq_str(name.as_slice(), "text:h") {
                        in_heading = true;
                        current = Vec::new();
                        level = heading_level(attrs, level);
                    } else if crate::text::chars_eq_str(name.as_slice(), "text:list-item") {
                        extend_str(&mut current, "- ");
                    }
                },
                XmlEvent::End { name } => {
                    if crate::text::chars_eq_str(name.as_slice(), "text:p") && in_text {
                        extend_chars(&mut text, current.as_slice());
                        extend_str(&mut text, "\n\n");
                        in_text = false;
                    } else if crate::text::chars_eq_str(name.as_slice(), "text:h") && in_heading {
                        crate::text::push_repeat(&mut text, '#', level as usize);
                        extend_str(&mut text, " ");
                        extend_chars(&mut text, current.as_slice());
                        extend_str(&mut text, "\n\n");
                        in_heading = false;
                    }
                },
                XmlEvent::Text(t) => {
                    extend_chars(&mut current, t.as_slice());
                },
                XmlEvent::Eof => {
                    return Ok(to_string(trim_chars(text.as_slice()).as_slice()));
                },
                XmlEvent::Error(m) => {
                    return Err(parse_error("XML error: ", m.as_slice()));
                },
                _ => {},
            }
            i += 1;
        }
        Ok(to_string(trim_chars(text.as_slice()).as_slice()))
    }

    /// Converts ODT bytes to a one-page document: a heading and the text of
    /// `content.xml`, or a note where the archive has none; an archive that
    /// cannot be opened, a read error and an XML error are parse errors.
    pub fn convert_odt(bytes: &[u8]) -> (r: Result<Document, MarkitdownError>)
        ensures
            match crate::archive_formats::zip_open(bytes@) {
                Err(m) => r matches Err(e) && is_parse_error(e, "ODT parse error: "@ + m),
                Ok(_) => match zip_text_entry(bytes@, "content.xml"@) {
                    Err(_) => r matches Ok(d) && is_markdown_doc(
                        d,
                        "# OpenDocument Text\n\n"@ + "*Unable to read content from ODT file.*\n"@,
                    ),
                    Ok(Err(m)) => r matches Err(e) && is_parse_error(e, "Read error: "@ + m),
                    Ok(Ok(xml)) => match odt_text(xml) {
                        Ok(t) => r matches Ok(d) && is_markdown_doc(d, "# OpenDocument Text\n\n"@ + t),
                        Err(m) => r matches Err(e) && is_parse_error(e, m),
                    },
                },
            },
    {
        match crate::archive_formats::zip_count(bytes) {
            Err(m) => {
                return Err(parse_error("ODT parse error: ", m.as_slice()));
            },
            Ok(_) => {},
        }
        let mut md: Vec<char> = Vec::new();
        extend_str(&mut md, "# OpenDocument Text\n\n");
        match read_zip_text(bytes, "content.xml") {
            Err(_) => {
                extend_str(&mut md, "*Unable to read content from ODT file.*\n");
            },
            Ok(Err(m)) => {
                let mc = chars_of(m.as_str());
                return Err(parse_error("Read error: ", mc.as_slice()));
            },
            Ok(Ok(xml)) => {
                match Self::extract_text_from_xml(xml.as_str()) {
                    Ok(t) => extend_str(&mut md, t.as_str()),
                    Err(e) => {
                        return Err(e);
                    },
                }
            },
        }
        Ok(markdown_document(md))
    }
}

/// The state of reading ODP slides.
pub struct OdpState {
    pub slides: Seq<Seq<char>>,
    pub slide: Seq<char>,
    pub in_page: bool,
    pub current: Seq<char>,
}

/// One event of ODP content.
pub open spec fn odp_step(s: OdpState, e: XmlEventView) -> OdpState {
    match e {
        XmlEventView::Start { name, attrs } => if name == "draw:page"@ {
            OdpState { in_page: true, slide: Seq::empty(), ..s }
        } else if name == "text:p"@ || name == "text:span"@ {
            OdpState { current: Seq::empty(), ..s }
        } else {
            s
        },
        XmlEventView::End { name } => if name == "draw:page"@ {
            OdpState {
                slides: if s.in_page && s.slide.len() > 0 {
                    s.slides.push(s.slide)
                } else {
                    s.slides
                },
                in_page: false,
                ..s
            }
        } else if (name == "text:p"@ || name == "text:span"@) && s.in_page && s.current.len() > 0 {
            OdpState { slide: s.slide + s.current + "\n"@, ..s }
        } else {
            s
        },
        XmlEventView::Text(t) => if s.in_page {
            OdpState { current: s.current + t, ..s }
        } else {
            s
        },
        _ => s,
    }
}

/// The slides of ODP events from `i` on: the non-empty text of each page's
/// paragraphs and spans, a line each; an XML error is reported.
pub open spec fn odp_from(evs: Seq<XmlEventView>, i: int, s: OdpState) -> Result<Seq<Seq<char>>, Seq<char>>
    decreases evs.len() - i,
{
    if i < 0 || i >= evs.len() {
        Ok(s.slides)
    } else {
        match evs[i] {
            XmlEventView::Eof => Ok(s.slides),
            XmlEventView::Error(m) => Err("XML error: "@ + m),
            e => odp_from(evs, i + 1, odp_step(s, e)),
        }
    }
}

/// The slides of ODP content XML.
pub open spec fn odp_slides(xml: Seq<char>) -> Result<Seq<Seq<char>>, Seq<char>> {
    odp_from(
        xml_events(xml),
        0,
        OdpState { slides: Seq::empty(), slide: Seq::empty(), in_page: false, current: Seq::empty() },
    )
}

/// The page of slide `idx` (from 0): a heading and the slide's text.
pub open spec fn slide_page(idx: int, text: Seq<char>) -> DocPageView {
    DocPageView {
        page_number: (idx + 1) as u32,
        content: seq![
            BlockView::Heading { level: 2, text: "Slide "@ + decimal((idx + 1) as nat) },
            BlockView::Text(text),
        ],
        rendered_image: None,
    }
}

/// The document of the slides: one page each, or a note where there are
/// none.
pub open spec fn odp_document(slides: Seq<Seq<char>>) -> DocumentView {
    DocumentView {
        title: None,
        pages: if slides.len() == 0 {
            seq![
                DocPageView {
                    page_number: 1,
                    content: seq![BlockView::Text("*Unable to read content from ODP file.*"@)],
                    rendered_image: None,
                },
            ]
        } else {
            Seq::new(slides.len(), |i: int| slide_page(i, slides[i]))
        },
        metadata: Seq::empty(),
    }
}

impl OdpConverter {
    /// The slides of ODP content XML (see [`odp_slides`]); an XML error is a
    /// parse error.
    pub fn extract_slides_from_xml(xml: &str) -> (r: Result<Vec<String>, MarkitdownError>)
        ensures
            match odp_slides(xml@) {
                Ok(v) => r matches Ok(s) && strs(s@) == v,
                Err(m) => r matches Err(e) && is_parse_error(e, m),
            },
    {
        let events = read_xml_events(xml);
        let ghost evs = events_view(events@);
        let mut slides: Vec<String> = Vec::new();
        let mut slide: Vec<char> = Vec::new();
        let mut in_page = false;
        let mut current: Vec<char> = Vec::new();
        let mut i: usize = 0;
        assert(strs(slides@) =~= Seq::<Seq<char>>::empty());
        while i < events.len()
            invariant
                evs == events_view(events@),
                evs == xml_events(xml@),
                i <= evs.len(),
                odp_slides(xml@) == odp_from(
                    evs,
                    i as int,
                    OdpState { slides: strs(slides@), slide: slide@, in_page, current: current@ },
                ),
            decreases evs.len() - i,
        {
            assert(evs[i as int] == events@[i as int]@);
            match &events[i] {
                XmlEvent::Start { name, attrs } => {
                    if crate::text::chars_eq_str(name.as_slice(), "draw:page") {
                        in_page = true;
                        slide = Vec::new();
                    } else if crate::text::chars_eq_str(name.as_slice(), "text:p") || crate::text::chars_eq_str(
                        name.as_slice(),
                        "text:span",
                    ) {
                        current = Vec::new();
                    }
                },
                XmlEvent::End { name } => {
                    if crate::text::chars_eq_str(name.as_slice(), "draw:page") {
                        if in_page && slide.len() > 0 {
                            let ghost before = strs(slides@);
                            slides.push(to_string(slide.as_slice()));
                            assert(strs(slides@) =~= before.push(slide@));
                        }
                        in_page = false;
                    } else if (crate::text::chars_eq_str(name.as_slice(), "text:p") || crate::text::chars_eq_str(
                        name.as_slice(),
                        "text:span",
                    )) && in_page && current.len() > 0 {
                        extend_chars(&mut slide, current.as_slice());
                        extend_str(&mut slide, "\n");
                    }
                },
                XmlEvent::Text(t) => {
                    if in_page {
                        extend_chars(&mut current, t.as_slice());
                    }
                },
                XmlEvent::Eof => {
                    return Ok(slides);
                },
                XmlEvent::Error(m) => {
                    return Err(parse_error("XML error: ", m.as_slice()));
                },
                _ => {},
            }
            i += 1;
        }
        Ok(slides)
    }

    /// Converts ODP bytes: one page per slide of `content.xml` (see
    /// [`odp_document`]); an archive that cannot be opened, a read error and
    /// an XML error are parse errors.
    pub fn convert_odp(bytes: &[u8]) -> (r: Result<Document, MarkitdownError>)
        ensures
            match crate::archive_formats::zip_open(bytes@) {
                Err(m) => r matches Err(e) && is_parse_error(e, "ODP parse error: "@ + m),
                Ok(_) => match zip_text_entry(bytes@, "content.xml"@) {
                    Err(_) => r matches Ok(d) && d@ == odp_document(Seq::empty()),
                    Ok(Err(m)) => r matches Err(e) && is_parse_error(e, "Read error: "@ + m),
                    Ok(Ok(xml)) => match odp_slides(xml) {
                        Ok(v) => r matches Ok(d) && d@ == odp_document(v),
                        Err(m) => r matches Err(e) && is_parse_error(e, m),
                    },
                },
            },
    {
        match crate::archive_formats::zip_count(bytes) {
            Err(m) => {
                return Err(parse_error("ODP parse error: ", m.as_slice()));
            },
            Ok(_) => {},
        }
        let slides: Vec<String> = match read_zip_text(bytes, "content.xml") {
            Err(_) => Vec::new(),
            Ok(Err(m)) => {
                let mc = chars_of(m.as_str());
                return Err(parse_error("Read error: ", mc.as_slice()));
            },
            Ok(Ok(xml)) => match Self::extract_slides_from_xml(xml.as_str()) {
                Ok(v) => v,
                Err(e) => {
                    return Err(e);
                },
            },
        };
        let ghost sv = strs(slides@);
        let mut doc = Document::new();
        let mut i: usize = 0;
        while i < slides.len()
            invariant
                i <= slides@.len(),
                sv == strs(slides@),
                doc.title is None,
                doc@.metadata.len() == 0,
                doc@.pages =~= Seq::new(i as nat, |k: int| slide_page(k, sv[k])),
            decreases slides@.len() - i,
        {
            let mut page = Page::new((i + 1) as u32);
            let mut heading: Vec<char> = Vec::new();
            extend_str(&mut heading, "Slide ");
            push_decimal(&mut heading, i + 1);
            page.add_content(ContentBlock::Heading { level: 2, text: to_string(heading.as_slice()) });
            page.add_content(ContentBlock::Text(slides[i].clone()));
            let ghost before = doc@.pages;
            let ghost pv = page@;
            assert(pv.content =~= slide_page(i as int, sv[i as int]).content);
            doc.add_page(page);
            assert(doc@.pages =~= before.push(pv));
            i += 1;
        }
        if slides.len() == 0 {
            let mut page = Page::new(1);
            page.add_content(ContentBlock::Text(String::from_str("*Unable to read content from ODP file.*")));
            let ghost pv = page@;
            assert(pv.content =~= seq![BlockView::Text("*Unable to read content from ODP file.*"@)]);
            assert(doc@.pages =~= Seq::<DocPageView>::empty());
            doc.add_page(page);
            assert(doc@.pages =~= seq![pv]);
        }
        assert(doc@.pages =~= odp_document(sv).pages);
        assert(doc@.metadata =~= Seq::<(Seq<char>, Seq<char>)>::empty());
        Ok(doc)
    }
}

/// The cells of a row, each escaped.
pub open spec fn escaped_row(r: Seq<Seq<char>>) -> Seq<Seq<char>> {
    r.map_values(|c: Seq<char>| escape_cell(c))
}

/// The page of the `idx`-th sheet (from 0) of an ODS workbook: a heading
/// with the sheet's name; where its rows were read, a note if there are
/// none, nothing more if all are empty, else a table of the escaped cells
/// (the first row as header, at most 100 further rows) and a note of the
/// rows left out.
pub open spec fn ods_page(idx: int, name: Seq<char>, rows: Option<Seq<Seq<Seq<char>>>>) -> DocPageView {
    DocPageView {
        page_number: (idx + 1) as u32,
        content: seq![BlockView::Heading { level: 2, text: "Sheet: "@ + name }] + match rows {
            None => Seq::empty(),
            Some(r) => if r.len() == 0 {
                seq![BlockView::Text("*Empty sheet*"@)]
            } else if all_rows_empty(r) {
                Seq::empty()
            } else {
                seq![
                    BlockView::Table {
                        headers: escaped_row(r[0]),
                        rows: r.subrange(1, if r.len() > 101 { 101 } else { r.len() as int }).map_values(
                            |x: Seq<Seq<char>>| escaped_row(x),
                        ),
                    },
                ] + if r.len() > 101 {
                    seq![BlockView::Text("*... and "@ + decimal((r.len() - 101) as nat) + " more rows*"@)]
                } else {
                    Seq::empty()
                }
            },
        },
        rendered_image: None,
    }
}

/// The document of an ODS workbook with these sheets: one page per sheet,
/// or one empty page where there is no sheet.
pub open spec fn ods_document(data: Seq<u8>, names: Seq<Seq<char>>) -> DocumentView {
    DocumentView {
        title: None,
        pages: if names.len() == 0 {
            seq![DocPageView { page_number: 1, content: Seq::empty(), rendered_image: None }]
        } else {
            Seq::new(names.len(), |i: int| ods_page(i, names[i], auto_rows(data, names[i])))
        },
        metadata: Seq::empty(),
    }
}

/// The cells of a row, each escaped.
fn escape_row(row: &Vec<String>) -> (r: Vec<String>)
    ensures
        strs(r@) == escaped_row(strs(row@)),
{
    let mut out: Vec<String> = Vec::new();
    let mut i: usize = 0;
    while i < row.len()
        invariant
            i <= row@.len(),
            strs(out@) =~= escaped_row(strs(row@)).take(i as int),
        decreases row@.len() - i,
    {
        let c = chars_of(row[i].as_str());
        let e = crate::bibtex::replace_chars(c.as_slice(), "|", "\\|");
        let ghost before = strs(out@);
        out.push(to_string(e.as_slice()));
        assert(strs(out@) =~= before.push(e@));
        i += 1;
    }
    out
}

/// The page of one ODS sheet.
fn ods_sheet_page(idx: usize, name: &String, rows: Option<Vec<Vec<String>>>) -> (r: Page)
    requires
        idx < usize::MAX,
    ensures
        r@ == ods_page(idx as int, name@, opt_rows(rows)),
{
    let mut page = Page::new((idx + 1) as u32);
    let mut h: Vec<char> = Vec::new();
    extend_str(&mut h, "Sheet: ");
    extend_str(&mut h, name.as_str());
    page.add_content(ContentBlock::Heading { level: 2, text: to_string(h.as_slice()) });
    let ghost head = page@.content;
    match &rows {
        None => {},
        Some(r) => {
            let ghost rv = rows_view(*r);
            if r.len() == 0 {
                page.add_content(ContentBlock::Text(String::from_str("*Empty sheet*")));
                assert(page@.content =~= head + seq![BlockView::Text("*Empty sheet*"@)]);
            } else if !crate::spreadsheet::rows_all_empty(r) {
                let headers = escape_row(&r[0]);
                let limit: usize = if r.len() > 101 {
                    101
                } else {
                    r.len()
                };
                let ghost body = rv.subrange(1, limit as int);
                let mut data: Vec<Vec<String>> = Vec::new();
                let mut i: usize = 1;
                while i < limit
                    invariant
                        1 <= i <= limit <= r@.len(),
                        rv == rows_view(*r),
                        body == rv.subrange(1, limit as int),
                        rows_view(data) =~= body.take(i - 1).map_values(|x: Seq<Seq<char>>| escaped_row(x)),
                    decreases limit - i,
                {
                    let e = escape_row(&r[i]);
                    let ghost before = rows_view(data);
                    data.push(e);
                    proof {
                        assert(body.take(i as int) =~= body.take(i - 1).push(rv[i as int]));
                        assert(rows_view(data) =~= before.push(strs(e@)));
                    }
                    i += 1;
                }
                assert(body.take(i - 1) =~= body);
                page.add_content(ContentBlock::Table { headers, rows: data });
                if r.len() > 101 {
                    let mut note: Vec<char> = Vec::new();
                    extend_str(&mut note, "*... and ");
                    push_decimal(&mut note, r.len() - 101);
                    extend_str(&mut note, " more rows*");
                    page.add_content(ContentBlock::Text(to_string(note.as_slice())));
                }
            }
        },
    }
    assert(page@.content =~= ods_page(idx as int, name@, opt_rows(rows)).content);
    page
}

impl OdsConverter {
    /// Converts ODS bytes: one page per sheet (see [`ods_page`]); a workbook
    /// that cannot be opened is a parse error.
    pub fn convert_ods(bytes: &[u8]) -> (r: Result<Document, MarkitdownError>)
        ensures
            match auto_sheet_names(bytes@) {
                Ok(names) => r matches Ok(d) && d@ == ods_document(bytes@, names),
                Err(m) => r matches Err(e) && is_parse_error(e, "ODS parse error: "@ + m),
            },
    {
        let names = match crate::spreadsheet::open_auto_sheets(bytes) {
            Ok(v) => v,
            Err(m) => {
                let mc = chars_of(m.as_str());
                return Err(parse_error("ODS parse error: ", mc.as_slice()));
            },
        };
        let ghost nv = strs(names@);
        let mut doc = Document::new();
        let mut i: usize = 0;
        while i < names.len()
            invariant
                i <= names@.len(),
                nv == strs(names@),
                doc.title is None,
                doc@.metadata.len() == 0,
                doc@.pages =~= Seq::new(i as nat, |k: int| ods_page(k, nv[k], auto_rows(bytes@, nv[k]))),
            decreases names@.len() - i,
        {
            let rows = crate::spreadsheet::auto_sheet_rows(bytes, names[i].as_str());
            let page = ods_sheet_page(i, &names[i], rows);
            let ghost before = doc@.pages;
            let ghost pv = page@;
            assert(names@[i as int]@ == nv[i as int]);
            doc.add_page(page);
            assert(doc@.pages =~= before.push(pv));
            i += 1;
        }
        if names.len() == 0 {
            let p = Page::new(1);
            let ghost pv = p@;
            doc.add_page(p);
            assert(pv.content =~= Seq::<BlockView>::empty());
            assert(doc@.pages =~= seq![pv]);
        }
        assert(doc@.pages =~= ods_document(bytes@, nv).pages);
        assert(doc@.metadata =~= Seq::<(Seq<char>, Seq<char>)>::empty());
        Ok(doc)
    }
}

impl DocumentConverter for OdtConverter {
    open spec fn extensions(&self) -> Seq<Seq<char>> {
        seq![".odt"@, ".ott"@]
    }

    fn supported_extensions(&self) -> (r: Vec<&'static str>) {
        let r = vec![".odt", ".ott"];
        assert(ext_views(r@) =~= self.extensions());
        r
    }
}

impl DocumentConverter for OdpConverter {
    open spec fn extensions(&self) -> Seq<Seq<char>> {
        seq![".odp"@, ".otp"@]
    }

    fn supported_extensions(&self) -> (r: Vec<&'static str>) {
        let r = vec![".odp", ".otp"];
        assert(ext_views(r@) =~= self.extensions());
        r
    }
}

impl DocumentConverter for OdsConverter {
    open spec fn extensions(&self) -> Seq<Seq<char>> {
        seq![".ods"@, ".ots"@]
    }

    fn supported_extensions(&self) -> (r: Vec<&'static str>) {
        let r = vec![".ods", ".ots"];
        assert(ext_views(r@) =~= self.extensions());
        r
    }
}

} // verus!
