//! FictionBook (FB2) e-books to Markdown: the title and authors as a
//! metadata page, then one page per section.
use vstd::prelude::*;
use crate::chars::{from_utf8_lossy, to_string, utf8_lossy};
use crate::error::{is_parse_error, parse_error, MarkitdownError};
use crate::model::{
    ext_views, BlockView, ContentBlock, DocPageView, Document, DocumentConverter, DocumentView, Page,
    pages_of, blocks_view,
};
use crate::text::{extend_chars, extend_str, trim, trim_chars};
use crate::xml::{events_view, is_final, name_is, read_xml_events, xml_events, XmlEvent, XmlEventView};

verus! {

/// FictionBook converter.
pub struct FictionBookConverter;

/// The elements an FB2 conversion is inside of.
#[derive(Clone, Copy)]
pub struct Fb2Flags {
    pub description: bool,
    pub title_info: bool,
    pub body: bool,
    pub section: bool,
    pub title: bool,
    pub paragraph: bool,
    pub emphasis: bool,
    pub strong: bool,
    pub epigraph: bool,
    pub poem: bool,
    pub stanza: bool,
    pub v: bool,
}

/// The state of an FB2 conversion.
pub struct Fb2State {
    pub metadata: Seq<char>,
    pub pages: Seq<Seq<char>>,
    pub page: Seq<char>,
    pub text: Seq<char>,
    pub f: Fb2Flags,
    pub book_title: Seq<char>,
    pub authors: Seq<Seq<char>>,
    pub author: Seq<char>,
}

/// The state before the first event.
pub open spec fn fb2_initial() -> Fb2State {
    Fb2State {
        metadata: seq![],
        pages: seq![],
        page: seq![],
        text: seq![],
        f: Fb2Flags {
            description: false,
            title_info: false,
            body: false,
            section: false,
            title: false,
            paragraph: false,
            emphasis: false,
            strong: false,
            epigraph: false,
            poem: false,
            stanza: false,
            v: false,
        },
        book_title: seq![],
        authors: seq![],
        author: seq![],
    }
}

/// The pages with the current page closed, if it has content.
pub open spec fn close_page(st: Fb2State) -> Fb2State {
    if st.page.len() > 0 {
        Fb2State { pages: st.pages.push(st.page), page: seq![], ..st }
    } else {
        st
    }
}

/// `**Author:** name` paragraphs of the authors.
pub open spec fn authors_md(authors: Seq<Seq<char>>) -> Seq<char>
    decreases authors.len(),
{
    if authors.len() == 0 {
        seq![]
    } else {
        authors_md(authors.drop_last()) + "**Author:** "@ + authors.last() + "\n\n"@
    }
}

/// The metadata after the description ends: the book title as a heading,
/// the authors, and a rule when there is any metadata.
pub open spec fn description_md(metadata: Seq<char>, title: Seq<char>, authors: Seq<Seq<char>>) -> Seq<char> {
    let m = metadata + (if title.len() > 0 {
        "# "@ + title + "\n\n"@
    } else {
        seq![]
    }) + authors_md(authors);
    if m.len() > 0 {
        m + "---\n\n"@
    } else {
        m
    }
}

/// The flag an element sets while it is open, if any.
pub open spec fn set_flag(f: Fb2Flags, name: Seq<char>, on: bool) -> Fb2Flags {
    if name == "description"@ {
        Fb2Flags { description: on, ..f }
    } else if name == "title-info"@ {
        Fb2Flags { title_info: on, ..f }
    } else if name == "body"@ {
        Fb2Flags { body: on, ..f }
    } else if name == "section"@ {
        Fb2Flags { section: on, ..f }
    } else if name == "title"@ {
        Fb2Flags { title: on, ..f }
    } else if name == "p"@ {
        Fb2Flags { paragraph: on, ..f }
    } else if name == "emphasis"@ {
        Fb2Flags { emphasis: on, ..f }
    } else if name == "strong"@ {
        Fb2Flags { strong: on, ..f }
    } else if name == "epigraph"@ {
        Fb2Flags { epigraph: on, ..f }
    } else if name == "poem"@ {
        Fb2Flags { poem: on, ..f }
    } else if name == "stanza"@ {
        Fb2Flags { stanza: on, ..f }
    } else if name == "v"@ {
        Fb2Flags { v: on, ..f }
    } else {
        f
    }
}

/// The state after a start tag: the element's flag is set; a section closes
/// the current page; an author inside the title information starts a new
/// author name.
pub open spec fn fb2_start(st: Fb2State, name: Seq<char>) -> Fb2State {
    let s1 = Fb2State { f: set_flag(st.f, name, true), ..st };
    if name == "section"@ {
        close_page(s1)
    } else if name == "author"@ && st.f.title_info {
        Fb2State { author: seq![], ..s1 }
    } else {
        s1
    }
}

/// The collected text written as a line of the page with `head` before and
/// `tail` after it (trimmed), when there is text.
pub open spec fn flush_text(st: Fb2State, head: Seq<char>, tail: Seq<char>) -> Fb2State {
    if st.text.len() > 0 {
        Fb2State { page: st.page + head + trim(st.text) + tail, text: seq![], ..st }
    } else {
        st
    }
}

/// What an end tag does besides clearing its flag: a description adds the
/// metadata; the body closes the current page; a title, paragraph or verse
/// line writes the collected text (a heading of level 2 inside a section,
/// else 1; a quote inside an epigraph; italics inside a poem or stanza); an
/// epigraph, poem or stanza ends with a newline; inside the title
/// information an author is added, the book title taken, and name parts
/// joined into the author's name.
pub open spec fn end_effects(st: Fb2State, name: Seq<char>) -> Fb2State {
    if name == "description"@ {
        Fb2State { metadata: description_md(st.metadata, st.book_title, st.authors), ..st }
    } else if name == "body"@ {
        close_page(st)
    } else if name == "title"@ {
        flush_text(st, if st.f.section {
            "## "@
        } else {
            "# "@
        }, "\n\n"@)
    } else if name == "p"@ {
        if st.f.epigraph {
            flush_text(st, "> "@, "\n"@)
        } else if st.f.poem || st.f.stanza {
            flush_text(st, "*"@, "*\n"@)
        } else {
            flush_text(st, seq![], "\n\n"@)
        }
    } else if name == "epigraph"@ || name == "poem"@ || name == "stanza"@ {
        Fb2State { page: st.page.push('\n'), ..st }
    } else if name == "v"@ {
        flush_text(st, "*"@, "*  \n"@)
    } else if name == "author"@ && st.f.title_info {
        if st.author.len() > 0 {
            Fb2State { authors: st.authors.push(st.author), author: seq![], ..st }
        } else {
            st
        }
    } else if name == "book-title"@ && st.f.title_info {
        Fb2State { book_title: st.text, text: seq![], ..st }
    } else if (name == "first-name"@ || name == "middle-name"@ || name == "last-name"@)
        && st.f.title_info {
        if st.text.len() > 0 {
            Fb2State {
                author: (if st.author.len() > 0 {
                    st.author.push(' ')
                } else {
                    st.author
                }) + trim(st.text),
                text: seq![],
                ..st
            }
        } else {
            st
        }
    } else {
        st
    }
}

/// The state after an end tag: its effects, and its flag cleared.
pub open spec fn fb2_end(st: Fb2State, name: Seq<char>) -> Fb2State {
    let s1 = end_effects(st, name);
    Fb2State { f: set_flag(st.f, name, false), ..s1 }
}

/// The state after a text: collected for the title information, or inside
/// the body (bold or italic inside `strong` or `emphasis`) for a title,
/// paragraph or verse line.
pub open spec fn fb2_text(st: Fb2State, t: Seq<char>) -> Fb2State {
    if st.f.description && st.f.title_info {
        Fb2State { text: st.text + t, ..st }
    } else if st.f.body {
        let f = if st.f.strong {
            "**"@ + t + "**"@
        } else if st.f.emphasis {
            "*"@ + t + "*"@
        } else {
            t
        };
        if st.f.title || st.f.paragraph || st.f.v {
            Fb2State { text: st.text + f, ..st }
        } else {
            st
        }
    } else {
        st
    }
}

/// The state after an event other than the end of input or an error.
pub open spec fn fb2_step(st: Fb2State, e: XmlEventView) -> Fb2State {
    match e {
        XmlEventView::Start { name, attrs } => fb2_start(st, name),
        XmlEventView::End { name } => fb2_end(st, name),
        XmlEventView::Text(t) => fb2_text(st, t),
        _ => st,
    }
}

/// The metadata and pages from the events from `i` on, or the message of a
/// parse error.
pub open spec fn fb2_from(evs: Seq<XmlEventView>, i: int, st: Fb2State) -> Result<
    (Seq<char>, Seq<Seq<char>>),
    Seq<char>,
>
    decreases evs.len() - i,
{
    if i < 0 || i >= evs.len() {
        Ok((st.metadata, st.pages))
    } else {
        match evs[i] {
            XmlEventView::Eof => Ok((st.metadata, st.pages)),
            XmlEventView::Error(m) => Err("FB2 parse error: "@ + m),
            e => fb2_from(evs, i + 1, fb2_step(st, e)),
        }
    }
}

/// The metadata and section pages of an FB2 event stream, or the message of
/// its parse error.
pub open spec fn fb2_markdown(evs: Seq<XmlEventView>) -> Result<(Seq<char>, Seq<Seq<char>>), Seq<char>> {
    fb2_from(evs, 0, fb2_initial())
}

/// The document of the metadata and pages: a page 0 with the metadata when
/// there is any, then page `i + 1` for each section page `i`.
pub open spec fn fb2_document(metadata: Seq<char>, pages: Seq<Seq<char>>) -> DocumentView {
    let body = Seq::new(
        pages.len(),
        |i: int|
            DocPageView {
                page_number: (i + 1) as u32,
                content: seq![BlockView::Markdown(pages[i])],
                rendered_image: None,
            },
    );
    DocumentView {
        title: None,
        pages: if metadata.len() > 0 {
            seq![
                DocPageView {
                    page_number: 0,
                    content: seq![BlockView::Markdown(metadata)],
                    rendered_image: None,
                },
            ] + body
        } else {
            body
        },
        metadata: seq![],
    }
}

/// The running state of a conversion.
struct Fb2Exec {
    metadata: Vec<char>,
    pages: Vec<Vec<char>>,
    page: Vec<char>,
    text: Vec<char>,
    f: Fb2Flags,
    book_title: Vec<char>,
    authors: Vec<Vec<char>>,
    author: Vec<char>,
}

impl View for Fb2Exec {
    type V = Fb2State;

    closed spec fn view(&self) -> Fb2State {
        Fb2State {
            metadata: self.metadata@,
            pages: self.pages.deep_view(),
            page: self.page@,
            text: self.text@,
            f: self.f,
            book_title: self.book_title@,
            authors: self.authors.deep_view(),
            author: self.author@,
        }
    }
}

/// Appends a text to a list of texts.
fn push_chars(v: &mut Vec<Vec<char>>, t: Vec<char>)
    ensures
        final(v).deep_view() == old(v).deep_view().push(t@),
{
    let ghost before = v.deep_view();
    v.push(t);
    proof {
        crate::text::lemma_push_line(before, v@, t);
    }
}

/// Closes the current page if it has content.
fn close_page_exec(st: &mut Fb2Exec)
    ensures
        final(st)@ == close_page(old(st)@),
{
    if st.page.len() > 0 {
        let mut p: Vec<char> = Vec::new();
        std::mem::swap(&mut p, &mut st.page);
        push_chars(&mut st.pages, p);
    }
}

/// Writes the collected text as a line of the page.
fn flush_text_exec(st: &mut Fb2Exec, head: &str, tail: &str)
    ensures
        final(st)@ == flush_text(old(st)@, head@, tail@),
{
    if st.text.len() > 0 {
        let t = trim_chars(st.text.as_slice());
        extend_str(&mut st.page, head);
        extend_chars(&mut st.page, t.as_slice());
        extend_str(&mut st.page, tail);
        st.text = Vec::new();
    }
}

/// Appends the metadata of a finished description.
fn finish_description(st: &mut Fb2Exec)
    ensures
        final(st)@ == (Fb2State {
            metadata: description_md(old(st)@.metadata, old(st)@.book_title, old(st)@.authors),
            ..old(st)@
        }),
{
    let ghost s0 = st@;
    let mut md: Vec<char> = Vec::new();
    std::mem::swap(&mut md, &mut st.metadata);
    if st.book_title.len() > 0 {
        extend_str(&mut md, "# ");
        extend_chars(&mut md, st.book_title.as_slice());
        extend_str(&mut md, "\n\n");
    }
    let ghost m1 = md@;
    let ghost av = st.authors.deep_view();
    let mut k: usize = 0;
    while k < st.authors.len()
        invariant
            k <= st.authors@.len(),
            av == st.authors.deep_view(),
            md@ == m1 + authors_md(av.take(k as int)),
        decreases st.authors@.len() - k,
    {
        assert(av.take(k + 1).drop_last() =~= av.take(k as int));
        proof {
            crate::text::lemma_chars_deep_view(st.authors@[k as int]);
        }
        extend_str(&mut md, "**Author:** ");
        extend_chars(&mut md, st.authors[k].as_slice());
        extend_str(&mut md, "\n\n");
        assert(md@ =~= m1 + authors_md(av.take(k + 1)));
        k += 1;
    }
    assert(av.take(k as int) =~= av);
    if md.len() > 0 {
        extend_str(&mut md, "---\n\n");
    }
    assert(md@ =~= description_md(s0.metadata, s0.book_title, s0.authors));
    st.metadata = md;
}

/// Sets or clears the flag of an element.
#[verifier::rlimit(100)]
fn set_flag_exec(f: Fb2Flags, name: &[char], on: bool) -> (r: Fb2Flags)
    ensures
        r == set_flag(f, name@, on),
{
    let mut g = f;
    if name_is(name, "description") {
        g.description = on;
    } else if name_is(name, "title-info") {
        g.title_info = on;
    } else if name_is(name, "body") {
        g.body = on;
    } else if name_is(name, "section") {
        g.section = on;
    } else if name_is(name, "title") {
        g.title = on;
    } else if name_is(name, "p") {
        g.paragraph = on;
    } else if name_is(name, "emphasis") {
        g.emphasis = on;
    } else if name_is(name, "strong") {
        g.strong = on;
    } else if name_is(name, "epigraph") {
        g.epigraph = on;
    } else if name_is(name, "poem") {
        g.poem = on;
    } else if name_is(name, "stanza") {
        g.stanza = on;
    } else if name_is(name, "v") {
        g.v = on;
    }
    g
}

/// Applies a start tag.
fn fb2_start_exec(st: &mut Fb2Exec, name: &[char])
    ensures
        final(st)@ == fb2_start(old(st)@, name@),
{
    let ghost s0 = st@;
    let title_info = st.f.title_info;
    st.f = set_flag_exec(st.f, name, true);
    if name_is(name, "section") {
        close_page_exec(st);
    } else if name_is(name, "author") && title_info {
        st.author = Vec::new();
    }
}

/// Applies what an end tag does besides clearing its flag.
#[verifier::rlimit(100)]
fn end_effects_exec(st: &mut Fb2Exec, name: &[char])
    ensures
        final(st)@ == end_effects(old(st)@, name@),
{
    let ghost s0 = st@;
    if name_is(name, "description") {
        finish_description(st);
    } else if name_is(name, "body") {
        close_page_exec(st);
    } else if name_is(name, "title") {
        if st.f.section {
            flush_text_exec(st, "## ", "\n\n");
        } else {
            flush_text_exec(st, "# ", "\n\n");
        }
    } else if name_is(name, "p") {
        if st.f.epigraph {
            flush_text_exec(st, "> ", "\n");
        } else if st.f.poem || st.f.stanza {
            flush_text_exec(st, "*", "*\n");
        } else {
            flush_text_exec(st, "", "\n\n");
            proof {
                reveal_strlit("");
            }
        }
    } else if name_is(name, "epigraph") || name_is(name, "poem") || name_is(name, "stanza") {
        st.page.push('\n');
        assert(st@ =~= end_effects(s0, name@));
    } else if name_is(name, "v") {
        flush_text_exec(st, "*", "*  \n");
    } else if name_is(name, "author") && st.f.title_info {
        if st.author.len() > 0 {
            let mut a: Vec<char> = Vec::new();
            std::mem::swap(&mut a, &mut st.author);
            push_chars(&mut st.authors, a);
            assert(st@ =~= end_effects(s0, name@));
        }
    } else if name_is(name, "book-title") && st.f.title_info {
        let mut t: Vec<char> = Vec::new();
        std::mem::swap(&mut t, &mut st.text);
        st.book_title = t;
        assert(st@ =~= end_effects(s0, name@));
    } else if (name_is(name, "first-name") || name_is(name, "middle-name") || name_is(name, "last-name"))
        && st.f.title_info {
        if st.text.len() > 0 {
            let ghost a0 = st.author@;
            if st.author.len() > 0 {
                st.author.push(' ');
            }
            let t = trim_chars(st.text.as_slice());
            extend_chars(&mut st.author, t.as_slice());
            st.text = Vec::new();
            assert(st.author@ =~= (if a0.len() > 0 {
                a0.push(' ')
            } else {
                a0
            }) + trim(s0.text));
            assert(st@ =~= end_effects(s0, name@));
        }
    }
}

/// Applies an end tag.
fn fb2_end_exec(st: &mut Fb2Exec, name: &[char])
    ensures
        final(st)@ == fb2_end(old(st)@, name@),
{
    let f0 = st.f;
    end_effects_exec(st, name);
    st.f = set_flag_exec(f0, name, false);
}

/// Applies a text.
fn fb2_text_exec(st: &mut Fb2Exec, t: &[char])
    ensures
        final(st)@ == fb2_text(old(st)@, t@),
{
    if st.f.description && st.f.title_info {
        extend_chars(&mut st.text, t);
    } else if st.f.body {
        if st.f.title || st.f.paragraph || st.f.v {
            let ghost t0 = st.text@;
            if st.f.strong {
                extend_str(&mut st.text, "**");
                extend_chars(&mut st.text, t);
                extend_str(&mut st.text, "**");
            } else if st.f.emphasis {
                extend_str(&mut st.text, "*");
                extend_chars(&mut st.text, t);
                extend_str(&mut st.text, "*");
            } else {
                extend_chars(&mut st.text, t);
            }
            assert(st.text@ =~= t0 + (if old(st).f.strong {
                "**"@ + t@ + "**"@
            } else if old(st).f.emphasis {
                "*"@ + t@ + "*"@
            } else {
                t@
            }));
        }
    }
}

impl FictionBookConverter {
    /// The metadata and section pages of the events of an FB2 text; a parse
    /// error gives `FB2 parse error: ` and its message.
    pub fn fb2_events_to_markdown(events: &Vec<XmlEvent>) -> (r: Result<(String, Vec<String>), MarkitdownError>)
        ensures
            match fb2_markdown(events_view(events@)) {
                Ok((m, p)) => r matches Ok(x) && x.0@ == m && crate::model::strs(x.1@) == p,
                Err(msg) => r matches Err(e) && is_parse_error(e, msg),
            },
    {
        let ghost evs = events_view(events@);
        let mut st = Fb2Exec {
            metadata: Vec::new(),
            pages: Vec::new(),
            page: Vec::new(),
            text: Vec::new(),
            f: Fb2Flags {
                description: false,
                title_info: false,
                body: false,
                section: false,
                title: false,
                paragraph: false,
                emphasis: false,
                strong: false,
                epigraph: false,
                poem: false,
                stanza: false,
                v: false,
            },
            book_title: Vec::new(),
            authors: Vec::new(),
            author: Vec::new(),
        };
        assert(st@ =~= fb2_initial()) by {
            assert(st.pages.deep_view() =~= Seq::<Seq<char>>::empty());
            assert(st.authors.deep_view() =~= Seq::<Seq<char>>::empty());
        }
        let n = events.len();
        let mut i: usize = 0;
        while i < n
            invariant
                n == events@.len(),
                evs == events_view(events@),
                i <= n,
                fb2_markdown(evs) == fb2_from(evs, i as int, st@),
            decreases n - i,
        {
            assert(evs[i as int] == events@[i as int]@);
            match &events[i] {
                XmlEvent::Eof => {
                    return Ok(Self::finish(&st));
                },
                XmlEvent::Error(m) => {
                    return Err(parse_error("FB2 parse error: ", m.as_slice()));
                },
                XmlEvent::Start { name, attrs } => {
                    fb2_start_exec(&mut st, name.as_slice());
                },
                XmlEvent::End { name } => {
                    fb2_end_exec(&mut st, name.as_slice());
                },
                XmlEvent::Text(t) => {
                    fb2_text_exec(&mut st, t.as_slice());
                },
                _ => {},
            }
            i += 1;
        }
        Ok(Self::finish(&st))
    }

    /// The metadata and pages of a state as strings.
    fn finish(st: &Fb2Exec) -> (r: (String, Vec<String>))
        ensures
            r.0@ == st@.metadata,
            crate::model::strs(r.1@) == st@.pages,
    {
        let mut pages: Vec<String> = Vec::new();
        let mut k: usize = 0;
        while k < st.pages.len()
            invariant
                k <= st.pages@.len(),
                pages@.len() == k,
                forall|j: int| 0 <= j < k ==> (#[trigger] pages@[j])@ == st.pages@[j]@,
            decreases st.pages@.len() - k,
        {
            pages.push(to_string(st.pages[k].as_slice()));
            k += 1;
        }
        assert forall|j: int| 0 <= j < k implies #[trigger] crate::model::strs(pages@)[j] == st.pages.deep_view()[j] by {
            crate::text::lemma_chars_deep_view(st.pages@[j]);
        }
        assert(crate::model::strs(pages@) =~= st.pages.deep_view());
        (to_string(st.metadata.as_slice()), pages)
    }

    /// The metadata and section pages of an FB2 text.
    pub fn fb2_to_markdown(content: &str) -> (r: Result<(String, Vec<String>), MarkitdownError>)
        ensures
            match fb2_markdown(xml_events(content@)) {
                Ok((m, p)) => r matches Ok(x) && x.0@ == m && crate::model::strs(x.1@) == p,
                Err(msg) => r matches Err(e) && is_parse_error(e, msg),
            },
    {
        let events = read_xml_events(content);
        Self::fb2_events_to_markdown(&events)
    }

    /// Converts FB2 bytes (decoded as UTF-8, invalid sequences replaced) to a
    /// document: a metadata page 0, if there is metadata, then one page per
    /// section.
    pub fn convert_bytes(&self, bytes: &[u8]) -> (r: Result<Document, MarkitdownError>)
        ensures
            match fb2_markdown(xml_events(utf8_lossy(bytes@))) {
                Ok((m, p)) => r matches Ok(d) && d@ == fb2_document(m, p),
                Err(msg) => r matches Err(e) && is_parse_error(e, msg),
            },
    {
        let content = to_string(from_utf8_lossy(bytes).as_slice());
        let (metadata, pages) = match Self::fb2_to_markdown(content.as_str()) {
            Ok(x) => x,
            Err(e) => {
                return Err(e);
            },
        };
        let ghost pv = crate::model::strs(pages@);
        let ghost target = fb2_document(metadata@, pv).pages;
        let mut document = Document::new();
        let mut head: usize = 0;
        if metadata.as_str().unicode_len() > 0 {
            let mut meta_page = Page::new(0);
            meta_page.add_content(ContentBlock::Markdown(metadata.clone()));
            assert(meta_page@.content =~= seq![BlockView::Markdown(metadata@)]);
            document.add_page(meta_page);
            head = 1;
        }
        assert(pv.len() == pages@.len());
        assert(target.len() == head + pv.len());
        assert(pages_of(document.pages@) =~= target.take(head as int));
        let mut i: usize = 0;
        while i < pages.len()
            invariant
                i <= pages@.len(),
                pv == crate::model::strs(pages@),
                target == fb2_document(metadata@, pv).pages,
                head == (if metadata@.len() > 0 { 1int } else { 0int }),
                target.len() == head + pv.len(),
                pv.len() == pages@.len(),
                document.title is None,
                document.metadata@.len() == 0,
                pages_of(document.pages@) == target.take(head + i),
            decreases pages@.len() - i,
        {
            let mut page = Page::new(#[verifier::truncate] ((i + 1) as u32));
            page.add_content(ContentBlock::Markdown(pages[i].clone()));
            assert(page@ == target[head + i]) by {
                assert(page@.content =~= seq![BlockView::Markdown(pv[i as int])]);
            }
            let ghost before = document.pages@;
            document.add_page(page);
            assert(pages_of(document.pages@) =~= pages_of(before).push(target[head + i]));
            assert(target.take(head + i + 1) =~= target.take(head + i).push(target[head + i]));
            i += 1;
        }
        assert(target.take(head + i) =~= target);
        assert(document@.metadata =~= Seq::<(Seq<char>, Seq<char>)>::empty());
        assert(document@.pages == target);
        assert(document@ =~= fb2_document(metadata@, pv));
        Ok(document)
    }
}

impl DocumentConverter for FictionBookConverter {
    open spec fn extensions(&self) -> Seq<Seq<char>> {
        seq![".fb2"@]
    }

    fn supported_extensions(&self) -> (r: Vec<&'static str>) {
        let r = vec![".fb2"];
        assert(ext_views(r@) =~= self.extensions());
        r
    }
}

} // verus!
