//! DocBook XML to Markdown: titles, paragraphs (as list items inside
//! lists), inline code, emphasis and links, code blocks and quotes.
use vstd::prelude::*;
use crate::chars::{from_utf8_lossy, to_string, utf8_lossy};
use crate::error::{is_parse_error, parse_error, MarkitdownError};
use crate::model::{ext_views, is_markdown_doc, markdown_document, Document, DocumentConverter};
use crate::text::{extend_chars, extend_str, is_blank, push_repeat, repeat_char, trim, trim_chars};
use crate::xml::{
    attr_last, attrs_view, events_view, is_final, last_attr_value, name_is, read_xml_events, xml_events,
    XmlEvent, XmlEventView,
};

verus! {

/// DocBook converter.
pub struct DocBookConverter;

/// The state of a DocBook conversion: the Markdown so far, the texts being
/// collected for open titles and paragraphs, and the open inline and list
/// elements.
pub struct DbState {
    pub result: Seq<char>,
    pub stack: Seq<Seq<char>>,
    pub in_para: bool,
    pub in_emphasis: bool,
    pub role: Seq<char>,
    pub in_code: bool,
    pub in_link: bool,
    pub url: Seq<char>,
    pub list_depth: nat,
    pub in_listitem: bool,
}

/// The state before the first event.
pub open spec fn db_initial() -> DbState {
    DbState {
        result: seq![],
        stack: seq![],
        in_para: false,
        in_emphasis: false,
        role: seq![],
        in_code: false,
        in_link: false,
        url: seq![],
        list_depth: 0,
        in_listitem: false,
    }
}

/// Text as formatted inside the open inline elements: code, else emphasis
/// (bold for the roles `bold` and `strong`), else a link with a URL.
pub open spec fn db_format(st: DbState, t: Seq<char>) -> Seq<char> {
    if st.in_code {
        "`"@ + t + "`"@
    } else if st.in_emphasis {
        if st.role == "bold"@ || st.role == "strong"@ {
            "**"@ + t + "**"@
        } else {
            "*"@ + t + "*"@
        }
    } else if st.in_link && st.url.len() > 0 {
        "["@ + t + "]("@ + st.url + ")"@
    } else {
        t
    }
}

/// The list item prefix of a paragraph: an indented `- ` inside a list item.
pub open spec fn db_prefix(st: DbState) -> Seq<char> {
    if st.in_listitem && st.list_depth > 0 {
        repeat_char(' ', 2 * ((st.list_depth - 1) as nat)) + "- "@
    } else {
        seq![]
    }
}

/// The state after a start tag.
pub open spec fn db_start(st: DbState, name: Seq<char>, attrs: Seq<crate::xml::AttrView>) -> DbState {
    if name == "title"@ {
        DbState { stack: st.stack.push(seq![]), ..st }
    } else if name == "para"@ || name == "simpara"@ {
        DbState { in_para: true, stack: st.stack.push(seq![]), ..st }
    } else if name == "emphasis"@ {
        DbState { in_emphasis: true, role: attr_last(attrs, seq!["role"@], st.role), ..st }
    } else if name == "literal"@ || name == "code"@ || name == "computeroutput"@ {
        DbState { in_code: true, ..st }
    } else if name == "link"@ || name == "ulink"@ || name == "xref"@ {
        DbState {
            in_link: true,
            url: attr_last(attrs, seq!["url"@, "xlink:href"@, "linkend"@], st.url),
            ..st
        }
    } else if name == "itemizedlist"@ || name == "orderedlist"@ || name == "variablelist"@ {
        DbState { list_depth: st.list_depth + 1, ..st }
    } else if name == "listitem"@ {
        DbState { in_listitem: true, ..st }
    } else if name == "programlisting"@ || name == "screen"@ || name == "literallayout"@ {
        DbState { result: st.result + "```\n"@, ..st }
    } else if name == "blockquote"@ {
        DbState { result: st.result + "> "@, ..st }
    } else {
        st
    }
}

/// The state after an end tag.
pub open spec fn db_end(st: DbState, name: Seq<char>) -> DbState {
    if name == "title"@ {
        if st.stack.len() > 0 {
            DbState {
                result: st.result + "## "@ + trim(st.stack.last()) + "\n\n"@,
                stack: st.stack.drop_last(),
                ..st
            }
        } else {
            st
        }
    } else if name == "para"@ || name == "simpara"@ {
        if st.stack.len() > 0 {
            DbState {
                result: st.result + db_prefix(st) + trim(st.stack.last()) + "\n\n"@,
                stack: st.stack.drop_last(),
                in_para: false,
                ..st
            }
        } else {
            DbState { in_para: false, ..st }
        }
    } else if name == "emphasis"@ {
        DbState { in_emphasis: false, role: seq![], ..st }
    } else if name == "literal"@ || name == "code"@ || name == "computeroutput"@ {
        DbState { in_code: false, ..st }
    } else if name == "link"@ || name == "ulink"@ || name == "xref"@ {
        DbState { in_link: false, url: seq![], ..st }
    } else if name == "itemizedlist"@ || name == "orderedlist"@ || name == "variablelist"@ {
        DbState { list_depth: if st.list_depth > 0 { (st.list_depth - 1) as nat } else { 0 }, ..st }
    } else if name == "listitem"@ {
        DbState { in_listitem: false, ..st }
    } else if name == "programlisting"@ || name == "screen"@ || name == "literallayout"@ {
        DbState { result: st.result + "```\n\n"@, ..st }
    } else {
        st
    }
}

/// The state after a text: the formatted text goes to the innermost open
/// title or paragraph, else to the Markdown inside a paragraph or when it is
/// not blank.
pub open spec fn db_text(st: DbState, t: Seq<char>) -> DbState {
    let f = db_format(st, t);
    if st.stack.len() > 0 {
        DbState { stack: st.stack.update(st.stack.len() - 1, st.stack.last() + f), ..st }
    } else if st.in_para || trim(f).len() > 0 {
        DbState { result: st.result + f, ..st }
    } else {
        st
    }
}

/// The state after an event other than the end of input or an error.
pub open spec fn db_step(st: DbState, e: XmlEventView) -> DbState {
    match e {
        XmlEventView::Start { name, attrs } => db_start(st, name, attrs),
        XmlEventView::End { name } => db_end(st, name),
        XmlEventView::Text(t) => db_text(st, t),
        _ => st,
    }
}

/// The Markdown of the events from `i` on, or the message of a parse error.
pub open spec fn db_from(evs: Seq<XmlEventView>, i: int, st: DbState) -> Result<Seq<char>, Seq<char>>
    decreases evs.len() - i,
{
    if i < 0 || i >= evs.len() {
        Ok(st.result)
    } else {
        match evs[i] {
            XmlEventView::Eof => Ok(st.result),
            XmlEventView::Error(m) => Err("DocBook parse error: "@ + m),
            e => db_from(evs, i + 1, db_step(st, e)),
        }
    }
}

/// The Markdown of a DocBook event stream, or the message of its parse
/// error.
pub open spec fn docbook_markdown(evs: Seq<XmlEventView>) -> Result<Seq<char>, Seq<char>> {
    db_from(evs, 0, db_initial())
}

/// The running state of a conversion.
struct DbExec {
    result: Vec<char>,
    stack: Vec<Vec<char>>,
    in_para: bool,
    in_emphasis: bool,
    role: Vec<char>,
    in_code: bool,
    in_link: bool,
    url: Vec<char>,
    list_depth: usize,
    in_listitem: bool,
}

impl View for DbExec {
    type V = DbState;

    closed spec fn view(&self) -> DbState {
        DbState {
            result: self.result@,
            stack: self.stack.deep_view(),
            in_para: self.in_para,
            in_emphasis: self.in_emphasis,
            role: self.role@,
            in_code: self.in_code,
            in_link: self.in_link,
            url: self.url@,
            list_depth: self.list_depth as nat,
            in_listitem: self.in_listitem,
        }
    }
}

/// Formats a text inside the open inline elements.
fn db_format_exec(st: &DbExec, t: &[char]) -> (r: Vec<char>)
    ensures
        r@ == db_format(st@, t@),
{
    let mut out: Vec<char> = Vec::new();
    if st.in_code {
        extend_str(&mut out, "`");
        extend_chars(&mut out, t);
        extend_str(&mut out, "`");
    } else if st.in_emphasis {
        if crate::xml::name_is(st.role.as_slice(), "bold") || crate::xml::name_is(st.role.as_slice(), "strong") {
            extend_str(&mut out, "**");
            extend_chars(&mut out, t);
            extend_str(&mut out, "**");
        } else {
            extend_str(&mut out, "*");
            extend_chars(&mut out, t);
            extend_str(&mut out, "*");
        }
    } else if st.in_link && st.url.len() > 0 {
        extend_str(&mut out, "[");
        extend_chars(&mut out, t);
        extend_str(&mut out, "](");
        extend_chars(&mut out, st.url.as_slice());
        extend_str(&mut out, ")");
    } else {
        extend_chars(&mut out, t);
    }
    assert(out@ =~= db_format(st@, t@));
    out
}

/// Removes the innermost open text.
fn pop_text(stack: &mut Vec<Vec<char>>) -> (r: Vec<char>)
    requires
        old(stack)@.len() > 0,
    ensures
        r@ == old(stack).deep_view().last(),
        final(stack).deep_view() == old(stack).deep_view().drop_last(),
{
    let ghost before = stack.deep_view();
    let r = stack.pop().unwrap();
    proof {
        crate::text::lemma_chars_deep_view(r);
    }
    assert(stack.deep_view() =~= before.drop_last());
    r
}

/// Adds text to the innermost open text.
fn append_to_last(stack: &mut Vec<Vec<char>>, f: &[char])
    requires
        old(stack)@.len() > 0,
    ensures
        final(stack).deep_view() == old(stack).deep_view().update(
            old(stack).deep_view().len() - 1,
            old(stack).deep_view().last() + f@,
        ),
{
    let ghost before = stack.deep_view();
    let mut last = stack.pop().unwrap();
    proof {
        crate::text::lemma_chars_deep_view(last);
    }
    extend_chars(&mut last, f);
    let ghost mid = stack.deep_view();
    stack.push(last);
    proof {
        crate::text::lemma_chars_deep_view(last);
    }
    assert(stack.deep_view() =~= before.update(before.len() - 1, before.last() + f@));
}

/// Pushes an empty open text.
fn push_empty(stack: &mut Vec<Vec<char>>)
    ensures
        final(stack).deep_view() == old(stack).deep_view().push(seq![]),
{
    let ghost before = stack.deep_view();
    let e: Vec<char> = Vec::new();
    stack.push(e);
    proof {
        crate::text::lemma_push_line(before, stack@, e);
    }
    assert(stack.deep_view() =~= before.push(seq![]));
}

/// Appends `2 * k` spaces.
fn push_indent(out: &mut Vec<char>, k: usize)
    ensures
        final(out)@ == old(out)@ + repeat_char(' ', 2 * (k as nat)),
{
    let ghost start = out@;
    let mut i: usize = 0;
    while i < k
        invariant
            i <= k,
            out@ == start + repeat_char(' ', 2 * (i as nat)),
        decreases k - i,
    {
        out.push(' ');
        out.push(' ');
        i += 1;
        assert(out@ =~= start + repeat_char(' ', 2 * (i as nat)));
    }
}

/// Appends the closed title or paragraph text with its prefix.
fn close_text(st: &mut DbExec, heading: bool)
    requires
        old(st).stack@.len() > 0,
    ensures
        final(st)@ == (DbState {
            result: old(st)@.result + (if heading {
                "## "@
            } else {
                db_prefix(old(st)@)
            }) + trim(old(st)@.stack.last()) + "\n\n"@,
            stack: old(st)@.stack.drop_last(),
            ..old(st)@
        }),
{
    let ghost s0 = st@;
    let text = pop_text(&mut st.stack);
    let t = trim_chars(text.as_slice());
    let ghost r0 = st.result@;
    if heading {
        extend_str(&mut st.result, "## ");
    } else if st.in_listitem && st.list_depth > 0 {
        push_indent(&mut st.result, st.list_depth - 1);
        extend_str(&mut st.result, "- ");
    }
    assert(st.result@ =~= r0 + (if heading {
        "## "@
    } else {
        db_prefix(s0)
    }));
    extend_chars(&mut st.result, t.as_slice());
    extend_str(&mut st.result, "\n\n");
    assert(st@ =~= (DbState {
        result: s0.result + (if heading {
            "## "@
        } else {
            db_prefix(s0)
        }) + trim(s0.stack.last()) + "\n\n"@,
        stack: s0.stack.drop_last(),
        ..s0
    }));
}

/// Applies an event other than the end of input or an error.
fn db_step_exec(st: &mut DbExec, e: &XmlEvent)
    requires
        !is_final(e@),
        old(st).list_depth < usize::MAX,
    ensures
        final(st)@ == db_step(old(st)@, e@),
        final(st).list_depth <= old(st).list_depth + 1,
{
    let ghost s0 = st@;
    match e {
        XmlEvent::Start { name, attrs } => {
            let n = name.as_slice();
            if name_is(n, "title") {
                push_empty(&mut st.stack);
            } else if name_is(n, "para") || name_is(n, "simpara") {
                st.in_para = true;
                push_empty(&mut st.stack);
            } else if name_is(n, "emphasis") {
                st.in_emphasis = true;
                let mut role: Vec<char> = Vec::new();
                std::mem::swap(&mut role, &mut st.role);
                let keys = vec!["role"];
                assert(ext_views(keys@) =~= seq!["role"@]);
                st.role = last_attr_value(attrs, keys.as_slice(), role);
            } else if name_is(n, "literal") || name_is(n, "code") || name_is(n, "computeroutput") {
                st.in_code = true;
            } else if name_is(n, "link") || name_is(n, "ulink") || name_is(n, "xref") {
                st.in_link = true;
                let mut url: Vec<char> = Vec::new();
                std::mem::swap(&mut url, &mut st.url);
                let keys = vec!["url", "xlink:href", "linkend"];
                assert(ext_views(keys@) =~= seq!["url"@, "xlink:href"@, "linkend"@]);
                st.url = last_attr_value(attrs, keys.as_slice(), url);
            } else if name_is(n, "itemizedlist") || name_is(n, "orderedlist") || name_is(n, "variablelist") {
                st.list_depth = st.list_depth + 1;
            } else if name_is(n, "listitem") {
                st.in_listitem = true;
            } else if name_is(n, "programlisting") || name_is(n, "screen") || name_is(n, "literallayout") {
                extend_str(&mut st.result, "```\n");
            } else if name_is(n, "blockquote") {
                extend_str(&mut st.result, "> ");
            }
            assert(st@ =~= db_step(s0, e@));
        },
        XmlEvent::End { name } => {
            let n = name.as_slice();
            if name_is(n, "title") {
                if st.stack.len() > 0 {
                    close_text(st, true);
                }
            } else if name_is(n, "para") || name_is(n, "simpara") {
                if st.stack.len() > 0 {
                    close_text(st, false);
                }
                st.in_para = false;
            } else if name_is(n, "emphasis") {
                st.in_emphasis = false;
                st.role = Vec::new();
            } else if name_is(n, "literal") || name_is(n, "code") || name_is(n, "computeroutput") {
                st.in_code = false;
            } else if name_is(n, "link") || name_is(n, "ulink") || name_is(n, "xref") {
                st.in_link = false;
                st.url = Vec::new();
            } else if name_is(n, "itemizedlist") || name_is(n, "orderedlist") || name_is(n, "variablelist") {
                if st.list_depth > 0 {
                    st.list_depth = st.list_depth - 1;
                }
            } else if name_is(n, "listitem") {
                st.in_listitem = false;
            } else if name_is(n, "programlisting") || name_is(n, "screen") || name_is(n, "literallayout") {
                extend_str(&mut st.result, "```\n\n");
            }
            assert(st@ =~= db_step(s0, e@));
        },
        XmlEvent::Text(t) => {
            let f = db_format_exec(st, t.as_slice());
            if st.stack.len() > 0 {
                append_to_last(&mut st.stack, f.as_slice());
            } else if st.in_para || !is_blank(f.as_slice()) {
                extend_chars(&mut st.result, f.as_slice());
            }
            assert(st@ =~= db_step(s0, e@));
        },
        _ => {},
    }
}

impl DocBookConverter {
    /// Converts the events of a DocBook text to Markdown; a parse error
    /// gives `DocBook parse error: ` and its message.
    pub fn docbook_events_to_markdown(events: &Vec<XmlEvent>) -> (r: Result<String, MarkitdownError>)
        ensures
            match docbook_markdown(events_view(events@)) {
                Ok(md) => r matches Ok(s) && s@ == md,
                Err(m) => r matches Err(e) && is_parse_error(e, m),
            },
    {
        let ghost evs = events_view(events@);
        let mut st = DbExec {
            result: Vec::new(),
            stack: Vec::new(),
            in_para: false,
            in_emphasis: false,
            role: Vec::new(),
            in_code: false,
            in_link: false,
            url: Vec::new(),
            list_depth: 0,
            in_listitem: false,
        };
        assert(st@ =~= db_initial()) by {
            assert(st.stack.deep_view() =~= Seq::<Seq<char>>::empty());
        }
        let n = events.len();
        let mut i: usize = 0;
        while i < n
            invariant
                n == events@.len(),
                evs == events_view(events@),
                i <= n,
                st.list_depth <= i,
                docbook_markdown(evs) == db_from(evs, i as int, st@),
            decreases n - i,
        {
            assert(evs[i as int] == events@[i as int]@);
            match &events[i] {
                XmlEvent::Eof => {
                    return Ok(to_string(st.result.as_slice()));
                },
                XmlEvent::Error(m) => {
                    return Err(parse_error("DocBook parse error: ", m.as_slice()));
                },
                e => {
                    db_step_exec(&mut st, e);
                },
            }
            i += 1;
        }
        Ok(to_string(st.result.as_slice()))
    }

    /// Converts a DocBook text to Markdown.
    pub fn docbook_to_markdown(content: &str) -> (r: Result<String, MarkitdownError>)
        ensures
            match docbook_markdown(xml_events(content@)) {
                Ok(md) => r matches Ok(s) && s@ == md,
                Err(m) => r matches Err(e) && is_parse_error(e, m),
            },
    {
        let events = read_xml_events(content);
        Self::docbook_events_to_markdown(&events)
    }

    /// Converts DocBook bytes (decoded as UTF-8, invalid sequences replaced)
    /// to a one-page Markdown document.
    pub fn convert_bytes(&self, bytes: &[u8]) -> (r: Result<Document, MarkitdownError>)
        ensures
            match docbook_markdown(xml_events(utf8_lossy(bytes@))) {
                Ok(md) => r matches Ok(d) && is_markdown_doc(d, md),
                Err(m) => r matches Err(e) && is_parse_error(e, m),
            },
    {
        let content = to_string(from_utf8_lossy(bytes).as_slice());
        match Self::docbook_to_markdown(content.as_str()) {
            Ok(md) => Ok(markdown_document(crate::text::chars_of(md.as_str()))),
            Err(e) => Err(e),
        }
    }
}

impl DocumentConverter for DocBookConverter {
    open spec fn extensions(&self) -> Seq<Seq<char>> {
        seq![".docbook"@, ".docbook4"@, ".docbook5"@, ".dbk"@]
    }

    fn supported_extensions(&self) -> (r: Vec<&'static str>) {
        let r = vec![".docbook", ".docbook4", ".docbook5", ".dbk"];
        assert(ext_views(r@) =~= self.extensions());
        r
    }
}

} // verus!
