//! OPML outlines to Markdown: nested outline entries as nested list items.
use vstd::prelude::*;
use crate::chars::{from_utf8_lossy, to_string, utf8_lossy};
use crate::error::{is_parse_error, parse_error, MarkitdownError};
use crate::model::{ext_views, markdown_document, is_markdown_doc, Document, DocumentConverter};
use crate::text::{extend_chars, extend_str, push_repeat, repeat_char};
use crate::xml::{
    events_view, ev_at, name_is, read_xml_events, tag_of, value_or_empty, xml_events, AttrView, XmlAttr,
    XmlEvent, XmlEventView,
};

verus! {

/// OPML converter.
pub struct OpmlConverter;

/// The text, URL and type of an outline entry: the last `text` and `type`
/// attributes and the first non-empty `xmlUrl`, `htmlUrl` or `url`.
pub open spec fn outline_attrs(attrs: Seq<AttrView>) -> (Seq<char>, Seq<char>, Seq<char>)
    decreases attrs.len(),
{
    if attrs.len() == 0 {
        (seq![], seq![], seq![])
    } else {
        let (t, u, ty) = outline_attrs(attrs.drop_last());
        match attrs.last() {
            None => (t, u, ty),
            Some((k, v)) => {
                let val = value_or_empty(v);
                if k == "text"@ {
                    (val, u, ty)
                } else if k == "xmlUrl"@ || k == "htmlUrl"@ || k == "url"@ {
                    (t, if u.len() == 0 {
                        val
                    } else {
                        u
                    }, ty)
                } else if k == "type"@ {
                    (t, u, val)
                } else {
                    (t, u, ty)
                }
            },
        }
    }
}

/// The Markdown of an outline entry at nesting `depth`: a list item (a link
/// when there is a URL), and its type unless it is `rss`; nothing without
/// text.
pub open spec fn outline_md(depth: nat, text: Seq<char>, url: Seq<char>, ty: Seq<char>) -> Seq<char> {
    let indent = repeat_char(' ', 2 * depth);
    if text.len() == 0 {
        seq![]
    } else {
        (if url.len() > 0 {
            indent + "- ["@ + text + "]("@ + url + ")\n"@
        } else {
            indent + "- "@ + text + "\n"@
        }) + (if ty.len() > 0 && ty != "rss"@ {
            indent + "  *Type: "@ + ty + "*\n"@
        } else {
            seq![]
        })
    }
}

/// Reading the events from `i` with the Markdown, title and nesting so far:
/// a `title` tag takes the title from the text that follows it; an
/// `outline` tag adds its entry and nests deeper when the event after it is
/// a start tag rather than a self-closing one; a `body` tag adds the title as a
/// heading; an `outline` end tag nests shallower; the end of input gives the
/// Markdown and an error gives its message.
pub open spec fn opml_from(
    evs: Seq<XmlEventView>,
    i: int,
    result: Seq<char>,
    title: Seq<char>,
    depth: nat,
) -> Result<Seq<char>, Seq<char>>
    decreases evs.len() + 1 - i,
{
    if i < 0 || i >= evs.len() {
        Ok(result)
    } else {
        let e = evs[i];
        match tag_of(e) {
            Some((name, attrs)) => {
                if name == "title"@ {
                    let t = match ev_at(evs, i + 1) {
                        XmlEventView::Text(x) => x,
                        _ => title,
                    };
                    opml_from(evs, i + 2, result, t, depth)
                } else if name == "outline"@ {
                    let (text, url, ty) = outline_attrs(attrs);
                    let d = if e is Start {
                        depth + 1
                    } else {
                        depth
                    };
                    opml_from(evs, i + 1, result + outline_md(depth, text, url, ty), title, d)
                } else if name == "body"@ {
                    let h = if title.len() > 0 {
                        "# "@ + title + "\n\n"@
                    } else {
                        seq![]
                    };
                    opml_from(evs, i + 1, result + h, title, depth)
                } else {
                    opml_from(evs, i + 1, result, title, depth)
                }
            },
            None => match e {
                XmlEventView::End { name } => {
                    if name == "outline"@ && depth > 0 {
                        opml_from(evs, i + 1, result, title, (depth - 1) as nat)
                    } else {
                        opml_from(evs, i + 1, result, title, depth)
                    }
                },
                XmlEventView::Eof => Ok(result),
                XmlEventView::Error(m) => Err("OPML parse error: "@ + m),
                _ => opml_from(evs, i + 1, result, title, depth),
            },
        }
    }
}

/// The Markdown of an OPML event stream, or the message of its parse
/// error.
pub open spec fn opml_markdown(evs: Seq<XmlEventView>) -> Result<Seq<char>, Seq<char>> {
    opml_from(evs, 0, seq![], seq![], 0)
}

/// The text, URL and type attributes of an outline entry.
fn read_outline_attrs(attrs: &Vec<Option<XmlAttr>>) -> (r: (Vec<char>, Vec<char>, Vec<char>))
    ensures
        (r.0@, r.1@, r.2@) == outline_attrs(crate::xml::attrs_view(attrs@)),
{
    let ghost av = crate::xml::attrs_view(attrs@);
    let mut text: Vec<char> = Vec::new();
    let mut url: Vec<char> = Vec::new();
    let mut ty: Vec<char> = Vec::new();
    let mut k: usize = 0;
    while k < attrs.len()
        invariant
            k <= attrs@.len(),
            av == crate::xml::attrs_view(attrs@),
            (text@, url@, ty@) == outline_attrs(av.take(k as int)),
        decreases attrs@.len() - k,
    {
        assert(av.take(k + 1).drop_last() =~= av.take(k as int));
        assert(av.take(k + 1).last() == crate::xml::attr_view(attrs@[k as int]));
        match &attrs[k] {
            None => {},
            Some(a) => {
                let val: Vec<char> = match &a.value {
                    Some(v) => crate::text::sub_vec(v.as_slice(), 0, v.len()),
                    None => Vec::new(),
                };
                proof {
                    if a.value is Some {
                        assert(val@ =~= a.value->0@);
                    }
                }
                if name_is(a.key.as_slice(), "text") {
                    text = val;
                } else if name_is(a.key.as_slice(), "xmlUrl") || name_is(a.key.as_slice(), "htmlUrl")
                    || name_is(a.key.as_slice(), "url") {
                    if url.len() == 0 {
                        url = val;
                    }
                } else if name_is(a.key.as_slice(), "type") {
                    ty = val;
                }
            },
        }
        k += 1;
    }
    assert(av.take(k as int) =~= av);
    (text, url, ty)
}

/// Appends the Markdown of an outline entry.
fn push_indent(out: &mut Vec<char>, depth: usize)
    ensures
        final(out)@ == old(out)@ + repeat_char(' ', 2 * depth as nat),
{
    let ghost start = out@;
    let mut k: usize = 0;
    while k < depth
        invariant
            k <= depth,
            out@ =~= start + repeat_char(' ', 2 * k as nat),
        decreases depth - k,
    {
        out.push(' ');
        out.push(' ');
        k += 1;
    }
}

fn push_outline(out: &mut Vec<char>, depth: usize, text: &Vec<char>, url: &Vec<char>, ty: &Vec<char>)
    ensures
        final(out)@ == old(out)@ + outline_md(depth as nat, text@, url@, ty@),
{
    let ghost start = out@;
    if text.len() == 0 {
        assert(out@ =~= start + outline_md(depth as nat, text@, url@, ty@));
        return;
    }
    push_indent(out, depth);
    if url.len() > 0 {
        extend_str(out, "- [");
        extend_chars(out, text.as_slice());
        extend_str(out, "](");
        extend_chars(out, url.as_slice());
        extend_str(out, ")\n");
    } else {
        extend_str(out, "- ");
        extend_chars(out, text.as_slice());
        extend_str(out, "\n");
    }
    let ghost mid = out@;
    if ty.len() > 0 && !name_is(ty.as_slice(), "rss") {
        push_indent(out, depth);
        extend_str(out, "  *Type: ");
        extend_chars(out, ty.as_slice());
        extend_str(out, "*\n");
    }
    assert(out@ =~= start + outline_md(depth as nat, text@, url@, ty@));
}

impl OpmlConverter {
    /// Converts the events of an OPML text to Markdown; a parse error gives
    /// `OPML parse error: ` and its message.
    pub fn opml_events_to_markdown(events: &Vec<XmlEvent>) -> (r: Result<String, MarkitdownError>)
        ensures
            match opml_markdown(events_view(events@)) {
                Ok(md) => r matches Ok(s) && s@ == md,
                Err(m) => r matches Err(e) && is_parse_error(e, m),
            },
    {
        let ghost evs = events_view(events@);
        let n = events.len();
        let mut result: Vec<char> = Vec::new();
        let mut title: Vec<char> = Vec::new();
        let mut depth: usize = 0;
        let mut i: usize = 0;
        while i < n
            invariant
                n == events@.len(),
                evs == events_view(events@),
                depth <= i,
                i <= n + 1,
                opml_markdown(evs) == opml_from(evs, i as int, result@, title@, depth as nat),
            decreases n + 1 - i,
        {
            assert(evs[i as int] == events@[i as int]@);
            match &events[i] {
                XmlEvent::Start { name, attrs } => {
                    self::handle_tag(events, i, true, name, attrs, &mut result, &mut title, &mut depth);
                    if name_is(name.as_slice(), "title") {
                        if n - i < 2 {
                            assert(opml_from(evs, i + 2, result@, title@, depth as nat) == opml_from(
                                evs, n as int, result@, title@, depth as nat));
                            i = n;
                        } else {
                            i = i + 2;
                        }
                    } else {
                        i = i + 1;
                    }
                },
                XmlEvent::Empty { name, attrs } => {
                    self::handle_tag(events, i, false, name, attrs, &mut result, &mut title, &mut depth);
                    if name_is(name.as_slice(), "title") {
                        if n - i < 2 {
                            assert(opml_from(evs, i + 2, result@, title@, depth as nat) == opml_from(
                                evs, n as int, result@, title@, depth as nat));
                            i = n;
                        } else {
                            i = i + 2;
                        }
                    } else {
                        i = i + 1;
                    }
                },
                XmlEvent::End { name } => {
                    if name_is(name.as_slice(), "outline") && depth > 0 {
                        depth = depth - 1;
                    }
                    i = i + 1;
                },
                XmlEvent::Eof => {
                    return Ok(to_string(result.as_slice()));
                },
                XmlEvent::Error(m) => {
                    return Err(parse_error("OPML parse error: ", m.as_slice()));
                },
                _ => {
                    i = i + 1;
                },
            }
        }
        Ok(to_string(result.as_slice()))
    }

    /// Converts an OPML text to Markdown.
    pub fn opml_to_markdown(content: &str) -> (r: Result<String, MarkitdownError>)
        ensures
            match opml_markdown(xml_events(content@)) {
                Ok(md) => r matches Ok(s) && s@ == md,
                Err(m) => r matches Err(e) && is_parse_error(e, m),
            },
    {
        let events = read_xml_events(content);
        Self::opml_events_to_markdown(&events)
    }

    /// Converts OPML bytes (decoded as UTF-8, invalid sequences replaced)
    /// to a one-page Markdown document.
    pub fn convert_bytes(&self, bytes: &[u8]) -> (r: Result<Document, MarkitdownError>)
        ensures
            match opml_markdown(xml_events(utf8_lossy(bytes@))) {
                Ok(md) => r matches Ok(d) && is_markdown_doc(d, md),
                Err(m) => r matches Err(e) && is_parse_error(e, m),
            },
    {
        let content = to_string(from_utf8_lossy(bytes).as_slice());
        match Self::opml_to_markdown(content.as_str()) {
            Ok(md) => {
                let c = crate::text::chars_of(md.as_str());
                Ok(markdown_document(c))
            },
            Err(e) => Err(e),
        }
    }
}

/// Handles a start or empty tag at `i`.
fn handle_tag(
    events: &Vec<XmlEvent>,
    i: usize,
    is_start: bool,
    name: &Vec<char>,
    attrs: &Vec<Option<XmlAttr>>,
    result: &mut Vec<char>,
    title: &mut Vec<char>,
    depth: &mut usize,
)
    requires
        i < events@.len(),
        tag_of(events@[i as int]@) == Some((name@, crate::xml::attrs_view(attrs@))),
        is_start == (events@[i as int]@ is Start),
        *old(depth) <= i,
    ensures
        ({
            let evs = events_view(events@);
            let step = if name@ == "title"@ {
                2int
            } else {
                1int
            };
            opml_from(evs, i as int, old(result)@, old(title)@, *old(depth) as nat) == opml_from(
                evs,
                i + step,
                final(result)@,
                final(title)@,
                *final(depth) as nat,
            ) && *final(depth) <= i + step
        }),
        name@ == "title"@ ==> *final(depth) == *old(depth),
{
    let ghost evs = events_view(events@);
    let n = events.len();
    assert(evs[i as int] == events@[i as int]@);
    if name_is(name.as_slice(), "title") {
        if i + 1 < n {
            assert(evs[i + 1] == events@[i + 1]@);
            match &events[i + 1] {
                XmlEvent::Text(t) => {
                    *title = crate::text::sub_vec(t.as_slice(), 0, t.len());
                    assert(title@ =~= t@);
                },
                _ => {},
            }
        }
    } else if name_is(name.as_slice(), "outline") {
        let (text, url, ty) = read_outline_attrs(attrs);
        push_outline(result, *depth, &text, &url, &ty);
        if is_start {
            *depth = *depth + 1;
        }
    } else if name_is(name.as_slice(), "body") {
        if title.len() > 0 {
            let ghost before = result@;
            extend_str(result, "# ");
            extend_chars(result, title.as_slice());
            extend_str(result, "\n\n");
            assert(result@ =~= before + ("# "@ + title@ + "\n\n"@));
        } else {
            assert(result@ =~= result@ + Seq::<char>::empty());
        }
    }
}

impl DocumentConverter for OpmlConverter {
    open spec fn extensions(&self) -> Seq<Seq<char>> {
        seq![".opml"@]
    }

    fn supported_extensions(&self) -> (r: Vec<&'static str>) {
        let r = vec![".opml"];
        assert(ext_views(r@) =~= self.extensions());
        r
    }
}

} // verus!
