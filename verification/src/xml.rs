//! XML events as plain values, read with quick-xml, for the converters of
//! XML-based formats.
use vstd::prelude::*;
use crate::text::chars_eq_str;
use quick_xml::events::Event;

verus! {

/// An attribute as read: its key, and its unescaped value (`None` where the
/// value could not be unescaped).
pub struct XmlAttr {
    pub key: Vec<char>,
    pub value: Option<Vec<char>>,
}

/// An XML event. Attributes that could not be parsed are `None`.
pub enum XmlEvent {
    Start { name: Vec<char>, attrs: Vec<Option<XmlAttr>> },
    Empty { name: Vec<char>, attrs: Vec<Option<XmlAttr>> },
    End { name: Vec<char> },
    Text(Vec<char>),
    /// Any other event (comment, CDATA, declaration, processing
    /// instruction, document type, entity reference).
    Other,
    Eof,
    Error(Vec<char>),
}

/// The view of an attribute slot.
pub type AttrView = Option<(Seq<char>, Option<Seq<char>>)>;

/// The view of an optional attribute.
pub open spec fn attr_view(a: Option<XmlAttr>) -> AttrView {
    match a {
        Some(x) => Some(
            (
                x.key@,
                match x.value {
                    Some(v) => Some(v@),
                    None => None,
                },
            ),
        ),
        None => None,
    }
}

/// The views of attribute slots.
pub open spec fn attrs_view(v: Seq<Option<XmlAttr>>) -> Seq<AttrView> {
    v.map_values(|a: Option<XmlAttr>| attr_view(a))
}

/// The mathematical content of an [`XmlEvent`].
pub enum XmlEventView {
    Start { name: Seq<char>, attrs: Seq<AttrView> },
    Empty { name: Seq<char>, attrs: Seq<AttrView> },
    End { name: Seq<char> },
    Text(Seq<char>),
    Other,
    Eof,
    Error(Seq<char>),
}

impl View for XmlEvent {
    type V = XmlEventView;

    open spec fn view(&self) -> XmlEventView {
        match self {
            XmlEvent::Start { name, attrs } => XmlEventView::Start { name: name@, attrs: attrs_view(attrs@) },
            XmlEvent::Empty { name, attrs } => XmlEventView::Empty { name: name@, attrs: attrs_view(attrs@) },
            XmlEvent::End { name } => XmlEventView::End { name: name@ },
            XmlEvent::Text(t) => XmlEventView::Text(t@),
            XmlEvent::Other => XmlEventView::Other,
            XmlEvent::Eof => XmlEventView::Eof,
            XmlEvent::Error(e) => XmlEventView::Error(e@),
        }
    }
}

/// The views of events.
pub open spec fn events_view(v: Seq<XmlEvent>) -> Seq<XmlEventView> {
    v.map_values(|e: XmlEvent| e@)
}

/// The end of the event stream: end of input or an error.
pub open spec fn is_final(e: XmlEventView) -> bool {
    e is Eof || e is Error
}

/// A stream of events that ends with its first end of input or error.
pub open spec fn well_ended(s: Seq<XmlEventView>) -> bool {
    &&& s.len() > 0
    &&& is_final(s.last())
    &&& forall|i: int| 0 <= i < s.len() - 1 ==> !is_final(#[trigger] s[i])
}

#[verifier::external_type_specification]
#[verifier::external_body]
#[verifier::reject_recursive_types(R)]
pub struct ExXmlReader<R>(quick_xml::Reader<R>);

#[verifier::external_type_specification]
#[verifier::external_body]
pub struct ExBytesStart<'i>(quick_xml::events::BytesStart<'i>);

/// The events a reader has still to yield, up to and including the first
/// end of input or error.
pub uninterp spec fn pending_events(r: quick_xml::Reader<&[u8]>) -> Seq<XmlEventView>;

/// The events that quick-xml reads from the text with text trimming on, up
/// to and including the first end of input or error.
pub uninterp spec fn xml_events(content: Seq<char>) -> Seq<XmlEventView>;

/// Calls `quick_xml::Reader::from_str` and turns text trimming on. The reader
/// yields the events of [`xml_events`]; a reader of a finite text comes to an
/// end of input or an error.
#[verifier::external_body]
fn open_reader(content: &str) -> (r: quick_xml::Reader<&[u8]>)
    ensures
        pending_events(r) == xml_events(content@),
        well_ended(pending_events(r)),
{
    let mut reader = quick_xml::Reader::from_str(content);
    reader.config_mut().trim_text(true);
    reader
}

/// The name and attributes of a start tag (`BytesStart::name`,
/// `BytesStart::attributes`, `Attribute::normalized_value` for XML 1.0),
/// converted.
#[verifier::external_body]
fn start_tag(e: &quick_xml::events::BytesStart, empty: bool) -> (r: XmlEvent) {
    let name: Vec<char> = e.name().as_ref().chars().collect();
    let attrs: Vec<Option<XmlAttr>> = e.attributes().map(|a| a.ok().map(|a| XmlAttr {
        key: a.key.as_ref().chars().collect(),
        value: a.normalized_value(quick_xml::XmlVersion::Implicit1_0).ok().map(|v| v.chars().collect()),
    })).collect();
    if empty {
        XmlEvent::Empty { name, attrs }
    } else {
        XmlEvent::Start { name, attrs }
    }
}

/// Calls `quick_xml::Reader::read_event`: the next pending event, converted.
#[verifier::external_body]
fn next_event(reader: &mut quick_xml::Reader<&[u8]>) -> (r: XmlEvent)
    requires
        pending_events(*old(reader)).len() > 0,
    ensures
        r@ == pending_events(*old(reader))[0],
        pending_events(*final(reader)) == pending_events(*old(reader)).drop_first(),
{
    match reader.read_event() {
        Ok(Event::Start(e)) => start_tag(&e, false),
        Ok(Event::Empty(e)) => start_tag(&e, true),
        Ok(Event::End(e)) => XmlEvent::End { name: e.name().as_ref().chars().collect() },
        Ok(Event::Text(e)) => XmlEvent::Text(e.chars().collect()),
        Ok(Event::Eof) => XmlEvent::Eof,
        Ok(_) => XmlEvent::Other,
        Err(e) => XmlEvent::Error(e.to_string().chars().collect()),
    }
}

/// The events of the text (see [`xml_events`]).
pub fn read_xml_events(content: &str) -> (r: Vec<XmlEvent>)
    ensures
        events_view(r@) == xml_events(content@),
        well_ended(events_view(r@)),
{
    let ghost all = xml_events(content@);
    let mut reader = open_reader(content);
    let mut out: Vec<XmlEvent> = Vec::new();
    let mut done = false;
    while !done
        invariant
            well_ended(all),
            !done ==> all == events_view(out@) + pending_events(reader),
            done ==> all == events_view(out@),
            !done ==> out@.len() < all.len(),
            forall|i: int| 0 <= i < out@.len() ==> !is_final(#[trigger] events_view(out@)[i]) || (done
                && i == out@.len() - 1),
        decreases all.len() - out@.len(),
    {
        let ghost before = out@;
        let ghost pend = pending_events(reader);
        assert(pend.len() > 0);
        let e = next_event(&mut reader);
        let fin = match &e {
            XmlEvent::Eof => true,
            XmlEvent::Error(_) => true,
            _ => false,
        };
        out.push(e);
        assert(events_view(out@) =~= events_view(before).push(pend[0]));
        assert(all == events_view(out@) + pending_events(reader)) by {
            assert(pend =~= seq![pend[0]] + pend.drop_first());
            assert(events_view(before) + pend =~= events_view(out@) + pend.drop_first());
        }
        if fin {
            assert(all[before.len() as int] == pend[0]);
            assert(before.len() == all.len() - 1);
            assert(pend.drop_first().len() == 0);
            done = true;
        }
    }
    out
}

/// Whether the name equals the text.
pub fn name_is(name: &[char], text: &str) -> (r: bool)
    ensures
        r == (name@ == text@),
{
    chars_eq_str(name, text)
}

/// The event at `i`, or the end of input past the last event.
pub open spec fn ev_at(evs: Seq<XmlEventView>, i: int) -> XmlEventView {
    if 0 <= i < evs.len() {
        evs[i]
    } else {
        XmlEventView::Eof
    }
}

/// The name and attributes of a start or empty tag.
pub open spec fn tag_of(e: XmlEventView) -> Option<(Seq<char>, Seq<AttrView>)> {
    match e {
        XmlEventView::Start { name, attrs } => Some((name, attrs)),
        XmlEventView::Empty { name, attrs } => Some((name, attrs)),
        _ => None,
    }
}

/// The value of an attribute, empty where it could not be unescaped.
pub open spec fn value_or_empty(v: Option<Seq<char>>) -> Seq<char> {
    match v {
        Some(x) => x,
        None => seq![],
    }
}

/// The value of the last attribute whose key is one of `keys`, or `cur`
/// when there is none.
pub open spec fn attr_last(attrs: Seq<AttrView>, keys: Seq<Seq<char>>, cur: Seq<char>) -> Seq<char>
    decreases attrs.len(),
{
    if attrs.len() == 0 {
        cur
    } else {
        let c = attr_last(attrs.drop_last(), keys, cur);
        match attrs.last() {
            Some((k, v)) => if keys.contains(k) {
                value_or_empty(v)
            } else {
                c
            },
            None => c,
        }
    }
}

/// Whether the name is one of the keys.
pub fn name_in(name: &[char], keys: &[&str]) -> (r: bool)
    ensures
        r == crate::model::ext_views(keys@).contains(name@),
{
    let mut i: usize = 0;
    while i < keys.len()
        invariant
            i <= keys@.len(),
            forall|j: int| 0 <= j < i ==> #[trigger] crate::model::ext_views(keys@)[j] != name@,
        decreases keys@.len() - i,
    {
        if name_is(name, keys[i]) {
            assert(crate::model::ext_views(keys@)[i as int] == name@);
            return true;
        }
        i += 1;
    }
    false
}

/// The value of the last attribute whose key is one of `keys` (empty where
/// it could not be unescaped), or `cur` when there is none.
pub fn last_attr_value(attrs: &Vec<Option<XmlAttr>>, keys: &[&str], cur: Vec<char>) -> (r: Vec<char>)
    ensures
        r@ == attr_last(attrs_view(attrs@), crate::model::ext_views(keys@), cur@),
{
    let ghost av = attrs_view(attrs@);
    let ghost kv = crate::model::ext_views(keys@);
    let ghost c0 = cur@;
    let mut out = cur;
    let mut k: usize = 0;
    while k < attrs.len()
        invariant
            k <= attrs@.len(),
            av == attrs_view(attrs@),
            kv == crate::model::ext_views(keys@),
            out@ == attr_last(av.take(k as int), kv, c0),
        decreases attrs@.len() - k,
    {
        assert(av.take(k + 1).drop_last() =~= av.take(k as int));
        assert(av.take(k + 1).last() == attr_view(attrs@[k as int]));
        match &attrs[k] {
            None => {},
            Some(a) => {
                if name_in(a.key.as_slice(), keys) {
                    out = match &a.value {
                        Some(v) => crate::text::sub_vec(v.as_slice(), 0, v.len()),
                        None => Vec::new(),
                    };
                    proof {
                        if a.value is Some {
                            assert(out@ =~= a.value->0@);
                        }
                    }
                }
            },
        }
        k += 1;
    }
    assert(av.take(k as int) =~= av);
    out
}

} // verus!
