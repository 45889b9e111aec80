//! RSS and Atom feeds to a document: the feed's title and description,
//! then each entry's title, date and text. Feeds are read by the `feed_rs`
//! crate; entry HTML is turned into Markdown by `html2md`.
use vstd::prelude::*;
use crate::chars::to_string;
use crate::error::{is_parse_error, parse_error, MarkitdownError};
use crate::html::{html_to_markdown, parse_html};
use crate::model::{ext_views, opt_str, BlockView, ContentBlock, DocPageView, Document, DocumentConverter, DocumentView, Page};
use crate::text::{chars_of, extend_str};

verus! {

/// RSS and Atom converter.
pub struct RssConverter;

/// What is shown of a feed entry: title, the update and publication dates
/// (as their `Display` writes them), the HTML body of its content, and its
/// summary, where given.
pub struct EntryInfo {
    pub title: Option<String>,
    pub updated: Option<String>,
    pub body: Option<String>,
    pub published: Option<String>,
    pub summary: Option<String>,
}

/// The mathematical content of an [`EntryInfo`].
pub struct EntryView {
    pub title: Option<Seq<char>>,
    pub updated: Option<Seq<char>>,
    pub body: Option<Seq<char>>,
    pub published: Option<Seq<char>>,
    pub summary: Option<Seq<char>>,
}

impl View for EntryInfo {
    type V = EntryView;

    open spec fn view(&self) -> EntryView {
        EntryView {
            title: opt_str(self.title),
            updated: opt_str(self.updated),
            body: opt_str(self.body),
            published: opt_str(self.published),
            summary: opt_str(self.summary),
        }
    }
}

/// The feed that `feed_rs::parser::parse` reads from the bytes: its title,
/// description, whether it is an Atom feed, and its number of entries; or
/// the message of the error.
pub uninterp spec fn feed_of(data: Seq<u8>) -> Result<(Option<Seq<char>>, Option<Seq<char>>, bool, nat), Seq<char>>;

/// Entry `i` of the parsed feed.
pub uninterp spec fn feed_entry(data: Seq<u8>, i: nat) -> Option<EntryView>;

/// An ASCII digit byte.
pub open spec fn digit_byte(b: u8) -> bool {
    0x30 <= b <= 0x39
}

/// An ASCII whitespace byte (space, tab, line feed, carriage return).
pub open spec fn ws_byte(b: u8) -> bool {
    b == 0x20 || b == 0x09 || b == 0x0A || b == 0x0D
}

/// Scanning the bytes from `i` (with `digits` digits just before, and
/// whether an `@` and a non-ASCII byte were seen since the last whitespace)
/// finds none of: a character reference `&#`; a run of 16 or more digits;
/// an `@` and a non-ASCII byte between the same two whitespace bytes.
pub open spec fn feed_scan(d: Seq<u8>, i: int, digits: nat, at: bool, high: bool) -> bool
    decreases d.len() - i,
{
    if i < 0 || i >= d.len() {
        true
    } else {
        let b = d[i];
        if b == 0x26 && i + 1 < d.len() && d[i + 1] == 0x23 {
            false
        } else if digit_byte(b) && digits + 1 >= 16 {
            false
        } else if ws_byte(b) {
            feed_scan(d, i + 1, 0, false, false)
        } else {
            let at2 = at || b == 0x40;
            let high2 = high || b >= 0x80;
            if at2 && high2 {
                false
            } else {
                feed_scan(
                    d,
                    i + 1,
                    if digit_byte(b) {
                        digits + 1
                    } else {
                        0
                    },
                    at2,
                    high2,
                )
            }
        }
    }
}

/// The bytes `m` stand at position `i`.
pub open spec fn bytes_at(d: Seq<u8>, m: Seq<u8>, i: int) -> bool {
    0 <= i && i + m.len() <= d.len() && d.subrange(i, i + m.len()) == m
}

/// The bytes `m` stand somewhere in `d`.
pub open spec fn contains_bytes(d: Seq<u8>, m: Seq<u8>) -> bool {
    exists|i: int| bytes_at(d, m, i)
}

/// The Media RSS namespace URI, as far as `search.yahoo.com/mrss`.
pub open spec fn media_rss_mark() -> Seq<u8> {
    seq![0x73u8, 0x65, 0x61, 0x72, 0x63, 0x68, 0x2e, 0x79, 0x61, 0x68, 0x6f, 0x6f, 0x2e, 0x63, 0x6f, 0x6d, 0x2f, 0x6d, 0x72, 0x73, 0x73]
}

/// The iTunes namespace URI, as far as `itunes.com/dtds`.
pub open spec fn itunes_mark() -> Seq<u8> {
    seq![0x69u8, 0x74, 0x75, 0x6e, 0x65, 0x73, 0x2e, 0x63, 0x6f, 0x6d, 0x2f, 0x64, 0x74, 0x64, 0x73]
}

/// A feed that `feed_rs` parses without panicking, as far as the checks
/// below go: no character references, no runs of 16 or more digits (its
/// NPT time parsing unwraps `u64` parses and multiplies them), no `@`
/// with a non-ASCII byte in the same whitespace-delimited run (its
/// name-and-email splitting slices one byte beside the address), and, in a
/// feed that uses the Media RSS or iTunes namespace, only ASCII bytes (its
/// NPT parsing unwraps the `u64` parse of Unicode digits).
pub open spec fn feed_safe(d: Seq<u8>) -> bool {
    &&& feed_scan(d, 0, 0, false, false)
    &&& (contains_bytes(d, media_rss_mark()) || contains_bytes(d, itunes_mark())) ==> forall|i: int|
        0 <= i < d.len() ==> #[trigger] d[i] < 0x80
}

fn bytes_at_exec(d: &[u8], m: &[u8], i: usize) -> (r: bool)
    ensures
        r == bytes_at(d@, m@, i as int),
{
    if i > d.len() || d.len() - i < m.len() {
        return false;
    }
    let mut k: usize = 0;
    while k < m.len()
        invariant
            i + m@.len() <= d@.len(),
            i <= d.len(),
            k <= m@.len(),
            forall|q: int| 0 <= q < k ==> d@[i + q] == m@[q],
        decreases m@.len() - k,
    {
        if d[i + k] != m[k] {
            assert(d@.subrange(i as int, i + m@.len())[k as int] != m@[k as int]);
            return false;
        }
        k += 1;
    }
    assert(d@.subrange(i as int, i + m@.len()) =~= m@);
    true
}

fn contains_bytes_exec(d: &[u8], m: &[u8]) -> (r: bool)
    ensures
        r == contains_bytes(d@, m@),
{
    let mut i: usize = 0;
    while i < d.len()
        invariant
            i <= d@.len(),
            forall|q: int| 0 <= q < i ==> !#[trigger] bytes_at(d@, m@, q),
        decreases d@.len() - i,
    {
        if bytes_at_exec(d, m, i) {
            return true;
        }
        i += 1;
    }
    if bytes_at_exec(d, m, i) {
        return true;
    }
    assert forall|q: int| !#[trigger] bytes_at(d@, m@, q) by {
        if 0 <= q && q <= i {
        }
    }
    false
}

/// Whether the feed passes the checks of [`feed_safe`].
pub fn feed_is_safe(d: &[u8]) -> (r: bool)
    ensures
        r == feed_safe(d@),
{
    let n = d.len();
    let mut i: usize = 0;
    let mut digits: usize = 0;
    let mut at = false;
    let mut high = false;
    let mut ok = true;
    while i < n && ok
        invariant
            n == d@.len(),
            i <= n,
            digits < 16,
            ok ==> feed_scan(d@, 0, 0, false, false) == feed_scan(d@, i as int, digits as nat, at, high),
            !ok ==> !feed_scan(d@, 0, 0, false, false),
        decreases n - i,
    {
        let b = d[i];
        if b == 0x26 && i + 1 < n && d[i + 1] == 0x23 {
            ok = false;
        } else if 0x30 <= b && b <= 0x39 && digits + 1 >= 16 {
            ok = false;
        } else if b == 0x20 || b == 0x09 || b == 0x0A || b == 0x0D {
            digits = 0;
            at = false;
            high = false;
        } else {
            at = at || b == 0x40;
            high = high || b >= 0x80;
            if at && high {
                ok = false;
            }
            digits = if 0x30 <= b && b <= 0x39 {
                digits + 1
            } else {
                0
            };
        }
        i += 1;
    }
    if !ok {
        return false;
    }
    assert(i == n);
    assert(feed_scan(d@, i as int, digits as nat, at, high));
    let mrss: [u8; 21] = [0x73, 0x65, 0x61, 0x72, 0x63, 0x68, 0x2e, 0x79, 0x61, 0x68, 0x6f, 0x6f, 0x2e, 0x63, 0x6f, 0x6d, 0x2f, 0x6d, 0x72, 0x73, 0x73];
    let itunes: [u8; 15] = [0x69, 0x74, 0x75, 0x6e, 0x65, 0x73, 0x2e, 0x63, 0x6f, 0x6d, 0x2f, 0x64, 0x74, 0x64, 0x73];
    assert(mrss@ =~= media_rss_mark());
    assert(itunes@ =~= itunes_mark());
    let marked = contains_bytes_exec(d, mrss.as_slice()) || contains_bytes_exec(d, itunes.as_slice());
    assert(marked == (contains_bytes(d@, media_rss_mark()) || contains_bytes(d@, itunes_mark())));
    if marked {
        let mut k: usize = 0;
        while k < n
            invariant
                n == d@.len(),
                k <= n,
                contains_bytes(d@, media_rss_mark()) || contains_bytes(d@, itunes_mark()),
                forall|q: int| 0 <= q < k ==> #[trigger] d@[q] < 0x80,
            decreases n - k,
        {
            if d[k] >= 0x80 {
                assert(!(d@[k as int] < 0x80));
                assert(!feed_safe(d@));
                return false;
            }
            k += 1;
        }
    }
    true
}

/// Parses the feed and gives its title, description, kind and number of
/// entries, or the error's message. The feed passes the checks of
/// [`feed_safe`], which leave out the inputs on which `feed_rs` panics.
#[verifier::external_body]
fn read_feed(data: &[u8]) -> (r: Result<(Option<String>, Option<String>, bool, usize), String>)
    requires
        feed_safe(data@),
    ensures
        match r {
            Ok((t, d, atom, n)) => feed_of(data@) == Ok::<(Option<Seq<char>>, Option<Seq<char>>, bool, nat), Seq<char>>(
                (opt_str(t), opt_str(d), atom, n as nat),
            ),
            Err(m) => feed_of(data@) == Err::<(Option<Seq<char>>, Option<Seq<char>>, bool, nat), Seq<char>>(m@),
        },
{
    match feed_rs::parser::parse(std::io::BufReader::new(data)) {
        Ok(f) => Ok((
            f.title.map(|t| t.content),
            f.description.map(|t| t.content),
            f.feed_type == feed_rs::model::FeedType::Atom,
            f.entries.len(),
        )),
        Err(e) => Err(e.to_string()),
    }
}

/// Parses the feed and gives what is shown of entry `i`; the feed passes
/// the checks of [`feed_safe`].
#[verifier::external_body]
fn read_entry(data: &[u8], i: usize) -> (r: Option<EntryInfo>)
    requires
        feed_safe(data@),
    ensures
        match r {
            Some(e) => feed_entry(data@, i as nat) == Some(e@),
            None => feed_entry(data@, i as nat) is None,
        },
{
    let f = feed_rs::parser::parse(std::io::BufReader::new(data)).ok()?;
    let e = f.entries.get(i)?;
    Some(EntryInfo {
        title: e.title.as_ref().map(|t| t.content.clone()),
        updated: e.updated.map(|d| d.to_string()),
        body: e.content.as_ref().and_then(|c| c.body.clone()),
        published: e.published.map(|d| d.to_string()),
        summary: e.summary.as_ref().map(|t| t.content.clone()),
    })
}

/// The blocks of an entry: its title as a level-2 heading; for Atom the
/// update date and the content body, for RSS the publication date and the
/// summary, the HTML turned into Markdown.
pub open spec fn entry_blocks(e: EntryView, atom: bool) -> Seq<BlockView> {
    (match e.title {
        Some(t) => seq![BlockView::Heading { level: 2, text: t }],
        None => Seq::empty(),
    }) + if atom {
        (match e.updated {
            Some(u) => seq![BlockView::Text("Updated on: "@ + u)],
            None => Seq::empty(),
        }) + match e.body {
            Some(b) => seq![BlockView::Markdown(html_to_markdown(b))],
            None => Seq::empty(),
        }
    } else {
        (match e.published {
            Some(p) => seq![BlockView::Text("Published on: "@ + p)],
            None => Seq::empty(),
        }) + match e.summary {
            Some(s) => seq![BlockView::Markdown(html_to_markdown(s))],
            None => Seq::empty(),
        }
    }
}

/// The blocks of the first `k` entries (an entry that cannot be read is
/// left out).
pub open spec fn entries_blocks(data: Seq<u8>, k: nat, atom: bool) -> Seq<BlockView>
    decreases k,
{
    if k == 0 {
        Seq::empty()
    } else {
        entries_blocks(data, (k - 1) as nat, atom) + match feed_entry(data, (k - 1) as nat) {
            Some(e) => entry_blocks(e, atom),
            None => Seq::empty(),
        }
    }
}

/// The document of a feed: its title as the document's title and as a
/// level-1 heading, its description, then the entries.
pub open spec fn feed_document(
    data: Seq<u8>,
    title: Option<Seq<char>>,
    description: Option<Seq<char>>,
    atom: bool,
    n: nat,
) -> DocumentView {
    DocumentView {
        title,
        pages: seq![
            DocPageView {
                page_number: 1,
                content: (match title {
                    Some(t) => seq![BlockView::Heading { level: 1, text: t }],
                    None => Seq::empty(),
                }) + (match description {
                    Some(d) => seq![BlockView::Text(d)],
                    None => Seq::empty(),
                }) + entries_blocks(data, n, atom),
                rendered_image: None,
            },
        ],
        metadata: Seq::empty(),
    }
}

/// Adds a block to the page.
fn add_block(page: &mut Page, b: ContentBlock)
    ensures
        final(page)@ == (DocPageView { content: old(page)@.content.push(b@), ..old(page)@ }),
{
    let ghost before = page@;
    page.add_content(b);
    assert(page@.content =~= before.content.push(b@));
}

/// Adds the blocks of an entry.
fn add_entry(page: &mut Page, e: EntryInfo, atom: bool)
    ensures
        final(page)@ == (DocPageView { content: old(page)@.content + entry_blocks(e@, atom), ..old(page)@ }),
{
    let ghost start = page@;
    let ghost ev = e@;
    match e.title {
        Some(t) => add_block(page, ContentBlock::Heading { level: 2, text: t }),
        None => {},
    }
    if atom {
        match e.updated {
            Some(u) => {
                let mut s: Vec<char> = Vec::new();
                extend_str(&mut s, "Updated on: ");
                extend_str(&mut s, u.as_str());
                add_block(page, ContentBlock::Text(to_string(s.as_slice())));
            },
            None => {},
        }
        match e.body {
            Some(b) => add_block(page, ContentBlock::Markdown(parse_html(b.as_str()))),
            None => {},
        }
    } else {
        match e.published {
            Some(p) => {
                let mut s: Vec<char> = Vec::new();
                extend_str(&mut s, "Published on: ");
                extend_str(&mut s, p.as_str());
                add_block(page, ContentBlock::Text(to_string(s.as_slice())));
            },
            None => {},
        }
        match e.summary {
            Some(x) => add_block(page, ContentBlock::Markdown(parse_html(x.as_str()))),
            None => {},
        }
    }
    assert(page@.content =~= start.content + entry_blocks(ev, atom));
}

/// The message for a feed that fails the checks of [`feed_safe`].
pub open spec fn unsafe_feed_message() -> Seq<char> {
    "the feed holds text the feed parser cannot take (a character reference, a long digit run, or non-ASCII text beside an address or in a media feed)"@
}

impl RssConverter {
    /// Converts feed bytes (see [`feed_document`]); bytes that do not parse
    /// as a feed are a parse error.
    pub fn bytes_to_document(&self, bytes: &[u8]) -> (r: Result<Document, MarkitdownError>)
        ensures
            !feed_safe(bytes@) ==> (r matches Err(e) && is_parse_error(e, "Failed to parse feed: "@ + unsafe_feed_message())),
            feed_safe(bytes@) ==> match feed_of(bytes@) {
                Ok((t, d, atom, n)) => r matches Ok(doc) && doc@ == feed_document(bytes@, t, d, atom, n),
                Err(m) => r matches Err(e) && is_parse_error(e, "Failed to parse feed: "@ + m),
            },
    {
        if !feed_is_safe(bytes) {
            let m = chars_of("the feed holds text the feed parser cannot take (a character reference, a long digit run, or non-ASCII text beside an address or in a media feed)");
            return Err(parse_error("Failed to parse feed: ", m.as_slice()));
        }
        let (title, description, atom, n) = match read_feed(bytes) {
            Ok(x) => x,
            Err(m) => {
                let mc = chars_of(m.as_str());
                return Err(parse_error("Failed to parse feed: ", mc.as_slice()));
            },
        };
        let ghost tv = opt_str(title);
        let ghost dv = opt_str(description);
        let mut page = Page::new(1);
        match &title {
            Some(t) => add_block(&mut page, ContentBlock::Heading { level: 1, text: t.clone() }),
            None => {},
        }
        match description {
            Some(d) => add_block(&mut page, ContentBlock::Text(d)),
            None => {},
        }
        let ghost head = page@.content;
        assert(head =~= (match tv {
            Some(t) => seq![BlockView::Heading { level: 1, text: t }],
            None => Seq::<BlockView>::empty(),
        }) + (match dv {
            Some(d) => seq![BlockView::Text(d)],
            None => Seq::<BlockView>::empty(),
        }));
        let mut i: usize = 0;
        while i < n
            invariant
                i <= n,
                page.page_number == 1,
                page.rendered_image is None,
                feed_safe(bytes@),
                page@.content == head + entries_blocks(bytes@, i as nat, atom),
            decreases n - i,
        {
            let ghost before = page@.content;
            match read_entry(bytes, i) {
                Some(e) => add_entry(&mut page, e, atom),
                None => {},
            }
            assert(page@.content =~= head + entries_blocks(bytes@, (i + 1) as nat, atom));
            i += 1;
        }
        let mut doc = Document::new();
        doc.title = title;
        let ghost pv = page@;
        doc.add_page(page);
        assert(doc@.pages =~= seq![pv]);
        assert(doc@.metadata =~= Seq::<(Seq<char>, Seq<char>)>::empty());
        Ok(doc)
    }
}

impl DocumentConverter for RssConverter {
    open spec fn extensions(&self) -> Seq<Seq<char>> {
        seq!["rss"@, "xml"@, "atom"@]
    }

    fn supported_extensions(&self) -> (r: Vec<&'static str>) {
        let r = vec!["rss", "xml", "atom"];
        assert(ext_views(r@) =~= self.extensions());
        r
    }
}

} // verus!
