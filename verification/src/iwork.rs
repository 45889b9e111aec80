//! Apple iWork files (.pages, .numbers, .key): ZIP archives whose text is
//! taken from text entries, or else from readable strings of the IWA
//! entries, with the list of entries.
use vstd::prelude::*;
use vstd::utf8::{decode_utf8, valid_utf8};
use crate::archive::utf8_text;
use crate::archive_formats::{gz_decompress, zip_entry, zip_open};
use crate::chars::{is_alnum, is_alphanumeric, to_string};
use crate::error::{is_parse_error, parse_error, MarkitdownError};
use crate::model::{ext_views, is_markdown_doc, markdown_document, Document, DocumentConverter};
use crate::orgmode::{words, words_acc};
use crate::ppt_text::{find_substring, has_substring};
use crate::table_merge::{byte_len, wsum};
use crate::text::{
    chars_eq_str, chars_of, ends_with_str, extend_chars, extend_str, has_suffix, is_whitespace, is_ws, join,
    join_chars, lemma_push_line,
};

verus! {

// ---------------------------------------------------------------------
// Readable strings
// ---------------------------------------------------------------------

/// Characters kept in a readable string.
pub open spec fn string_char(c: char) -> bool {
    is_alnum(c) || is_ws(c) || c == '.' || c == ',' || c == '!' || c == '?' || c == ';' || c == ':'
        || c == '\'' || c == '-' || c == '"' || c == '(' || c == ')' || c == '[' || c == ']' || c == '{'
        || c == '}'
}

/// The kept characters of a run.
pub open spec fn clean_run(s: Seq<char>) -> Seq<char>
    decreases s.len(),
{
    if s.len() == 0 {
        seq![]
    } else {
        clean_run(s.drop_last()) + (if string_char(s.last()) {
            seq![s.last()]
        } else {
            seq![]
        })
    }
}

/// The text after a run ends: the run, cleaned, when the run has at least 8
/// characters and at least 8 are kept, followed by `sep`.
pub open spec fn end_run(text: Seq<char>, run: Seq<char>, sep: Seq<char>) -> Seq<char> {
    if run.len() >= 8 && clean_run(run).len() >= 8 {
        text + clean_run(run) + sep
    } else {
        text
    }
}

/// Scanning bytes from `k` with the text and the current run: printable
/// ASCII extends the run, LF and CR extend it with a newline, tab with a
/// space; any other byte ends it.
pub open spec fn strings_scan(d: Seq<u8>, k: int, text: Seq<char>, run: Seq<char>) -> Seq<char>
    decreases d.len() - k,
{
    if k < 0 || k >= d.len() {
        end_run(text, run, seq![])
    } else {
        let b = d[k];
        if 0x20 <= b && b < 0x7F {
            strings_scan(d, k + 1, text, run.push(b as char))
        } else if b == 0x0A || b == 0x0D {
            strings_scan(d, k + 1, text, run.push('\n'))
        } else if b == 0x09 {
            strings_scan(d, k + 1, text, run.push(' '))
        } else {
            strings_scan(d, k + 1, end_run(text, run, seq![' ']), seq![])
        }
    }
}

/// The data gzip-decompressed, when that works and gives something.
pub open spec fn maybe_gunzip(d: Seq<u8>) -> Seq<u8> {
    match gz_decompress(d) {
        Ok(x) => if x.len() > 0 {
            x
        } else {
            d
        },
        Err(_) => d,
    }
}

/// The readable strings of binary data (gzip-decompressed when possible):
/// runs of at least 8 printable characters, cleaned, their words joined by
/// single spaces; kept when longer than 30 bytes.
pub open spec fn binary_strings(d: Seq<u8>) -> Option<Seq<char>> {
    let t = join(words(strings_scan(maybe_gunzip(d), 0, seq![], seq![])), " "@);
    if wsum(t, true) > 30 {
        Some(t)
    } else {
        None
    }
}

/// The words of the text.
fn split_words(s: &[char]) -> (r: Vec<Vec<char>>)
    ensures
        r.deep_view() == words(s@),
{
    let mut out: Vec<Vec<char>> = Vec::new();
    let mut cur: Vec<char> = Vec::new();
    let mut i: usize = 0;
    assert(s@.skip(0) =~= s@);
    assert(out.deep_view() =~= Seq::<Seq<char>>::empty());
    while i < s.len()
        invariant
            i <= s@.len(),
            words(s@) == out.deep_view() + words_acc(s@.skip(i as int), cur@),
        decreases s@.len() - i,
    {
        let ghost rest = s@.skip(i as int);
        assert(rest.drop_first() =~= s@.skip(i + 1));
        assert(rest[0] == s@[i as int]);
        let ghost c0 = cur@;
        if is_whitespace(s[i]) {
            if cur.len() > 0 {
                assert(words_acc(rest, c0) == seq![c0] + words_acc(rest.drop_first(), seq![]));
                let ghost before = out.deep_view();
                let w = cur;
                out.push(w);
                proof {
                    lemma_push_line(before, out@, w);
                }
                cur = Vec::new();
                assert(before + (seq![w@] + words_acc(s@.skip(i + 1), seq![])) =~= before.push(w@) + words_acc(
                    s@.skip(i + 1),
                    seq![],
                ));
            } else {
                assert(words_acc(rest, c0) == words_acc(rest.drop_first(), seq![]));
                assert(c0 =~= Seq::<char>::empty());
            }
        } else {
            assert(words_acc(rest, c0) == words_acc(rest.drop_first(), c0.push(s@[i as int])));
            cur.push(s[i]);
        }
        i += 1;
    }
    assert(s@.skip(i as int) =~= Seq::<char>::empty());
    if cur.len() > 0 {
        let ghost before = out.deep_view();
        let w = cur;
        out.push(w);
        proof {
            lemma_push_line(before, out@, w);
        }
        assert(words(s@) =~= out.deep_view());
    } else {
        assert(words(s@) =~= out.deep_view());
    }
    out
}

/// Appends the cleaned run when it is long enough, then `sep`.
fn push_run(text: &mut Vec<char>, run: &Vec<char>, sep: bool)
    ensures
        final(text)@ == end_run(old(text)@, run@, if sep {
            seq![' ']
        } else {
            seq![]
        }),
{
    if run.len() >= 8 {
        let mut clean: Vec<char> = Vec::new();
        let mut k: usize = 0;
        while k < run.len()
            invariant
                k <= run@.len(),
                clean@ == clean_run(run@.take(k as int)),
                clean@.len() <= k,
            decreases run@.len() - k,
        {
            assert(run@.take(k + 1).drop_last() =~= run@.take(k as int));
            let c = run[k];
            if is_alphanumeric(c) || is_whitespace(c) || c == '.' || c == ',' || c == '!' || c == '?' || c
                == ';' || c == ':' || c == '\'' || c == '-' || c == '"' || c == '(' || c == ')' || c == '['
                || c == ']' || c == '{' || c == '}' {
                clean.push(c);
            }
            k += 1;
        }
        assert(run@.take(k as int) =~= run@);
        if clean.len() >= 8 {
            extend_chars(text, clean.as_slice());
            if sep {
                text.push(' ');
            }
        }
    }
}

/// Reads the data through `flate2::read::GzDecoder` when that works and
/// gives something.
fn try_decompress(data: &[u8]) -> (r: Option<Vec<u8>>)
    ensures
        match r {
            Some(x) => gz_decompress(data@) == Ok::<Seq<u8>, Seq<char>>(x@) && x@.len() > 0,
            None => !(gz_decompress(data@) matches Ok(x) && x.len() > 0),
        },
{
    match crate::archive_formats::gunzip(data) {
        Ok(x) => if x.len() > 0 {
            Some(x)
        } else {
            None
        },
        Err(_) => None,
    }
}

// ---------------------------------------------------------------------
// Documents
// ---------------------------------------------------------------------

/// Whether the archive has an entry of the name (`ZipArchive::by_name`).
pub uninterp spec fn zip_has_entry(data: Seq<u8>, name: Seq<char>) -> bool;

/// Opens the archive (`zip::ZipArchive::new`) and looks the entry up
/// (`ZipArchive::by_name`).
#[verifier::external_body]
fn zip_contains(data: &[u8], name: &str) -> (r: bool)
    ensures
        r == zip_has_entry(data@, name@),
{
    match zip::ZipArchive::new(std::io::Cursor::new(data)) {
        Ok(mut a) => a.by_name(name).is_ok(),
        Err(_) => false,
    }
}

/// The text of entry contents read as UTF-8 text (`read_to_string`).
pub open spec fn as_text(c: Option<Seq<u8>>) -> Option<Seq<char>> {
    match c {
        Some(b) => if valid_utf8(b) {
            Some(decode_utf8(b))
        } else {
            None
        },
        None => None,
    }
}

/// An entry as read: its name and contents (none where they could not be
/// read), or none where it could not be opened or named.
pub type EntryView = Option<(Seq<char>, Option<Seq<u8>>)>;

/// The views of entries as read.
pub open spec fn entries_view(v: Seq<Option<(Vec<char>, Option<Vec<u8>>)>>) -> Seq<EntryView> {
    v.map_values(|e: Option<(Vec<char>, Option<Vec<u8>>)>| entry_view(e))
}

/// The view of an entry as read.
pub open spec fn entry_view(e: Option<(Vec<char>, Option<Vec<u8>>)>) -> EntryView {
    match e {
        Some((n, c)) => Some(
            (
                n@,
                match c {
                    Some(x) => Some(x@),
                    None => None,
                },
            ),
        ),
        None => None,
    }
}

/// The name and contents of entry `i`, when it opens and has a name.
pub open spec fn named_entry(data: Seq<u8>, i: nat) -> Option<(Seq<char>, Option<Seq<u8>>)> {
    match zip_entry(data, i) {
        Ok((_, Ok(name), c)) => Some(
            (
                name,
                match c {
                    Ok(b) => Some(b),
                    Err(_) => None,
                },
            ),
        ),
        _ => None,
    }
}

/// An entry holding text: its name ends with `.txt` or contains `Text`.
pub open spec fn text_entry(name: Seq<char>) -> bool {
    has_suffix(name, ".txt"@) || has_substring(name, "Text"@)
}

/// An entry of version history.
pub open spec fn plist_entry(name: Seq<char>) -> bool {
    name == "buildVersionHistory.plist"@ || has_suffix(name, "buildVersionHistory.plist"@)
}

/// The Markdown added for entries from `i` of `n` in the first pass, with
/// whether text was found: non-empty text of text entries, followed by a
/// blank line; the version history in an XML block (empty when the entry was
/// already read as text).
pub open spec fn first_pass(es: Seq<EntryView>, i: nat, md: Seq<char>, found: bool) -> (Seq<char>, bool)
    decreases es.len() - i,
{
    if i >= es.len() {
        (md, found)
    } else {
        match es[i as int] {
            None => first_pass(es, i + 1, md, found),
            Some((name, c)) => {
                let is_text = text_entry(name);
                let t = as_text(c);
                let (md1, f1) = if is_text && t is Some && t->0.len() > 0 {
                    (md + t->0 + "\n\n"@, true)
                } else {
                    (md, found)
                };
                let md2 = if plist_entry(name) {
                    if is_text {
                        md1 + "**Version Info:**\n```xml\n"@ + "\n```\n\n"@
                    } else {
                        match t {
                            Some(x) => md1 + "**Version Info:**\n```xml\n"@ + x + "\n```\n\n"@,
                            None => md1,
                        }
                    }
                } else {
                    md1
                };
                first_pass(es, i + 1, md2, f1)
            },
        }
    }
}

/// The readable strings of the IWA entries from `i` of `n`, each followed
/// by a newline.
pub open spec fn iwa_text(es: Seq<EntryView>, i: nat, all: Seq<char>) -> Seq<char>
    decreases es.len() - i,
{
    if i >= es.len() {
        all
    } else {
        match es[i as int] {
            Some((name, Some(b))) => if has_suffix(name, ".iwa"@) {
                match binary_strings(b) {
                    Some(t) => iwa_text(es, i + 1, all + t + "\n"@),
                    None => iwa_text(es, i + 1, all),
                }
            } else {
                iwa_text(es, i + 1, all)
            },
            _ => iwa_text(es, i + 1, all),
        }
    }
}

/// The list of entries from `i` of `n`.
pub open spec fn contents_list(es: Seq<EntryView>, i: nat) -> Seq<char>
    decreases es.len() - i,
{
    if i >= es.len() {
        seq![]
    } else {
        (match es[i as int] {
            Some((name, _)) => "- `"@ + name + "`\n"@,
            None => seq![],
        }) + contents_list(es, i + 1)
    }
}

/// The preview note: the first of the preview entries (`preview.pdf`,
/// `QuickLook/Preview.pdf`, `QuickLook/Thumbnail.jpg`) that the archive has.
pub open spec fn preview_note(p: (bool, bool, bool)) -> Seq<char> {
    if p.0 {
        "*Preview available: preview.pdf*\n\n"@
    } else if p.1 {
        "*Preview available: QuickLook/Preview.pdf*\n\n"@
    } else if p.2 {
        "*Preview available: QuickLook/Thumbnail.jpg*\n\n"@
    } else {
        seq![]
    }
}

/// Which of the preview entries the archive has.
pub open spec fn previews_of(data: Seq<u8>) -> (bool, bool, bool) {
    (
        zip_has_entry(data, "preview.pdf"@),
        zip_has_entry(data, "QuickLook/Preview.pdf"@),
        zip_has_entry(data, "QuickLook/Thumbnail.jpg"@),
    )
}

/// The entries `i..n` of the archive: each one's name and contents, where
/// it opens and has a name.
pub open spec fn entries_of(data: Seq<u8>, n: nat) -> Seq<EntryView> {
    Seq::new(n, |i: int| named_entry(data, i as nat))
}

/// The Markdown of an iWork file of the format from its entries and its
/// preview entries: a heading, the preview note, the text of text entries
/// and the version history (else the strings of the IWA entries, else a
/// note), and the list of entries.
pub open spec fn iwork_md_of(es: Seq<EntryView>, previews: (bool, bool, bool), format: Seq<char>) -> Seq<char> {
    let head = "# Apple "@ + format + " Document\n\n"@ + preview_note(previews);
    let (md1, found) = first_pass(es, 0, head, false);
    let all = iwa_text(es, 0, seq![]);
    let (md2, found2) = if !found && all.len() > 0 {
        (md1 + "**Extracted Text:**\n\n"@ + all, true)
    } else {
        (md1, found)
    };
    let md3 = if !found2 {
        md2 + "*Unable to extract text from "@ + format
            + " file.*\n\nApple iWork files use a proprietary format. Consider exporting to PDF, DOCX, or another format for better extraction.\n\n"@
    } else {
        md2
    };
    md3 + "---\n\n**Archive Contents:**\n"@ + contents_list(es, 0)
}

/// The Markdown of an iWork file of `n` entries.
pub open spec fn iwork_md(data: Seq<u8>, format: Seq<char>, n: nat) -> Seq<char> {
    iwork_md_of(entries_of(data, n), previews_of(data), format)
}

/// The Markdown of an iWork file, or the message of the error opening it.
pub open spec fn iwork_markdown(data: Seq<u8>, format: Seq<char>) -> Result<Seq<char>, Seq<char>> {
    match zip_open(data) {
        Err(m) => Err(format + " parse error: "@ + m),
        Ok(n) => Ok(iwork_md(data, format, n)),
    }
}

/// Pages converter.
pub struct PagesConverter;

/// Numbers converter.
pub struct NumbersConverter;

/// Keynote converter.
pub struct KeynoteConverter;

/// The name and contents of entry `i`, when it opens and has a name.
fn read_named(data: &[u8], i: usize) -> (r: Option<(Vec<char>, Option<Vec<u8>>)>)
    ensures
        match r {
            Some((n, c)) => named_entry(data@, i as nat) == Some((n@, match c {
                Some(x) => Some(x@),
                None => None::<Seq<u8>>,
            })),
            None => named_entry(data@, i as nat) is None,
        },
{
    match crate::archive_formats::zip_read_entry(data, i) {
        Ok((_, Ok(name), c)) => Some(
            (
                name,
                match c {
                    Ok(b) => Some(b),
                    Err(_) => None,
                },
            ),
        ),
        _ => None,
    }
}

/// The contents as UTF-8 text.
fn read_text(c: &Option<Vec<u8>>) -> (r: Option<Vec<char>>)
    ensures
        match r {
            Some(t) => as_text(match c {
                Some(x) => Some(x@),
                None => None,
            }) == Some(t@),
            None => as_text(match c {
                Some(x) => Some(x@),
                None => None,
            }) is None,
        },
{
    match c {
        Some(b) => match utf8_text(b.as_slice()) {
            Ok(t) => Some(t),
            Err(_) => None,
        },
        None => None,
    }
}

impl PagesConverter {
    /// The readable strings of binary data.
    pub fn extract_strings_from_binary(data: &[u8]) -> (r: Option<Vec<char>>)
        ensures
            match r {
                Some(t) => binary_strings(data@) == Some(t@),
                None => binary_strings(data@) is None,
            },
    {
        let dec = try_decompress(data);
        let d: &[u8] = match &dec {
            Some(x) => x.as_slice(),
            None => data,
        };
        assert(d@ == maybe_gunzip(data@));
        let mut text: Vec<char> = Vec::new();
        let mut run: Vec<char> = Vec::new();
        let mut k: usize = 0;
        while k < d.len()
            invariant
                k <= d@.len(),
                strings_scan(d@, 0, seq![], seq![]) == strings_scan(d@, k as int, text@, run@),
            decreases d@.len() - k,
        {
            let b = d[k];
            if 0x20 <= b && b < 0x7F {
                run.push(b as char);
            } else if b == 0x0A || b == 0x0D {
                run.push('\n');
            } else if b == 0x09 {
                run.push(' ');
            } else {
                push_run(&mut text, &run, true);
                run = Vec::new();
            }
            k += 1;
        }
        push_run(&mut text, &run, false);
        let ws = split_words(text.as_slice());
        let sep = chars_of(" ");
        let joined = join_chars(&ws, sep.as_slice());
        if byte_len(joined.as_slice()) > 30 {
            Some(joined)
        } else {
            None
        }
    }

    /// The Markdown of an iWork file of the format (see [`iwork_md_of`]),
    /// from its entries, each its name and contents where it could be
    /// opened and named, and which preview entries it has.
    pub fn iwork_markdown_of(
        entries: &Vec<Option<(Vec<char>, Option<Vec<u8>>)>>,
        previews: (bool, bool, bool),
        format_name: &str,
    ) -> (r: Vec<char>)
        ensures
            r@ == iwork_md_of(entries_view(entries@), previews, format_name@),
    {
        let ghost es = entries_view(entries@);
        let n = entries.len();
        let mut md: Vec<char> = Vec::new();
        extend_str(&mut md, "# Apple ");
        extend_str(&mut md, format_name);
        extend_str(&mut md, " Document\n\n");
        if previews.0 {
            extend_str(&mut md, "*Preview available: preview.pdf*\n\n");
        } else if previews.1 {
            extend_str(&mut md, "*Preview available: QuickLook/Preview.pdf*\n\n");
        } else if previews.2 {
            extend_str(&mut md, "*Preview available: QuickLook/Thumbnail.jpg*\n\n");
        }
        assert(md@ =~= "# Apple "@ + format_name@ + " Document\n\n"@ + preview_note(previews));
        let mut found = false;
        let mut i: usize = 0;
        while i < n
            invariant
                i <= n,
                n == entries@.len(),
                es == entries_view(entries@),
                first_pass(es, 0, "# Apple "@ + format_name@ + " Document\n\n"@ + preview_note(previews), false)
                    == first_pass(es, i as nat, md@, found),
            decreases n - i,
        {
            assert(es[i as int] == entry_view(entries@[i as int]));
            match &entries[i] {
                None => {},
                Some((name, c)) => {
                    let is_text = ends_with_str(name.as_slice(), ".txt") || find_substring(
                        name.as_slice(),
                        chars_of("Text").as_slice(),
                    );
                    let t = read_text(c);
                    if is_text {
                        match &t {
                            Some(x) => {
                                if x.len() > 0 {
                                    extend_chars(&mut md, x.as_slice());
                                    extend_str(&mut md, "\n\n");
                                    found = true;
                                }
                            },
                            None => {},
                        }
                    }
                    if chars_eq_str(name.as_slice(), "buildVersionHistory.plist") || ends_with_str(
                        name.as_slice(),
                        "buildVersionHistory.plist",
                    ) {
                        if is_text {
                            extend_str(&mut md, "**Version Info:**\n```xml\n");
                            extend_str(&mut md, "\n```\n\n");
                        } else {
                            match &t {
                                Some(x) => {
                                    extend_str(&mut md, "**Version Info:**\n```xml\n");
                                    extend_chars(&mut md, x.as_slice());
                                    extend_str(&mut md, "\n```\n\n");
                                },
                                None => {},
                            }
                        }
                    }
                },
            }
            i += 1;
        }
        let mut all: Vec<char> = Vec::new();
        let mut j: usize = 0;
        while j < n
            invariant
                j <= n,
                n == entries@.len(),
                es == entries_view(entries@),
                iwa_text(es, 0, seq![]) == iwa_text(es, j as nat, all@),
            decreases n - j,
        {
            assert(es[j as int] == entry_view(entries@[j as int]));
            match &entries[j] {
                Some((name, Some(b))) => {
                    if ends_with_str(name.as_slice(), ".iwa") {
                        match Self::extract_strings_from_binary(b.as_slice()) {
                            Some(t) => {
                                extend_chars(&mut all, t.as_slice());
                                extend_str(&mut all, "\n");
                            },
                            None => {},
                        }
                    }
                },
                _ => {},
            }
            j += 1;
        }
        if !found && all.len() > 0 {
            extend_str(&mut md, "**Extracted Text:**\n\n");
            extend_chars(&mut md, all.as_slice());
            found = true;
        }
        if !found {
            extend_str(&mut md, "*Unable to extract text from ");
            extend_str(&mut md, format_name);
            extend_str(
                &mut md,
                " file.*\n\nApple iWork files use a proprietary format. Consider exporting to PDF, DOCX, or another format for better extraction.\n\n",
            );
        }
        extend_str(&mut md, "---\n\n**Archive Contents:**\n");
        let ghost head = md@;
        let mut list: Vec<char> = Vec::new();
        let mut k: usize = n;
        while k > 0
            invariant
                k <= n,
                n == entries@.len(),
                es == entries_view(entries@),
                list@ == contents_list(es, k as nat),
            decreases k,
        {
            k -= 1;
            assert(es[k as int] == entry_view(entries@[k as int]));
            let mut item: Vec<char> = Vec::new();
            match &entries[k] {
                Some((name, _)) => {
                    extend_str(&mut item, "- `");
                    extend_chars(&mut item, name.as_slice());
                    extend_str(&mut item, "`\n");
                },
                None => {},
            }
            extend_chars(&mut item, list.as_slice());
            list = item;
        }
        extend_chars(&mut md, list.as_slice());
        assert(md@ =~= iwork_md_of(es, previews, format_name@));
        md
    }

    /// Converts an iWork file of the named format.
    pub fn convert_iwork(bytes: &[u8], format_name: &str) -> (r: Result<Document, MarkitdownError>)
        ensures
            match iwork_markdown(bytes@, format_name@) {
                Ok(md) => r matches Ok(d) && is_markdown_doc(d, md),
                Err(m) => r matches Err(e) && is_parse_error(e, m),
            },
    {
        let n = match crate::archive_formats::zip_count(bytes) {
            Ok(n) => n,
            Err(m) => {
                let mut msg: Vec<char> = Vec::new();
                extend_str(&mut msg, format_name);
                extend_str(&mut msg, " parse error: ");
                extend_chars(&mut msg, m.as_slice());
                let e = parse_error("", msg.as_slice());
                proof {
                    reveal_strlit("");
                }
                assert(""@ + msg@ =~= msg@);
                return Err(e);
            },
        };
        let ghost data = bytes@;
        let mut entries: Vec<Option<(Vec<char>, Option<Vec<u8>>)>> = Vec::new();
        let mut i: usize = 0;
        while i < n
            invariant
                data == bytes@,
                i <= n,
                entries_view(entries@) =~= entries_of(data, n as nat).take(i as int),
            decreases n - i,
        {
            let e = read_named(bytes, i);
            let ghost ev = entry_view(e);
            let ghost before = entries_view(entries@);
            assert(ev == named_entry(data, i as nat));
            entries.push(e);
            assert(entries_view(entries@) =~= before.push(ev));
            assert(entries_of(data, n as nat).take(i + 1) =~= entries_of(data, n as nat).take(i as int).push(ev));
            i += 1;
        }
        assert(entries_of(data, n as nat).take(n as int) =~= entries_of(data, n as nat));
        let previews = (
            zip_contains(bytes, "preview.pdf"),
            zip_contains(bytes, "QuickLook/Preview.pdf"),
            zip_contains(bytes, "QuickLook/Thumbnail.jpg"),
        );
        let md = Self::iwork_markdown_of(&entries, previews, format_name);
        Ok(markdown_document(md))
    }

    /// Converts a Pages document.
    pub fn convert_bytes(&self, bytes: &[u8]) -> (r: Result<Document, MarkitdownError>)
        ensures
            match iwork_markdown(bytes@, "Pages"@) {
                Ok(md) => r matches Ok(d) && is_markdown_doc(d, md),
                Err(m) => r matches Err(e) && is_parse_error(e, m),
            },
    {
        Self::convert_iwork(bytes, "Pages")
    }
}

impl NumbersConverter {
    /// Converts a Numbers spreadsheet.
    pub fn convert_bytes(&self, bytes: &[u8]) -> (r: Result<Document, MarkitdownError>)
        ensures
            match iwork_markdown(bytes@, "Numbers"@) {
                Ok(md) => r matches Ok(d) && is_markdown_doc(d, md),
                Err(m) => r matches Err(e) && is_parse_error(e, m),
            },
    {
        PagesConverter::convert_iwork(bytes, "Numbers")
    }
}

impl KeynoteConverter {
    /// Converts a Keynote presentation.
    pub fn convert_bytes(&self, bytes: &[u8]) -> (r: Result<Document, MarkitdownError>)
        ensures
            match iwork_markdown(bytes@, "Keynote"@) {
                Ok(md) => r matches Ok(d) && is_markdown_doc(d, md),
                Err(m) => r matches Err(e) && is_parse_error(e, m),
            },
    {
        PagesConverter::convert_iwork(bytes, "Keynote")
    }
}

impl DocumentConverter for PagesConverter {
    open spec fn extensions(&self) -> Seq<Seq<char>> {
        seq![".pages"@]
    }

    fn supported_extensions(&self) -> (r: Vec<&'static str>) {
        let r = vec![".pages"];
        assert(ext_views(r@) =~= self.extensions());
        r
    }
}

impl DocumentConverter for NumbersConverter {
    open spec fn extensions(&self) -> Seq<Seq<char>> {
        seq![".numbers"@]
    }

    fn supported_extensions(&self) -> (r: Vec<&'static str>) {
        let r = vec![".numbers"];
        assert(ext_views(r@) =~= self.extensions());
        r
    }
}

impl DocumentConverter for KeynoteConverter {
    open spec fn extensions(&self) -> Seq<Seq<char>> {
        seq![".key"@]
    }

    fn supported_extensions(&self) -> (r: Vec<&'static str>) {
        let r = vec![".key"];
        assert(ext_views(r@) =~= self.extensions());
        r
    }
}

} // verus!
