//! Archives and compressed files: the text files of an archive as code
//! blocks, with a summary of what was converted and what was skipped.
use vstd::prelude::*;
use vstd::utf8::{decode_utf8, valid_utf8};
use crate::chars::{to_lowercase, to_string, unicode_lowercase};
use crate::error::{is_parse_error, parse_error, MarkitdownError};
use crate::model::{
    doc_md, ext_views, markdown_document, is_markdown_doc, opt_str, BlockView, ContentBlock, ConversionOptions,
    DocPageView, Document, DocumentConverter, DocumentView, Page,
};
use crate::text::{chars_eq_str, chars_of, decimal, extend_chars, extend_str, push_decimal, sub_vec};

verus! {

// ---------------------------------------------------------------------
// File names
// ---------------------------------------------------------------------

/// A path segment that names a file or directory (not empty, not `.`).
pub open spec fn keep_segment(seg: Seq<char>, last: Option<Seq<char>>) -> Option<Seq<char>> {
    if seg.len() == 0 || seg == seq!['.'] {
        last
    } else {
        Some(seg)
    }
}

/// The last segment of `s` that names something, given the segment `cur`
/// read so far and the last one before it.
pub open spec fn last_segment(s: Seq<char>, cur: Seq<char>, last: Option<Seq<char>>) -> Option<Seq<char>>
    decreases s.len(),
{
    if s.len() == 0 {
        keep_segment(cur, last)
    } else if s[0] == '/' {
        last_segment(s.drop_first(), seq![], keep_segment(cur, last))
    } else {
        last_segment(s.drop_first(), cur.push(s[0]), last)
    }
}

/// The file name of a path (`Path::file_name`): its last segment, unless
/// that is `..`.
pub open spec fn file_name_of(path: Seq<char>) -> Option<Seq<char>> {
    match last_segment(path, seq![], None) {
        Some(c) => if c == seq!['.', '.'] {
            None
        } else {
            Some(c)
        },
        None => None,
    }
}

/// The position of the last `.` in the text.
pub open spec fn last_dot(s: Seq<char>) -> Option<int>
    decreases s.len(),
{
    if s.len() == 0 {
        None
    } else if s.last() == '.' {
        Some(s.len() - 1)
    } else {
        last_dot(s.drop_last())
    }
}

/// The extension of a path (`Path::extension`): what follows the last `.`
/// of the file name, unless that `.` starts the name.
pub open spec fn path_extension(path: Seq<char>) -> Option<Seq<char>> {
    match file_name_of(path) {
        Some(n) => match last_dot(n) {
            Some(k) => if k > 0 {
                Some(n.skip(k + 1))
            } else {
                None
            },
            None => None,
        },
        None => None,
    }
}

/// The extension of a path as the archive converters use it: a dot and the
/// lowercased extension, or empty.
pub open spec fn ext_string(path: Seq<char>) -> Seq<char> {
    match path_extension(path) {
        Some(e) => seq!['.'] + unicode_lowercase(e),
        None => seq![],
    }
}

proof fn lemma_last_dot(s: Seq<char>)
    ensures
        match last_dot(s) {
            Some(k) => 0 <= k < s.len() && s[k] == '.' && forall|j: int| k < j < s.len() ==> s[j] != '.',
            None => forall|j: int| 0 <= j < s.len() ==> s[j] != '.',
        },
    decreases s.len(),
{
    if s.len() > 0 && s.last() != '.' {
        let t = s.drop_last();
        lemma_last_dot(t);
        match last_dot(t) {
            Some(k) => {
                assert forall|j: int| k < j < s.len() implies s[j] != '.' by {
                    if j < s.len() - 1 {
                        assert(t[j] == s[j]);
                    }
                }
                assert(s[k] == t[k]);
            },
            None => {
                assert forall|j: int| 0 <= j < s.len() implies s[j] != '.' by {
                    if j < s.len() - 1 {
                        assert(t[j] == s[j]);
                    }
                }
            },
        }
    }
}

/// The file name of a path.
fn file_name(path: &[char]) -> (r: Option<Vec<char>>)
    ensures
        match r {
            Some(v) => file_name_of(path@) == Some(v@),
            None => file_name_of(path@) is None,
        },
{
    let mut last: Option<Vec<char>> = None;
    let mut cur: Vec<char> = Vec::new();
    let mut i: usize = 0;
    assert(path@.skip(0) =~= path@);
    while i < path.len()
        invariant
            i <= path@.len(),
            last_segment(path@, seq![], None) == last_segment(
                path@.skip(i as int),
                cur@,
                match last {
                    Some(v) => Some(v@),
                    None => None,
                },
            ),
        decreases path@.len() - i,
    {
        assert(path@.skip(i as int).drop_first() =~= path@.skip(i + 1));
        if path[i] == '/' {
            if cur.len() > 0 && !(cur.len() == 1 && cur[0] == '.') {
                last = Some(cur);
            } else {
                proof {
                    if cur@.len() == 1 && cur@[0] == '.' {
                        assert(cur@ =~= seq!['.']);
                    }
                }
            }
            cur = Vec::new();
        } else {
            cur.push(path[i]);
        }
        i += 1;
    }
    assert(path@.skip(i as int) =~= Seq::<char>::empty());
    if cur.len() > 0 && !(cur.len() == 1 && cur[0] == '.') {
        last = Some(cur);
    } else {
        proof {
            if cur@.len() == 1 && cur@[0] == '.' {
                assert(cur@ =~= seq!['.']);
            }
        }
    }
    match last {
        Some(v) => {
            if v.len() == 2 && v[0] == '.' && v[1] == '.' {
                assert(v@ =~= seq!['.', '.']);
                None
            } else {
                Some(v)
            }
        },
        None => None,
    }
}

/// The extension of a path, as the archive converters use it.
pub fn extension_string(path: &str) -> (r: Vec<char>)
    ensures
        r@ == ext_string(path@),
{
    let pc = chars_of(path);
    match file_name(pc.as_slice()) {
        None => Vec::new(),
        Some(n) => {
            proof {
                lemma_last_dot(n@);
            }
            let mut k: usize = n.len();
            assert(n@.take(k as int) =~= n@);
            while k > 0 && n[k - 1] != '.'
                invariant
                    k <= n@.len(),
                    forall|j: int| k <= j < n@.len() ==> n@[j] != '.',
                    last_dot(n@) == last_dot(n@.take(k as int)),
                decreases k,
            {
                assert(n@.take(k as int).drop_last() =~= n@.take(k - 1));
                k -= 1;
            }
            if k <= 1 {
                proof {
                    if k == 1 {
                        assert(n@.take(1).last() == '.');
                    }
                }
                return Vec::new();
            }
            assert(last_dot(n@.take(k as int)) == Some(k - 1));
            let e = sub_vec(n.as_slice(), k, n.len());
            assert(e@ =~= n@.skip(k as int));
            let lower = to_lowercase(e.as_slice());
            let mut out: Vec<char> = Vec::new();
            out.push('.');
            extend_chars(&mut out, lower.as_slice());
            assert(out@ =~= seq!['.'] + unicode_lowercase(e@));
            out
        },
    }
}

// ---------------------------------------------------------------------
// Text extensions
// ---------------------------------------------------------------------

/// The extensions of text formats.
pub open spec fn text_extensions() -> Seq<Seq<char>> {
    seq![
        ".txt"@, ".md"@, ".markdown"@, ".json"@, ".yaml"@, ".yml"@, ".toml"@, ".xml"@, ".html"@, ".htm"@,
        ".css"@, ".js"@, ".ts"@, ".jsx"@, ".tsx"@, ".rs"@, ".py"@, ".go"@, ".java"@, ".c"@, ".cpp"@,
        ".h"@, ".hpp"@, ".sh"@, ".bash"@, ".zsh"@, ".fish"@, ".ps1"@, ".bat"@, ".cmd"@, ".sql"@, ".csv"@,
        ".log"@, ".ini"@, ".cfg"@, ".conf"@, ".env"@, ".gitignore"@, ".dockerfile"@, ".makefile"@,
        ".cmake"@, ".rb"@, ".php"@, ".swift"@, ".kt"@, ".scala"@, ".clj"@, ".ex"@, ".exs"@, ".lua"@,
        ".r"@, ".pl"@, ".pm"@, ".tcl"@, ".awk"@, ".sed"@, ".vue"@, ".svelte"@, ".astro"@, ".bib"@,
        ".tex"@, ".sty"@,
    ]
}

fn text_extension_list() -> (r: Vec<&'static str>)
    ensures
        ext_views(r@) == text_extensions(),
{
    let r = vec![
        ".txt", ".md", ".markdown", ".json", ".yaml", ".yml", ".toml", ".xml", ".html", ".htm",
        ".css", ".js", ".ts", ".jsx", ".tsx", ".rs", ".py", ".go", ".java", ".c", ".cpp",
        ".h", ".hpp", ".sh", ".bash", ".zsh", ".fish", ".ps1", ".bat", ".cmd", ".sql", ".csv",
        ".log", ".ini", ".cfg", ".conf", ".env", ".gitignore", ".dockerfile", ".makefile",
        ".cmake", ".rb", ".php", ".swift", ".kt", ".scala", ".clj", ".ex", ".exs", ".lua",
        ".r", ".pl", ".pm", ".tcl", ".awk", ".sed", ".vue", ".svelte", ".astro", ".bib",
        ".tex", ".sty",
    ];
    assert(ext_views(r@) =~= text_extensions());
    r
}

/// Whether the extension (with its dot, exactly as written) is one of a
/// text format.
pub fn is_text_extension(ext: &str) -> (r: bool)
    ensures
        r == text_extensions().contains(ext@),
{
    let list = text_extension_list();
    let e = chars_of(ext);
    let mut i: usize = 0;
    while i < list.len()
        invariant
            i <= list@.len(),
            ext_views(list@) == text_extensions(),
            e@ == ext@,
            forall|j: int| 0 <= j < i ==> #[trigger] text_extensions()[j] != ext@,
        decreases list@.len() - i,
    {
        assert(ext_views(list@)[i as int] == list@[i as int]@);
        if chars_eq_str(e.as_slice(), list[i]) {
            assert(text_extensions()[i as int] == ext@);
            return true;
        }
        i += 1;
    }
    false
}

/// Whether the characters are one of the text extensions.
fn is_text_extension_chars(ext: &[char]) -> (r: bool)
    ensures
        r == text_extensions().contains(ext@),
{
    let list = text_extension_list();
    let mut i: usize = 0;
    while i < list.len()
        invariant
            i <= list@.len(),
            ext_views(list@) == text_extensions(),
            forall|j: int| 0 <= j < i ==> #[trigger] text_extensions()[j] != ext@,
        decreases list@.len() - i,
    {
        assert(ext_views(list@)[i as int] == list@[i as int]@);
        if chars_eq_str(ext, list[i]) {
            assert(text_extensions()[i as int] == ext@);
            return true;
        }
        i += 1;
    }
    false
}

// ---------------------------------------------------------------------
// Extraction results
// ---------------------------------------------------------------------

/// The documents converted from the files of an archive, the files skipped
/// with the reason, and the number of entries.
pub struct ArchiveExtractionResult {
    pub documents: Vec<(String, Document)>,
    pub skipped_files: Vec<(String, String)>,
    pub total_files: usize,
}

/// The mathematical content of an [`ArchiveExtractionResult`].
pub struct ArchiveView {
    pub documents: Seq<(Seq<char>, DocumentView)>,
    pub skipped: Seq<(Seq<char>, Seq<char>)>,
    pub total: nat,
}

impl View for ArchiveExtractionResult {
    type V = ArchiveView;

    open spec fn view(&self) -> ArchiveView {
        ArchiveView {
            documents: self.documents@.map_values(|e: (String, Document)| (e.0@, e.1@)),
            skipped: self.skipped_files@.map_values(|e: (String, String)| (e.0@, e.1@)),
            total: self.total_files as nat,
        }
    }
}

/// A document of one page holding the text in a code block.
pub open spec fn code_block_md(text: Seq<char>) -> Seq<char> {
    "```\n"@ + text + "\n```"@
}

/// The result after a file of an archive: a text file (by extension) in
/// UTF-8 becomes a code block document; other files are skipped, as binary
/// or as of an unsupported format.
pub open spec fn process_spec(r: ArchiveView, path: Seq<char>, contents: Seq<u8>) -> ArchiveView {
    let ext = ext_string(path);
    if text_extensions().contains(ext) {
        if valid_utf8(contents) {
            ArchiveView {
                documents: r.documents.push((path, markdown_view(code_block_md(decode_utf8(contents))))),
                ..r
            }
        } else {
            ArchiveView { skipped: r.skipped.push((path, "Binary file"@)), ..r }
        }
    } else {
        ArchiveView { skipped: r.skipped.push((path, "Unsupported format: "@ + ext)), ..r }
    }
}

/// The view of a document of one page (number 1) holding one Markdown
/// block.
pub open spec fn markdown_view(md: Seq<char>) -> DocumentView {
    DocumentView {
        title: None,
        pages: seq![DocPageView { page_number: 1, content: seq![BlockView::Markdown(md)], rendered_image: None }],
        metadata: seq![],
    }
}

pub proof fn lemma_markdown_view(d: Document, md: Seq<char>)
    requires
        is_markdown_doc(d, md),
    ensures
        d@ == markdown_view(md),
{
    assert(d@.pages[0].content =~= seq![BlockView::Markdown(md)]);
    assert(d@.pages =~= markdown_view(md).pages);
    assert(d@.metadata =~= Seq::<(Seq<char>, Seq<char>)>::empty());
}

/// The message that the `Display` of the error of `std::str::from_utf8`
/// writes for invalid UTF-8.
pub uninterp spec fn utf8_error_text(b: Seq<u8>) -> Seq<char>;

/// Calls `std::str::from_utf8`: the text of valid UTF-8, or the message of
/// the error.
#[verifier::external_body]
pub(crate) fn utf8_text(b: &[u8]) -> (r: Result<Vec<char>, String>)
    ensures
        match r {
            Ok(v) => valid_utf8(b@) && v@ == decode_utf8(b@),
            Err(m) => !valid_utf8(b@) && m@ == utf8_error_text(b@),
        },
{
    match std::str::from_utf8(b) {
        Ok(s) => Ok(s.chars().collect()),
        Err(e) => Err(e.to_string()),
    }
}

/// The summary of an archive: counts, each converted document under its
/// path, and the skipped files with their reasons.
pub open spec fn summary_md(r: ArchiveView, name: Seq<char>) -> Seq<char> {
    "# Archive: "@ + name + "\n\n"@ + "**Total files:** "@ + decimal(r.total) + "\n"@ + "**Converted:** "@
        + decimal(r.documents.len()) + "\n"@ + "**Skipped:** "@ + decimal(r.skipped.len()) + "\n\n"@
        + "## Contents\n\n"@ + documents_md(r.documents) + (if r.skipped.len() > 0 {
        "## Skipped Files\n\n"@ + skipped_md(r.skipped)
    } else {
        seq![]
    })
}

/// Each document under a heading with its path, followed by a rule.
pub open spec fn documents_md(docs: Seq<(Seq<char>, DocumentView)>) -> Seq<char>
    decreases docs.len(),
{
    if docs.len() == 0 {
        seq![]
    } else {
        documents_md(docs.drop_last()) + "### \u{1F4C4} "@ + docs.last().0 + "\n\n"@ + doc_md(docs.last().1)
            + "\n---\n\n"@
    }
}

/// Each skipped file as a list item with its reason.
pub open spec fn skipped_md(skipped: Seq<(Seq<char>, Seq<char>)>) -> Seq<char>
    decreases skipped.len(),
{
    if skipped.len() == 0 {
        seq![]
    } else {
        skipped_md(skipped.drop_last()) + "- `"@ + skipped.last().0 + "`: "@ + skipped.last().1 + "\n"@
    }
}

impl ArchiveExtractionResult {
    /// An empty result.
    pub fn new() -> (r: Self)
        ensures
            r@.documents.len() == 0,
            r@.skipped.len() == 0,
            r@.total == 0,
    {
        ArchiveExtractionResult { documents: Vec::new(), skipped_files: Vec::new(), total_files: 0 }
    }

    /// A one-page document of the summary of the result.
    pub fn to_document(&self, archive_name: &str) -> (r: Document)
        ensures
            is_markdown_doc(r, summary_md(self@, archive_name@)),
    {
        let ghost v = self@;
        let mut md: Vec<char> = Vec::new();
        extend_str(&mut md, "# Archive: ");
        extend_str(&mut md, archive_name);
        extend_str(&mut md, "\n\n");
        extend_str(&mut md, "**Total files:** ");
        push_decimal(&mut md, self.total_files);
        extend_str(&mut md, "\n");
        extend_str(&mut md, "**Converted:** ");
        push_decimal(&mut md, self.documents.len());
        extend_str(&mut md, "\n");
        extend_str(&mut md, "**Skipped:** ");
        push_decimal(&mut md, self.skipped_files.len());
        extend_str(&mut md, "\n\n");
        extend_str(&mut md, "## Contents\n\n");
        let ghost head = md@;
        let mut i: usize = 0;
        while i < self.documents.len()
            invariant
                i <= self.documents@.len(),
                v == self@,
                md@ == head + documents_md(v.documents.take(i as int)),
            decreases self.documents@.len() - i,
        {
            assert(v.documents.take(i + 1).drop_last() =~= v.documents.take(i as int));
            extend_str(&mut md, "### \u{1F4C4} ");
            extend_str(&mut md, self.documents[i].0.as_str());
            extend_str(&mut md, "\n\n");
            let dm = self.documents[i].1.to_markdown();
            extend_str(&mut md, dm.as_str());
            extend_str(&mut md, "\n---\n\n");
            assert(md@ =~= head + documents_md(v.documents.take(i + 1)));
            i += 1;
        }
        assert(v.documents.take(i as int) =~= v.documents);
        let ghost mid = md@;
        if self.skipped_files.len() > 0 {
            extend_str(&mut md, "## Skipped Files\n\n");
            let ghost head2 = md@;
            let mut k: usize = 0;
            while k < self.skipped_files.len()
                invariant
                    k <= self.skipped_files@.len(),
                    v == self@,
                    md@ == head2 + skipped_md(v.skipped.take(k as int)),
                decreases self.skipped_files@.len() - k,
            {
                assert(v.skipped.take(k + 1).drop_last() =~= v.skipped.take(k as int));
                extend_str(&mut md, "- `");
                extend_str(&mut md, self.skipped_files[k].0.as_str());
                extend_str(&mut md, "`: ");
                extend_str(&mut md, self.skipped_files[k].1.as_str());
                extend_str(&mut md, "\n");
                assert(md@ =~= head2 + skipped_md(v.skipped.take(k + 1)));
                k += 1;
            }
            assert(v.skipped.take(k as int) =~= v.skipped);
        }
        assert(md@ =~= summary_md(v, archive_name@));
        markdown_document(md)
    }
}

/// Adds one file of an archive to the result.
pub fn process_file(result: ArchiveExtractionResult, path: &str, contents: &[u8]) -> (r: ArchiveExtractionResult)
    ensures
        r@ == process_spec(result@, path@, contents@),
{
    let mut result = result;
    let ghost r0 = result@;
    let ext = extension_string(path);
    let p = String::from_str(path);
    if is_text_extension_chars(ext.as_slice()) {
        match utf8_text(contents) {
            Ok(text) => {
                let mut md: Vec<char> = Vec::new();
                extend_str(&mut md, "```\n");
                extend_chars(&mut md, text.as_slice());
                extend_str(&mut md, "\n```");
                let doc = markdown_document(md);
                proof {
                    lemma_markdown_view(doc, code_block_md(text@));
                }
                result.documents.push((p, doc));
            },
            Err(_) => {
                result.skipped_files.push((p, String::from_str("Binary file")));
            },
        }
    } else {
        let mut reason: Vec<char> = Vec::new();
        extend_str(&mut reason, "Unsupported format: ");
        extend_chars(&mut reason, ext.as_slice());
        result.skipped_files.push((p, to_string(reason.as_slice())));
    }
    assert(result@.documents =~= process_spec(r0, path@, contents@).documents);
    assert(result@.skipped =~= process_spec(r0, path@, contents@).skipped);
    result
}

} // verus!
