//! RTF documents to text, as the `rtf_parser` crate reads them.
use vstd::prelude::*;
use crate::chars::{from_utf8_lossy, is_ascii_digit, to_string, utf8_lossy};
use crate::error::{is_parse_error, parse_error, MarkitdownError};
use crate::model::{ext_views, opt_str, BlockView, ContentBlock, ConversionOptions, DocPageView, Document, DocumentConverter, DocumentView, Page};
use crate::text::{chars_eq_str, chars_of, extend_chars, extend_str, trim, trim_chars};

verus! {

/// RTF converter.
pub struct RtfConverter;

/// The text that `RtfDocument::try_from` and `get_text` give for the
/// content, or the `Debug` text of the error.
pub uninterp spec fn rtf_text(content: Seq<char>) -> Result<Seq<char>, Seq<char>>;

/// The length of the run of ASCII digits at position `j`.
pub open spec fn digit_run(s: Seq<char>, j: int) -> nat
    decreases s.len() - j,
{
    if 0 <= j < s.len() && is_ascii_digit(s[j]) {
        1 + digit_run(s, j + 1)
    } else {
        0
    }
}

/// The value of the `k` digits at position `j`, counted up to 100000.
pub open spec fn capped_value(s: Seq<char>, j: int, k: nat) -> nat
    decreases k,
{
    if k == 0 {
        0
    } else {
        let v = capped_value(s, j, (k - 1) as nat) * 10 + (s[j + k - 1] as nat - '0' as nat);
        if v >= 100000 {
            100000
        } else {
            v as nat
        }
    }
}

/// The number written at position `j`, counted up to 100000.
pub open spec fn number_at(s: Seq<char>, j: int) -> nat {
    capped_value(s, j, digit_run(s, j))
}

/// A Unicode escape at position `i` that the RTF parser cannot take: a
/// `\u` escape for a UTF-16 surrogate (written as 55296 to 57343, or as
/// -10240 to -8193), or a `\uc` count that is negative or of 100000 or
/// more.
pub open spec fn unsafe_escape_at(s: Seq<char>, i: int) -> bool {
    &&& 0 <= i
    &&& i + 1 < s.len()
    &&& s[i] == '\\'
    &&& s[i + 1] == 'u'
    &&& if i + 2 < s.len() && s[i + 2] == 'c' {
        i + 3 < s.len() && (s[i + 3] == '-' || number_at(s, i + 3) >= 100000)
    } else if i + 2 < s.len() && s[i + 2] == '-' {
        8193 <= number_at(s, i + 3) <= 10240
    } else {
        55296 <= number_at(s, i + 2) <= 57343
    }
}

/// RTF text without Unicode escapes that the parser cannot take.
pub open spec fn rtf_safe(s: Seq<char>) -> bool {
    forall|i: int| 0 <= i < s.len() ==> !#[trigger] unsafe_escape_at(s, i)
}

/// The number written at position `j`, counted up to 100000.
fn number_at_exec(s: &[char], j: usize) -> (r: u32)
    requires
        j <= s@.len(),
    ensures
        r as nat == number_at(s@, j as int),
{
    let mut k: usize = j;
    let mut v: u32 = 0;
    while k < s.len() && is_ascii_digit_char(s[k])
        invariant
            j <= k <= s@.len(),
            v as nat == capped_value(s@, j as int, (k - j) as nat),
            v <= 100000,
            digit_run(s@, j as int) == (k - j) + digit_run(s@, k as int),
        decreases s@.len() - k,
    {
        let d = (s[k] as u32) - ('0' as u32);
        let w = v * 10 + d;
        v = if w >= 100000 {
            100000
        } else {
            w
        };
        k += 1;
    }
    v
}

fn is_ascii_digit_char(c: char) -> (r: bool)
    ensures
        r == is_ascii_digit(c),
{
    '0' <= c && c <= '9'
}

/// Whether the RTF text has no Unicode escape that the parser cannot take.
pub fn rtf_escapes_safe(s: &[char]) -> (r: bool)
    ensures
        r == rtf_safe(s@),
{
    let n = s.len();
    let mut i: usize = 0;
    while i < n
        invariant
            n == s@.len(),
            i <= n,
            forall|k: int| 0 <= k < i ==> !#[trigger] unsafe_escape_at(s@, k),
        decreases n - i,
    {
        if i + 1 < n && s[i] == '\\' && s[i + 1] == 'u' {
            let bad = if i + 2 < n && s[i + 2] == 'c' {
                i + 3 < n && (s[i + 3] == '-' || number_at_exec(s, i + 3) >= 100000)
            } else if i + 2 < n && s[i + 2] == '-' {
                let v = number_at_exec(s, i + 3);
                8193 <= v && v <= 10240
            } else {
                let v = number_at_exec(s, i + 2);
                55296 <= v && v <= 57343
            };
            if bad {
                assert(unsafe_escape_at(s@, i as int));
                return false;
            }
        }
        assert(!unsafe_escape_at(s@, i as int));
        i += 1;
    }
    true
}

/// Parses the content with `RtfDocument::try_from` and gives `get_text`,
/// or the error formatted with `{:?}`. The content holds no Unicode escape
/// on which the parser panics (`String::from_utf16(..).unwrap()` on a
/// surrogate, a `Vec` capacity from a negative or huge `\uc`); that the
/// lexer returns on every other text is taken from its source, which
/// returns errors rather than panicking.
#[verifier::external_body]
fn read_rtf(content: &str) -> (r: Result<String, String>)
    requires
        rtf_safe(content@),
    ensures
        match r {
            Ok(t) => rtf_text(content@) == Ok::<Seq<char>, Seq<char>>(t@),
            Err(m) => rtf_text(content@) == Err::<Seq<char>, Seq<char>>(m@),
        },
{
    match rtf_parser::document::RtfDocument::try_from(content.to_string()) {
        Ok(doc) => Ok(doc.get_text()),
        Err(e) => Err(format!("{:?}", e)),
    }
}

/// The document of RTF text: one page holding the trimmed text, where it
/// is not empty.
pub open spec fn rtf_document(t: Seq<char>) -> DocumentView {
    DocumentView {
        title: None,
        pages: seq![
            DocPageView {
                page_number: 1,
                content: if trim(t).len() > 0 {
                    seq![BlockView::Text(trim(t))]
                } else {
                    Seq::empty()
                },
                rendered_image: None,
            },
        ],
        metadata: Seq::empty(),
    }
}

/// The result for RTF bytes (decoded as UTF-8, invalid sequences replaced).
/// Text with an escape that the parser cannot take is refused with the
/// message [`unsafe_escape_message`].
pub open spec fn rtf_result(b: Seq<u8>, r: Result<Document, MarkitdownError>) -> bool {
    if !rtf_safe(utf8_lossy(b)) {
        r matches Err(e) && is_parse_error(e, "RTF parser error: "@ + unsafe_escape_message())
    } else {
        match rtf_text(utf8_lossy(b)) {
            Ok(t) => r matches Ok(d) && d@ == rtf_document(t),
            Err(m) => r matches Err(e) && is_parse_error(e, "RTF parser error: "@ + m),
        }
    }
}

/// The message for text with an escape that the parser cannot take.
pub open spec fn unsafe_escape_message() -> Seq<char> {
    "unsupported Unicode escape (a UTF-16 surrogate or a negative or huge \\uc count)"@
}

impl RtfConverter {
    /// The trimmed text of RTF bytes; text that does not parse is a parse
    /// error.
    pub fn extract_text(bytes: &[u8]) -> (r: Result<String, MarkitdownError>)
        ensures
            !rtf_safe(utf8_lossy(bytes@)) ==> (r matches Err(e) && is_parse_error(
                e,
                "RTF parser error: "@ + unsafe_escape_message(),
            )),
            rtf_safe(utf8_lossy(bytes@)) ==> match rtf_text(utf8_lossy(bytes@)) {
                Ok(t) => r matches Ok(s) && s@ == trim(t),
                Err(m) => r matches Err(e) && is_parse_error(e, "RTF parser error: "@ + m),
            },
    {
        let chars = from_utf8_lossy(bytes);
        if !rtf_escapes_safe(chars.as_slice()) {
            let m = chars_of("unsupported Unicode escape (a UTF-16 surrogate or a negative or huge \\uc count)");
            return Err(parse_error("RTF parser error: ", m.as_slice()));
        }
        let content = to_string(chars.as_slice());
        match read_rtf(content.as_str()) {
            Ok(t) => {
                let tc = chars_of(t.as_str());
                Ok(to_string(trim_chars(tc.as_slice()).as_slice()))
            },
            Err(m) => {
                let mc = chars_of(m.as_str());
                Err(parse_error("RTF parser error: ", mc.as_slice()))
            },
        }
    }

    /// Converts RTF bytes; an extension hint other than `.rtf` is an
    /// invalid file.
    pub fn convert_bytes(&self, bytes: &[u8], options: Option<&ConversionOptions>) -> (r: Result<Document, MarkitdownError>)
        ensures
            match options {
                Some(o) => match opt_str(o.file_extension) {
                    Some(e) => if e == ".rtf"@ {
                        rtf_result(bytes@, r)
                    } else {
                        r matches Err(MarkitdownError::InvalidFile(m)) && m@ == "Expected .rtf file, got "@ + e
                    },
                    None => rtf_result(bytes@, r),
                },
                None => rtf_result(bytes@, r),
            },
    {
        match options {
            Some(o) => match &o.file_extension {
                Some(e) => {
                    let c = chars_of(e.as_str());
                    if !chars_eq_str(c.as_slice(), ".rtf") {
                        let mut m: Vec<char> = Vec::new();
                        extend_str(&mut m, "Expected .rtf file, got ");
                        extend_chars(&mut m, c.as_slice());
                        return Err(MarkitdownError::InvalidFile(to_string(m.as_slice())));
                    }
                },
                None => {},
            },
            None => {},
        }
        let text = match Self::extract_text(bytes) {
            Ok(t) => t,
            Err(e) => {
                return Err(e);
            },
        };
        let mut page = Page::new(1);
        let ghost tv = text@;
        if !text.as_str().is_empty() {
            page.add_content(ContentBlock::Text(text));
        }
        let mut doc = Document::new();
        let ghost pv = page@;
        doc.add_page(page);
        assert(doc@.pages =~= seq![pv]);
        assert(doc@.metadata =~= Seq::<(Seq<char>, Seq<char>)>::empty());
        proof {
            if tv.len() > 0 {
                assert(pv.content =~= seq![BlockView::Text(tv)]);
            } else {
                assert(pv.content =~= Seq::<BlockView>::empty());
            }
        }
        Ok(doc)
    }
}

impl DocumentConverter for RtfConverter {
    open spec fn extensions(&self) -> Seq<Seq<char>> {
        seq![".rtf"@]
    }

    fn supported_extensions(&self) -> (r: Vec<&'static str>) {
        let r = vec![".rtf"];
        assert(ext_views(r@) =~= self.extensions());
        r
    }
}

} // verus!
