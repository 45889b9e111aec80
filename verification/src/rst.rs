//! reStructuredText to Markdown conversion.
use vstd::prelude::*;
use crate::chars::{from_utf8_lossy, utf8_lossy};
use crate::model::{ext_views, is_markdown_doc, markdown_document, Document, DocumentConverter};
use crate::pattern::{regex_replace_all, replace_all};
use crate::table_merge::{byte_len, wsum};
use crate::text::{
    ends_with_str, extend_chars, extend_str, has_prefix, has_suffix, is_blank, lines_of,
    push_repeat, repeat_char, split_lines, starts_with_str, sub_vec, trim, trim_chars,
};

verus! {

/// reStructuredText to Markdown converter.
pub struct RstConverter;

/// ``` ``code`` ```.
pub const RST_CODE: &'static str = r"``([^`]+)``";
/// `` `text <url>`_ ``.
pub const RST_LINK: &'static str = r"`([^<]+)\s+<([^>]+)>`_";

/// Inline literals and links rewritten as Markdown.
pub open spec fn rst_inline(line: Seq<char>) -> Seq<char> {
    let r1 = regex_replace_all(RST_CODE@, line, "`$1`"@);
    regex_replace_all(RST_LINK@, r1, "[$1]($2)"@)
}

fn convert_inline(line: &[char]) -> (r: Vec<char>)
    ensures
        r@ == rst_inline(line@),
{
    let r1 = replace_all(RST_CODE, line, "`$1`");
    replace_all(RST_LINK, r1.as_slice(), "[$1]($2)")
}

/// The text with every trailing `::` removed.
pub open spec fn trim_colons(s: Seq<char>) -> Seq<char>
    decreases s.len(),
{
    if s.len() >= 2 && s[s.len() - 2] == ':' && s[s.len() - 1] == ':' {
        trim_colons(s.take(s.len() - 2))
    } else {
        s
    }
}

/// A character that can underline a title.
pub open spec fn is_underline_char(c: char) -> bool {
    c == '=' || c == '-' || c == '~' || c == '^' || c == '"' || c == '+' || c == '*'
}

/// `next` underlines `line`: it is not empty, at least as long in bytes,
/// and made of one repeated underline character.
pub open spec fn underlines(next: Seq<char>, line: Seq<char>) -> bool {
    &&& next.len() > 0
    &&& wsum(next, true) >= wsum(line, true)
    &&& is_underline_char(next[0])
    &&& forall|k: int| 0 <= k < next.len() ==> #[trigger] next[k] == next[0]
}

/// The heading level given by an underline character.
pub open spec fn underline_level(c: char) -> nat {
    if c == '=' {
        1
    } else if c == '-' {
        2
    } else if c == '~' {
        3
    } else if c == '^' {
        4
    } else {
        5
    }
}

/// Four spaces.
pub open spec fn four_spaces() -> Seq<char> {
    seq![' ', ' ', ' ', ' ']
}

/// A code line without its first level of indentation.
pub open spec fn dedent(line: Seq<char>) -> Seq<char> {
    if has_prefix(line, four_spaces()) {
        line.skip(4)
    } else if has_prefix(line, seq!['\t']) {
        line.skip(1)
    } else {
        line
    }
}

/// The Markdown for lines `i..`, given whether a code block is open.
pub open spec fn rst_from(ls: Seq<Seq<char>>, i: int, in_code: bool) -> Seq<char>
    decreases 2 * (ls.len() - i) + (if in_code {
        1int
    } else {
        0int
    }),
{
    if i < 0 || i >= ls.len() {
        if in_code {
            "```\n"@
        } else {
            seq![]
        }
    } else {
        let line = ls[i];
        let t = trim(line);
        if has_suffix(t, "::"@) {
            let text = trim_colons(t);
            let head = if text.len() > 0 {
                text + seq!['\n']
            } else {
                seq![]
            };
            let j = if i + 1 < ls.len() && trim(ls[i + 1]).len() == 0 {
                i + 2
            } else {
                i + 1
            };
            head + "```\n"@ + rst_from(ls, j, true)
        } else if in_code {
            if t.len() == 0 || has_prefix(line, four_spaces()) || has_prefix(line, seq!['\t']) {
                dedent(line) + seq!['\n'] + rst_from(ls, i + 1, true)
            } else {
                "```\n"@ + rst_from(ls, i, false)
            }
        } else if i + 1 < ls.len() && underlines(ls[i + 1], line) {
            repeat_char('#', underline_level(ls[i + 1][0])) + seq![' '] + t + seq!['\n'] + rst_from(
                ls,
                i + 2,
                false,
            )
        } else {
            let converted = rst_inline(line);
            if has_prefix(trim(converted), ".."@) {
                rst_from(ls, i + 1, false)
            } else {
                converted + seq!['\n'] + rst_from(ls, i + 1, false)
            }
        }
    }
}

/// The Markdown for reStructuredText.
pub open spec fn rst_markdown(content: Seq<char>) -> Seq<char> {
    rst_from(lines_of(content), 0, false)
}

fn trim_colons_exec(s: &[char]) -> (r: Vec<char>)
    ensures
        r@ == trim_colons(s@),
{
    let mut n = s.len();
    assert(s@.take(n as int) =~= s@);
    while n >= 2 && s[n - 2] == ':' && s[n - 1] == ':'
        invariant
            n <= s@.len(),
            trim_colons(s@) == trim_colons(s@.take(n as int)),
        decreases n,
    {
        assert(s@.take(n as int).take(n - 2) =~= s@.take(n - 2));
        n = n - 2;
    }
    sub_vec(s, 0, n)
}

fn is_underline(next: &[char], line: &[char]) -> (r: bool)
    ensures
        r == underlines(next@, line@),
{
    if next.len() == 0 {
        return false;
    }
    if byte_len(next) < byte_len(line) {
        return false;
    }
    let c = next[0];
    if !(c == '=' || c == '-' || c == '~' || c == '^' || c == '"' || c == '+' || c == '*') {
        return false;
    }
    let mut k: usize = 0;
    while k < next.len()
        invariant
            k <= next@.len(),
            c == next@[0],
            forall|j: int| 0 <= j < k ==> next@[j] == c,
        decreases next@.len() - k,
    {
        if next[k] != c {
            return false;
        }
        k += 1;
    }
    true
}

/// Converts reStructuredText to Markdown.
pub fn rst_to_markdown(content: &[char]) -> (r: Vec<char>)
    ensures
        r@ == rst_markdown(content@),
{
    let lines = split_lines(content);
    let ghost ls = lines_of(content@);
    let n = lines.len();
    let mut out: Vec<char> = Vec::new();
    let mut i: usize = 0;
    let mut in_code = false;
    while i < n
        invariant
            lines.deep_view() == ls,
            n == ls.len(),
            i <= n,
            rst_markdown(content@) == out@ + rst_from(ls, i as int, in_code),
        decreases 2 * (n - i) + (if in_code {
            1int
        } else {
            0int
        }),
    {
        let line = &lines[i];
        assert(ls[i as int] == line@) by {
            crate::text::lemma_chars_deep_view(*line);
        }
        let ghost before = out@;
        let t = trim_chars(line.as_slice());
        if ends_with_str(&t, "::") {
            let text = trim_colons_exec(t.as_slice());
            if text.len() > 0 {
                extend_chars(&mut out, text.as_slice());
                out.push('\n');
            }
            extend_str(&mut out, "```\n");
            let ghost i0 = i as int;
            i += 1;
            if i < n {
                assert(ls[i as int] == lines@[i as int]@) by {
                    crate::text::lemma_chars_deep_view(lines@[i as int]);
                }
                if is_blank(lines[i].as_slice()) {
                    i += 1;
                }
            }
            in_code = true;
            assert(out@ + rst_from(ls, i as int, true) =~= before + rst_from(ls, i0, false));
            continue;
        }
        if in_code {
            proof {
                assert("    "@ =~= four_spaces()) by {
                    reveal_strlit("    ");
                }
                assert("\t"@ =~= seq!['\t']) by {
                    reveal_strlit("\t");
                }
            }
            if t.len() == 0 || starts_with_str(line.as_slice(), "    ") || starts_with_str(
                line.as_slice(),
                "\t",
            ) {
                let d = if starts_with_str(line.as_slice(), "    ") {
                    sub_vec(line.as_slice(), 4, line.len())
                } else if starts_with_str(line.as_slice(), "\t") {
                    sub_vec(line.as_slice(), 1, line.len())
                } else {
                    sub_vec(line.as_slice(), 0, line.len())
                };
                proof {
                    assert("    "@ =~= four_spaces()) by {
                        reveal_strlit("    ");
                    }
                    assert("\t"@ =~= seq!['\t']) by {
                        reveal_strlit("\t");
                    }
                    if has_prefix(line@, four_spaces()) {
                        assert(d@ =~= line@.skip(4));
                    } else if has_prefix(line@, seq!['\t']) {
                        assert(d@ =~= line@.skip(1));
                    } else {
                        assert(d@ =~= line@);
                    }
                }
                extend_chars(&mut out, d.as_slice());
                out.push('\n');
                i += 1;
                assert(out@ + rst_from(ls, i as int, true) =~= before + rst_from(ls, i - 1, true));
            } else {
                proof {
                    assert("    "@ =~= four_spaces()) by {
                        reveal_strlit("    ");
                    }
                    assert("\t"@ =~= seq!['\t']) by {
                        reveal_strlit("\t");
                    }
                }
                in_code = false;
                extend_str(&mut out, "```\n");
                assert(out@ + rst_from(ls, i as int, false) =~= before + rst_from(ls, i as int, true));
            }
            continue;
        }
        proof {
            if i + 1 < n {
                assert(ls[i + 1] == lines@[i + 1]@) by {
                    crate::text::lemma_chars_deep_view(lines@[i + 1]);
                }
            }
        }
        if i + 1 < n && is_underline(lines[i + 1].as_slice(), line.as_slice()) {
            let c = lines[i + 1][0];
            let level: usize = if c == '=' {
                1
            } else if c == '-' {
                2
            } else if c == '~' {
                3
            } else if c == '^' {
                4
            } else {
                5
            };
            push_repeat(&mut out, '#', level);
            out.push(' ');
            extend_chars(&mut out, t.as_slice());
            out.push('\n');
            i += 2;
            assert(out@ + rst_from(ls, i as int, false) =~= before + rst_from(ls, i - 2, false));
            continue;
        }
        let converted = convert_inline(line.as_slice());
        let ct = trim_chars(converted.as_slice());
        if !starts_with_str(&ct, "..") {
            extend_chars(&mut out, converted.as_slice());
            out.push('\n');
        }
        i += 1;
        assert(out@ + rst_from(ls, i as int, false) =~= before + rst_from(ls, i - 1, false));
    }
    if in_code {
        extend_str(&mut out, "```\n");
    }
    out
}

impl RstConverter {
    /// Converts reStructuredText bytes (decoded as UTF-8, invalid
    /// sequences replaced) to a one-page Markdown document.
    pub fn convert_bytes(&self, bytes: &[u8]) -> (r: Document)
        ensures
            is_markdown_doc(r, rst_markdown(utf8_lossy(bytes@))),
    {
        let content = from_utf8_lossy(bytes);
        markdown_document(rst_to_markdown(content.as_slice()))
    }
}

impl DocumentConverter for RstConverter {
    open spec fn extensions(&self) -> Seq<Seq<char>> {
        seq![".rst"@, ".rest"@]
    }

    fn supported_extensions(&self) -> (r: Vec<&'static str>) {
        let r = vec![".rst", ".rest"];
        assert(ext_views(r@) =~= self.extensions());
        r
    }
}

} // verus!
