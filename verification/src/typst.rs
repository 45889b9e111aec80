//! Typst to Markdown conversion, line by line.
use vstd::prelude::*;
use crate::chars::{from_utf8_lossy, utf8_lossy};
use crate::model::{ext_views, is_markdown_doc, markdown_document, Document, DocumentConverter};
use crate::pattern::{first_group, regex_first_group, regex_replace_all, replace_all};
use crate::text::{
    chars_of, extend_chars, extend_str, has_prefix, lines_of, push_repeat, repeat_char, split_lines, starts_with_str,
    sub_vec, trim, trim_chars,
};

verus! {

/// Typst to Markdown converter.
pub struct TypstConverter;

/// `#strong[..]`.
pub const TYPST_STRONG: &'static str = r"#strong\[([^\]]+)\]";
/// `#emph[..]`.
pub const TYPST_EMPH: &'static str = r"#emph\[([^\]]+)\]";
/// `#text[..]`, with optional arguments.
pub const TYPST_TEXT: &'static str = r"#text(?:\[[^\]]*\])?\[([^\]]+)\]";
/// `#link("url")[text]`.
pub const TYPST_LINK_TEXT: &'static str = r#"#link\("([^"]+)"\)\[([^\]]+)\]"#;
/// `#link("url")`.
pub const TYPST_LINK_BARE: &'static str = r#"#link\("([^"]+)"\)"#;
/// `#heading[..]`, with optional arguments, capturing the content.
pub const TYPST_HEADING: &'static str = r"#heading(?:\[[^\]]*\])?\[([^\]]+)\]";

/// Inline functions rewritten as Markdown.
pub open spec fn typst_inline(line: Seq<char>) -> Seq<char> {
    let r1 = regex_replace_all(TYPST_STRONG@, line, "**$1**"@);
    let r2 = regex_replace_all(TYPST_EMPH@, r1, "*$1*"@);
    let r3 = regex_replace_all(TYPST_TEXT@, r2, "$1"@);
    let r4 = regex_replace_all(TYPST_LINK_TEXT@, r3, "[$2]($1)"@);
    regex_replace_all(TYPST_LINK_BARE@, r4, "<$1>"@)
}

fn convert_inline_functions(line: &[char]) -> (r: Vec<char>)
    ensures
        r@ == typst_inline(line@),
{
    let r1 = replace_all(TYPST_STRONG, line, "**$1**");
    let r2 = replace_all(TYPST_EMPH, r1.as_slice(), "*$1*");
    let r3 = replace_all(TYPST_TEXT, r2.as_slice(), "$1");
    let r4 = replace_all(TYPST_LINK_TEXT, r3.as_slice(), "[$2]($1)");
    replace_all(TYPST_LINK_BARE, r4.as_slice(), "<$1>")
}

/// The number of leading `=` characters: the level of a heading.
pub open spec fn leading_eqs(s: Seq<char>) -> nat
    decreases s.len(),
{
    if s.len() > 0 && s[0] == '=' {
        1 + leading_eqs(s.drop_first())
    } else {
        0
    }
}

fn count_leading_eqs(line: &[char]) -> (r: usize)
    ensures
        r == leading_eqs(line@),
        r <= line@.len(),
{
    let mut k: usize = 0;
    assert(line@.skip(0) =~= line@);
    while k < line.len() && line[k] == '='
        invariant
            k <= line@.len(),
            leading_eqs(line@) == k + leading_eqs(line@.skip(k as int)),
        decreases line@.len() - k,
    {
        assert(line@.skip(k as int).drop_first() =~= line@.skip(k + 1));
        k += 1;
    }
    k
}

/// A directive line that is skipped.
pub open spec fn is_directive(t: Seq<char>) -> bool {
    has_prefix(t, "#set"@) || has_prefix(t, "#let"@) || has_prefix(t, "#show"@) || has_prefix(
        t,
        "#import"@,
    )
}

/// One line: whether a raw block is open afterwards, and the Markdown
/// written for it.
pub open spec fn typst_step(in_code: bool, line: Seq<char>) -> (bool, Seq<char>) {
    let t = trim(line);
    if has_prefix(t, "```"@) {
        if in_code {
            (false, "```\n"@)
        } else {
            (true, "```"@ + trim(t.skip("```"@.len() as int)) + seq!['\n'])
        }
    } else if in_code {
        (in_code, line + seq!['\n'])
    } else if t.len() > 0 && t[0] == '=' {
        let level = leading_eqs(t);
        (in_code, repeat_char('#', level) + seq![' '] + trim(t.skip(level as int)) + seq!['\n', '\n'])
    } else if is_directive(t) {
        (in_code, seq![])
    } else if has_prefix(t, "#heading"@) && regex_first_group(TYPST_HEADING@, t) is Some {
        (in_code, "## "@ + regex_first_group(TYPST_HEADING@, t).unwrap() + seq!['\n', '\n'])
    } else {
        (in_code, typst_inline(line) + seq!['\n'])
    }
}

/// The Markdown for the lines.
pub open spec fn typst_lines(in_code: bool, ls: Seq<Seq<char>>) -> Seq<char>
    decreases ls.len(),
{
    if ls.len() == 0 {
        seq![]
    } else {
        let (c2, out) = typst_step(in_code, ls[0]);
        out + typst_lines(c2, ls.drop_first())
    }
}

/// The Markdown for Typst text.
pub open spec fn typst_markdown(content: Seq<char>) -> Seq<char> {
    typst_lines(false, lines_of(content))
}

fn typst_line(in_code: &mut bool, line: &[char], out: &mut Vec<char>)
    ensures
        *final(in_code) == typst_step(*old(in_code), line@).0,
        final(out)@ == old(out)@ + typst_step(*old(in_code), line@).1,
{
    let t = trim_chars(line);
    let ghost t0 = trim(line@);
    if starts_with_str(&t, "```") {
        if *in_code {
            *in_code = false;
            extend_str(out, "```\n");
        } else {
            *in_code = true;
            let fence = chars_of("```");
            let rest = sub_vec(t.as_slice(), fence.len(), t.len());
            assert(rest@ =~= t0.skip("```"@.len() as int));
            let lang = trim_chars(rest.as_slice());
            extend_str(out, "```");
            extend_chars(out, lang.as_slice());
            out.push('\n');
        }
        return;
    }
    if *in_code {
        extend_chars(out, line);
        out.push('\n');
        return;
    }
    if t.len() > 0 && t[0] == '=' {
        let level = count_leading_eqs(t.as_slice());
        let rest = sub_vec(t.as_slice(), level, t.len());
        assert(rest@ =~= t0.skip(level as int));
        let text = trim_chars(rest.as_slice());
        push_repeat(out, '#', level);
        out.push(' ');
        extend_chars(out, text.as_slice());
        out.push('\n');
        out.push('\n');
        return;
    }
    if starts_with_str(&t, "#set") || starts_with_str(&t, "#let") || starts_with_str(&t, "#show")
        || starts_with_str(&t, "#import") {
        return;
    }
    if starts_with_str(&t, "#heading") {
        if let Some(text) = first_group(TYPST_HEADING, t.as_slice()) {
            extend_str(out, "## ");
            extend_chars(out, text.as_slice());
            out.push('\n');
            out.push('\n');
            return;
        }
    }
    let converted = convert_inline_functions(line);
    extend_chars(out, converted.as_slice());
    out.push('\n');
}

/// Converts Typst text to Markdown.
pub fn typst_to_markdown(content: &[char]) -> (r: Vec<char>)
    ensures
        r@ == typst_markdown(content@),
{
    let lines = split_lines(content);
    let ghost ls = lines_of(content@);
    let mut in_code = false;
    let mut out: Vec<char> = Vec::new();
    let mut k: usize = 0;
    assert(ls.skip(0) =~= ls);
    while k < lines.len()
        invariant
            lines.deep_view() == ls,
            k <= lines@.len(),
            typst_markdown(content@) == out@ + typst_lines(in_code, ls.skip(k as int)),
        decreases lines@.len() - k,
    {
        let ghost rest = ls.skip(k as int);
        assert(rest[0] == lines@[k as int]@) by {
            crate::text::lemma_chars_deep_view(lines@[k as int]);
        }
        assert(rest.drop_first() =~= ls.skip(k + 1));
        let ghost before = out@;
        let ghost c0 = in_code;
        typst_line(&mut in_code, lines[k].as_slice(), &mut out);
        assert(out@ + typst_lines(in_code, ls.skip(k + 1)) =~= before + typst_lines(c0, rest));
        k += 1;
    }
    assert(ls.skip(k as int) =~= Seq::<Seq<char>>::empty());
    out
}

impl TypstConverter {
    /// Converts Typst bytes (decoded as UTF-8, invalid sequences replaced)
    /// to a one-page Markdown document.
    pub fn convert_bytes(&self, bytes: &[u8]) -> (r: Document)
        ensures
            is_markdown_doc(r, typst_markdown(utf8_lossy(bytes@))),
    {
        let content = from_utf8_lossy(bytes);
        markdown_document(typst_to_markdown(content.as_slice()))
    }
}

impl DocumentConverter for TypstConverter {
    open spec fn extensions(&self) -> Seq<Seq<char>> {
        seq![".typ"@, ".typst"@]
    }

    fn supported_extensions(&self) -> (r: Vec<&'static str>) {
        let r = vec![".typ", ".typst"];
        assert(ext_views(r@) =~= self.extensions());
        r
    }
}

} // verus!
