//! Org-mode to Markdown conversion, line by line.
use vstd::prelude::*;
use crate::chars::{from_utf8_lossy, to_lowercase, unicode_lowercase, utf8_lossy};
use crate::model::{ext_views, is_markdown_doc, markdown_document, Document, DocumentConverter};
use crate::pattern::{regex_replace_all, replace_all};
use crate::text::{
    chars_of, extend_chars, extend_str, has_prefix, is_whitespace, is_ws, lines_of, push_repeat,
    repeat_char, split_lines, starts_with_str, sub_vec, trim, trim_chars, trim_start,
    trim_start_chars,
};

verus! {

/// Org-mode to Markdown converter.
pub struct OrgModeConverter;

/// `*bold*`.
pub const ORG_BOLD: &'static str = r"\*([^*\n]+)\*";
/// `/italic/`.
pub const ORG_ITALIC: &'static str = r"/([^/\n]+)/";
/// `=code=`.
pub const ORG_CODE: &'static str = r"=([^=\n]+)=";
/// `~verbatim~`.
pub const ORG_VERBATIM: &'static str = r"~([^~\n]+)~";

/// Inline markup rewritten as Markdown.
pub open spec fn org_formatting(line: Seq<char>) -> Seq<char> {
    let r1 = regex_replace_all(ORG_BOLD@, line, "**$1**"@);
    let r2 = regex_replace_all(ORG_ITALIC@, r1, "*$1*"@);
    let r3 = regex_replace_all(ORG_CODE@, r2, "`$1`"@);
    regex_replace_all(ORG_VERBATIM@, r3, "`$1`"@)
}

/// The first `]` at or after position `k`.
pub open spec fn close_from(s: Seq<char>, k: int) -> Option<int>
    decreases s.len() - k,
{
    if k < 0 || k >= s.len() {
        None
    } else if s[k] == ']' {
        Some(k)
    } else {
        close_from(s, k + 1)
    }
}

/// The link at position `p`, with the position after it:
/// `[[target][text]]` becomes `[text](target)` and `[[target]]` becomes
/// `<target>` (target and text not empty, without `]`).
pub open spec fn link_at(s: Seq<char>, p: int) -> Option<(int, Seq<char>)> {
    if 0 <= p && p + 2 <= s.len() && s[p] == '[' && s[p + 1] == '[' {
        match close_from(s, p + 2) {
            Some(k) => if k > p + 2 {
                let target = s.subrange(p + 2, k);
                let with_text = if k + 1 < s.len() && s[k + 1] == '[' {
                    match close_from(s, k + 2) {
                        Some(m) => if m > k + 2 && m + 1 < s.len() && s[m + 1] == ']' {
                            Some((m + 2, seq!['['] + s.subrange(k + 2, m) + seq![']', '('] + target + seq![')']))
                        } else {
                            None
                        },
                        None => None,
                    }
                } else {
                    None
                };
                if with_text is Some {
                    with_text
                } else if k + 1 < s.len() && s[k + 1] == ']' {
                    Some((k + 2, seq!['<'] + target + seq!['>']))
                } else {
                    None
                }
            } else {
                None
            },
            None => None,
        }
    } else {
        None
    }
}

/// The line from position `p` on, with `plain` the text since the last
/// link: links become Markdown links, and the text between them has its
/// inline markup rewritten, so that a link's target and text are left as
/// they are.
pub open spec fn org_inline_from(s: Seq<char>, p: int, plain: Seq<char>) -> Seq<char>
    decreases s.len() - p,
{
    if p < 0 || p >= s.len() {
        org_formatting(plain)
    } else {
        match link_at(s, p) {
            Some((e, md)) => if e > p {
                org_formatting(plain) + md + org_inline_from(s, e, seq![])
            } else {
                seq![]
            },
            None => org_inline_from(s, p + 1, plain.push(s[p])),
        }
    }
}

/// A line with its links and inline markup rewritten as Markdown.
pub open spec fn org_inline(s: Seq<char>) -> Seq<char> {
    org_inline_from(s, 0, seq![])
}

proof fn lemma_close_from(s: Seq<char>, k: int)
    requires
        0 <= k,
    ensures
        close_from(s, k) matches Some(x) ==> k <= x < s.len() && s[x] == ']',
    decreases s.len() - k,
{
    if k < s.len() && s[k] != ']' {
        lemma_close_from(s, k + 1);
    }
}

fn find_close(s: &[char], k: usize) -> (r: Option<usize>)
    ensures
        match r {
            Some(x) => close_from(s@, k as int) == Some(x as int),
            None => close_from(s@, k as int) is None,
        },
{
    let mut j = k;
    while j < s.len()
        invariant
            k <= j,
            close_from(s@, k as int) == close_from(s@, j as int),
        decreases s@.len() - j,
    {
        if s[j] == ']' {
            return Some(j);
        }
        j += 1;
    }
    None
}

fn link_at_exec(s: &[char], p: usize) -> (r: Option<(usize, Vec<char>)>)
    ensures
        match r {
            Some((e, md)) => link_at(s@, p as int) == Some((e as int, md@)),
            None => link_at(s@, p as int) is None,
        },
{
    let n = s.len();
    if !(p < n && n - p >= 2 && s[p] == '[' && s[p + 1] == '[') {
        return None;
    }
    let k = match find_close(s, p + 2) {
        Some(k) => k,
        None => {
            return None;
        },
    };
    proof {
        lemma_close_from(s@, p + 2);
    }
    if k <= p + 2 {
        return None;
    }
    if k + 1 < n && s[k + 1] == '[' {
        match find_close(s, k + 2) {
            Some(m) => {
                proof {
                    lemma_close_from(s@, k + 2);
                }
                if m > k + 2 && m + 1 < n && s[m + 1] == ']' {
                    let mut md: Vec<char> = Vec::new();
                    md.push('[');
                    extend_chars(&mut md, sub_vec(s, k + 2, m).as_slice());
                    md.push(']');
                    md.push('(');
                    extend_chars(&mut md, sub_vec(s, p + 2, k).as_slice());
                    md.push(')');
                    assert(md@ =~= seq!['['] + s@.subrange(k + 2, m as int) + seq![']', '('] + s@.subrange(p + 2, k as int) + seq![')']);
                    return Some((m + 2, md));
                }
            },
            None => {},
        }
    }
    if k + 1 < n && s[k + 1] == ']' {
        let mut md: Vec<char> = Vec::new();
        md.push('<');
        extend_chars(&mut md, sub_vec(s, p + 2, k).as_slice());
        md.push('>');
        assert(md@ =~= seq!['<'] + s@.subrange(p + 2, k as int) + seq!['>']);
        return Some((k + 2, md));
    }
    None
}

/// A line with its links and inline markup rewritten as Markdown.
fn convert_inline(line: &[char]) -> (r: Vec<char>)
    ensures
        r@ == org_inline(line@),
{
    let n = line.len();
    let mut out: Vec<char> = Vec::new();
    let mut plain: Vec<char> = Vec::new();
    let mut p: usize = 0;
    while p < n
        invariant
            n == line@.len(),
            p <= n,
            org_inline(line@) == out@ + org_inline_from(line@, p as int, plain@),
        decreases n - p,
    {
        match link_at_exec(line, p) {
            Some((e, md)) => {
                proof {
                    lemma_close_from(line@, p + 2);
                }
                assert(e > p) by {
                    lemma_link_end(line@, p as int);
                }
                let f = convert_formatting(plain.as_slice());
                extend_chars(&mut out, f.as_slice());
                extend_chars(&mut out, md.as_slice());
                plain = Vec::new();
                assert(org_inline_from(line@, p as int, plain@) =~= org_formatting(plain@) + md@ + org_inline_from(line@, e as int, seq![])) by {
                    assert(plain@ =~= Seq::<char>::empty());
                }
                p = e;
            },
            None => {
                plain.push(line[p]);
                p += 1;
            },
        }
    }
    let f = convert_formatting(plain.as_slice());
    extend_chars(&mut out, f.as_slice());
    out
}

proof fn lemma_link_end(s: Seq<char>, p: int)
    ensures
        link_at(s, p) matches Some((e, md)) ==> p < e <= s.len(),
{
    if 0 <= p && p + 2 <= s.len() && s[p] == '[' && s[p + 1] == '[' {
        lemma_close_from(s, p + 2);
        match close_from(s, p + 2) {
            Some(k) => {
                if k + 1 < s.len() && s[k + 1] == '[' {
                    lemma_close_from(s, k + 2);
                }
            },
            None => {},
        }
    }
}

fn convert_formatting(line: &[char]) -> (r: Vec<char>)
    ensures
        r@ == org_formatting(line@),
{
    let r1 = replace_all(ORG_BOLD, line, "**$1**");
    let r2 = replace_all(ORG_ITALIC, r1.as_slice(), "*$1*");
    let r3 = replace_all(ORG_CODE, r2.as_slice(), "`$1`");
    replace_all(ORG_VERBATIM, r3.as_slice(), "`$1`")
}

/// The heading text without a leading TODO-style keyword.
pub open spec fn strip_keywords(text: Seq<char>) -> Seq<char> {
    if has_prefix(text, "TODO"@) {
        trim_start(text.skip("TODO"@.len() as int))
    } else if has_prefix(text, "DONE"@) {
        trim_start(text.skip("DONE"@.len() as int))
    } else if has_prefix(text, "WAITING"@) {
        trim_start(text.skip("WAITING"@.len() as int))
    } else if has_prefix(text, "CANCELLED"@) {
        trim_start(text.skip("CANCELLED"@.len() as int))
    } else if has_prefix(text, "NEXT"@) {
        trim_start(text.skip("NEXT"@.len() as int))
    } else {
        text
    }
}

fn strip_after(text: &[char], kw: &str) -> (r: Vec<char>)
    requires
        has_prefix(text@, kw@),
    ensures
        r@ == trim_start(text@.skip(kw@.len() as int)),
{
    let k = chars_of(kw);
    let rest = sub_vec(text, k.len(), text.len());
    assert(rest@ =~= text@.skip(kw@.len() as int));
    trim_start_chars(rest.as_slice())
}

/// Removes a leading TODO, DONE, WAITING, CANCELLED or NEXT keyword.
fn strip_org_keywords(text: &[char]) -> (r: Vec<char>)
    ensures
        r@ == strip_keywords(text@),
{
    if starts_with_str(text, "TODO") {
        return strip_after(text, "TODO");
    }
    if starts_with_str(text, "DONE") {
        return strip_after(text, "DONE");
    }
    if starts_with_str(text, "WAITING") {
        return strip_after(text, "WAITING");
    }
    if starts_with_str(text, "CANCELLED") {
        return strip_after(text, "CANCELLED");
    }
    if starts_with_str(text, "NEXT") {
        return strip_after(text, "NEXT");
    }
    sub_vec(text, 0, text.len())
}

/// The words of `s` (`str::split_whitespace`), when the current word so
/// far is `cur`.
pub open spec fn words_acc(s: Seq<char>, cur: Seq<char>) -> Seq<Seq<char>>
    decreases s.len(),
{
    if s.len() == 0 {
        if cur.len() > 0 {
            seq![cur]
        } else {
            seq![]
        }
    } else if is_ws(s[0]) {
        if cur.len() > 0 {
            seq![cur] + words_acc(s.drop_first(), seq![])
        } else {
            words_acc(s.drop_first(), seq![])
        }
    } else {
        words_acc(s.drop_first(), cur.push(s[0]))
    }
}

/// The words of `s`.
pub open spec fn words(s: Seq<char>) -> Seq<Seq<char>> {
    words_acc(s, seq![])
}

/// The second word of the line, or nothing.
fn second_word(s: &[char]) -> (r: Vec<char>)
    ensures
        r@ == (if words(s@).len() > 1 {
            words(s@)[1]
        } else {
            seq![]
        }),
{
    let mut found: Vec<Vec<char>> = Vec::new();
    let mut cur: Vec<char> = Vec::new();
    let mut i: usize = 0;
    assert(s@.skip(0) =~= s@);
    while i < s.len()
        invariant
            i <= s@.len(),
            words(s@) == found.deep_view() + words_acc(s@.skip(i as int), cur@),
        decreases s@.len() - i,
    {
        let ghost rest = s@.skip(i as int);
        assert(rest.drop_first() =~= s@.skip(i + 1));
        assert(rest[0] == s@[i as int]);
        if is_whitespace(s[i]) {
            if cur.len() > 0 {
                let ghost before = found.deep_view();
                let ghost cv = cur@;
                found.push(cur);
                proof {
                    crate::text::lemma_push_line(before, found@, found@.last());
                    assert(before + (seq![cv] + words_acc(s@.skip(i + 1), seq![])) =~= before.push(cv)
                        + words_acc(s@.skip(i + 1), seq![]));
                }
                cur = Vec::new();
            } else {
                assert(cur@ =~= Seq::<char>::empty());
            }
        } else {
            let ghost c0 = cur@;
            cur.push(s[i]);
            assert(cur@ == c0.push(s@[i as int]));
        }
        i += 1;
    }
    assert(s@.skip(i as int) =~= Seq::<char>::empty());
    if cur.len() > 0 {
        let ghost before = found.deep_view();
        found.push(cur);
        proof {
            crate::text::lemma_push_line(before, found@, found@.last());
        }
    }
    assert(words(s@) =~= found.deep_view());
    if found.len() > 1 {
        let w = &found[1];
        proof {
            crate::text::lemma_chars_deep_view(*w);
        }
        sub_vec(w.as_slice(), 0, w.len())
    } else {
        Vec::new()
    }
}

/// The number of leading `*` characters.
pub open spec fn leading_stars(s: Seq<char>) -> nat
    decreases s.len(),
{
    if s.len() > 0 && s[0] == '*' {
        1 + leading_stars(s.drop_first())
    } else {
        0
    }
}

/// One line: whether a source block is open afterwards, and the Markdown
/// written for it.
pub open spec fn org_step(in_code: bool, line: Seq<char>) -> (bool, Seq<char>) {
    let lt = unicode_lowercase(trim(line));
    if has_prefix(lt, "#+begin_src"@) {
        let ws = words(line);
        let lang = if ws.len() > 1 {
            ws[1]
        } else {
            seq![]
        };
        (true, "```"@ + lang + seq!['\n'])
    } else if has_prefix(lt, "#+end_src"@) {
        (false, "```\n"@)
    } else if in_code {
        (in_code, line + seq!['\n'])
    } else if has_prefix(lt, "#+begin_quote"@) {
        (in_code, seq!['>', ' '])
    } else if has_prefix(lt, "#+end_quote"@) {
        (in_code, seq!['\n'])
    } else if line.len() > 0 && line[0] == '*' {
        let level = leading_stars(line);
        let text = strip_keywords(trim(line.skip(level as int)));
        (in_code, repeat_char('#', level) + seq![' '] + text + seq!['\n'])
    } else {
        let converted = org_inline(line);
        if has_prefix(converted, "#+"@) {
            (in_code, seq![])
        } else {
            (in_code, converted + seq!['\n'])
        }
    }
}

/// The Markdown for the lines.
pub open spec fn org_lines(in_code: bool, ls: Seq<Seq<char>>) -> Seq<char>
    decreases ls.len(),
{
    if ls.len() == 0 {
        seq![]
    } else {
        let (c2, out) = org_step(in_code, ls[0]);
        out + org_lines(c2, ls.drop_first())
    }
}

/// The Markdown for Org-mode text.
pub open spec fn org_markdown(content: Seq<char>) -> Seq<char> {
    org_lines(false, lines_of(content))
}

fn count_leading_stars(line: &[char]) -> (r: usize)
    ensures
        r == leading_stars(line@),
        r <= line@.len(),
{
    let mut k: usize = 0;
    assert(line@.skip(0) =~= line@);
    while k < line.len() && line[k] == '*'
        invariant
            k <= line@.len(),
            leading_stars(line@) == k + leading_stars(line@.skip(k as int)),
        decreases line@.len() - k,
    {
        assert(line@.skip(k as int).drop_first() =~= line@.skip(k + 1));
        k += 1;
    }
    k
}

fn org_line(in_code: &mut bool, line: &[char], out: &mut Vec<char>)
    ensures
        *final(in_code) == org_step(*old(in_code), line@).0,
        final(out)@ == old(out)@ + org_step(*old(in_code), line@).1,
{
    let t = trim_chars(line);
    let lt = to_lowercase(t.as_slice());
    if starts_with_str(&lt, "#+begin_src") {
        *in_code = true;
        let lang = second_word(line);
        extend_str(out, "```");
        extend_chars(out, lang.as_slice());
        out.push('\n');
        return;
    }
    if starts_with_str(&lt, "#+end_src") {
        *in_code = false;
        extend_str(out, "```\n");
        return;
    }
    if *in_code {
        extend_chars(out, line);
        out.push('\n');
        return;
    }
    if starts_with_str(&lt, "#+begin_quote") {
        out.push('>');
        out.push(' ');
        return;
    }
    if starts_with_str(&lt, "#+end_quote") {
        out.push('\n');
        return;
    }
    if line.len() > 0 && line[0] == '*' {
        let level = count_leading_stars(line);
        let rest = sub_vec(line, level, line.len());
        assert(rest@ =~= line@.skip(level as int));
        let text = trim_chars(rest.as_slice());
        let text = strip_org_keywords(text.as_slice());
        push_repeat(out, '#', level);
        out.push(' ');
        extend_chars(out, text.as_slice());
        out.push('\n');
        return;
    }
    let converted = convert_inline(line);
    if starts_with_str(&converted, "#+") {
        return;
    }
    extend_chars(out, converted.as_slice());
    out.push('\n');
}

/// Converts Org-mode text to Markdown.
pub fn org_to_markdown(content: &[char]) -> (r: Vec<char>)
    ensures
        r@ == org_markdown(content@),
{
    let lines = split_lines(content);
    let ghost ls = lines_of(content@);
    let mut in_code = false;
    let mut out: Vec<char> = Vec::new();
    let mut k: usize = 0;
    assert(ls.skip(0) =~= ls);
    while k < lines.len()
        invariant
            lines.deep_view() == ls,
            k <= lines@.len(),
            org_markdown(content@) == out@ + org_lines(in_code, ls.skip(k as int)),
        decreases lines@.len() - k,
    {
        let ghost rest = ls.skip(k as int);
        assert(rest[0] == lines@[k as int]@) by {
            crate::text::lemma_chars_deep_view(lines@[k as int]);
        }
        assert(rest.drop_first() =~= ls.skip(k + 1));
        let ghost before = out@;
        let ghost c0 = in_code;
        org_line(&mut in_code, lines[k].as_slice(), &mut out);
        assert(out@ + org_lines(in_code, ls.skip(k + 1)) =~= before + org_lines(c0, rest));
        k += 1;
    }
    assert(ls.skip(k as int) =~= Seq::<Seq<char>>::empty());
    out
}

impl OrgModeConverter {
    /// Converts Org-mode bytes (decoded as UTF-8, invalid sequences
    /// replaced) to a one-page Markdown document.
    pub fn convert_bytes(&self, bytes: &[u8]) -> (r: Document)
        ensures
            is_markdown_doc(r, org_markdown(utf8_lossy(bytes@))),
    {
        let content = from_utf8_lossy(bytes);
        markdown_document(org_to_markdown(content.as_slice()))
    }
}

impl DocumentConverter for OrgModeConverter {
    open spec fn extensions(&self) -> Seq<Seq<char>> {
        seq![".org"@]
    }

    fn supported_extensions(&self) -> (r: Vec<&'static str>) {
        let r = vec![".org"];
        assert(ext_views(r@) =~= self.extensions());
        r
    }
}

} // verus!
