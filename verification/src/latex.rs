//! LaTeX to Markdown conversion, line by line.
//!
//! The preamble is skipped, sectioning commands become headings, list
//! environments become Markdown lists, verbatim and math environments are
//! kept as fenced blocks, and common inline commands become Markdown.
use vstd::prelude::*;
use crate::chars::{from_utf8_lossy, to_string, utf8_lossy};
use crate::error::MarkitdownError;
use crate::model::{ext_views, is_markdown_doc, markdown_document, Document, DocumentConverter};
use crate::pattern::{regex_replace_all, replace_all};
use crate::office_text::opt_chars;
use crate::text::{
    chars_of, decimal, extend_chars, extend_str, has_prefix, lines_of, push_decimal, push_repeat,
    repeat_char, split_lines, starts_with_str, sub_vec, trim, trim_chars,
};

verus! {

/// LaTeX to Markdown converter.
pub struct LatexConverter;

/// `\textbf{..}`.
pub const BOLD_PATTERN: &'static str = r"\\textbf\{([^}]+)\}";
/// `\textit{..}`.
pub const ITALIC_PATTERN: &'static str = r"\\textit\{([^}]+)\}";
/// `\emph{..}`.
pub const EMPH_PATTERN: &'static str = r"\\emph\{([^}]+)\}";
/// `\texttt{..}`.
pub const TT_PATTERN: &'static str = r"\\texttt\{([^}]+)\}";
/// `\verb|..|`.
pub const VERB_PATTERN: &'static str = r"\\verb\|([^|]+)\|";
/// `\href{url}{text}`.
pub const HREF_PATTERN: &'static str = r"\\href\{([^}]+)\}\{([^}]+)\}";
/// `\url{..}`.
pub const URL_PATTERN: &'static str = r"\\url\{([^}]+)\}";

/// The inline commands of a line rewritten as Markdown.
pub open spec fn latex_inline(line: Seq<char>) -> Seq<char> {
    let r1 = regex_replace_all(BOLD_PATTERN@, line, "**$1**"@);
    let r2 = regex_replace_all(ITALIC_PATTERN@, r1, "*$1*"@);
    let r3 = regex_replace_all(EMPH_PATTERN@, r2, "*$1*"@);
    let r4 = regex_replace_all(TT_PATTERN@, r3, "`$1`"@);
    let r5 = regex_replace_all(VERB_PATTERN@, r4, "`$1`"@);
    let r6 = regex_replace_all(HREF_PATTERN@, r5, "[$2]($1)"@);
    regex_replace_all(URL_PATTERN@, r6, "<$1>"@)
}

/// Rewrites the inline commands of a line.
fn convert_inline_formatting(line: &[char]) -> (r: Vec<char>)
    ensures
        r@ == latex_inline(line@),
{
    let r1 = replace_all(BOLD_PATTERN, line, "**$1**");
    let r2 = replace_all(ITALIC_PATTERN, r1.as_slice(), "*$1*");
    let r3 = replace_all(EMPH_PATTERN, r2.as_slice(), "*$1*");
    let r4 = replace_all(TT_PATTERN, r3.as_slice(), "`$1`");
    let r5 = replace_all(VERB_PATTERN, r4.as_slice(), "`$1`");
    let r6 = replace_all(HREF_PATTERN, r5.as_slice(), "[$2]($1)");
    replace_all(URL_PATTERN, r6.as_slice(), "<$1>")
}

// ---------------------------------------------------------------------
// Brace arguments
// ---------------------------------------------------------------------

/// Scanning from position `i` with `depth` open braces: the position of the
/// brace that closes the first one, or 0 when there is none.
pub open spec fn brace_scan(rest: Seq<char>, i: int, depth: int) -> int
    decreases rest.len() - i,
{
    if i < 0 || i >= rest.len() {
        0
    } else if rest[i] == '{' {
        brace_scan(rest, i + 1, depth + 1)
    } else if rest[i] == '}' {
        if depth - 1 == 0 {
            i
        } else {
            brace_scan(rest, i + 1, depth - 1)
        }
    } else {
        brace_scan(rest, i + 1, depth)
    }
}

/// The character position of the brace matching the opening one.
pub open spec fn brace_end(rest: Seq<char>) -> int {
    brace_scan(rest, 0, 0)
}

/// The brace argument at the start of `rest`: the text from after the
/// opening brace up to the matching closing brace, where it is not empty.
pub open spec fn braces_result(rest: Seq<char>) -> Option<Seq<char>> {
    if rest.len() > 0 && rest[0] == '{' && brace_end(rest) > 1 {
        Some(rest.subrange(1, brace_end(rest)))
    } else {
        None
    }
}

/// The argument of the command `cmd` at the start of `t`.
pub open spec fn ext(t: Seq<char>, cmd: Seq<char>) -> Option<Seq<char>> {
    if has_prefix(t, cmd) {
        braces_result(t.skip(cmd.len() as int))
    } else {
        None
    }
}

/// The brace argument at position `start` of the line.
fn extract_braces(line: &[char], start: usize) -> (r: Option<Vec<char>>)
    requires
        start <= line@.len(),
    ensures
        opt_chars(r) == braces_result(line@.skip(start as int)),
{
    let rest = sub_vec(line, start, line.len());
    assert(rest@ =~= line@.skip(start as int));
    if !(rest.len() > 0 && rest[0] == '{') {
        return None;
    }
    let n = rest.len();
    let mut depth: usize = 0;
    let mut end: usize = 0;
    let mut found = false;
    let mut i: usize = 0;
    while i < n && !found
        invariant
            n == rest@.len(),
            n > 0 && rest@[0] == '{',
            i <= n,
            depth <= i,
            i > 0 ==> depth >= 1,
            !found ==> brace_end(rest@) == brace_scan(rest@, i as int, depth as int),
            found ==> end as int == brace_end(rest@),
            found ==> end < n,
            !found ==> end == 0,
        decreases n - i + (if found {
            0int
        } else {
            1int
        }),
    {
        let c = rest[i];
        if c == '{' {
            depth = depth + 1;
            i += 1;
        } else if c == '}' {
            if depth == 1 {
                end = i;
                found = true;
            } else {
                depth = depth - 1;
                i += 1;
            }
        } else {
            i += 1;
        }
    }
    proof {
        if !found {
            assert(brace_scan(rest@, i as int, depth as int) == 0);
        }
    }
    assert(end as int == brace_end(rest@));
    if end <= 1 {
        return None;
    }
    Some(sub_vec(rest.as_slice(), 1, end))
}

/// A heading of the given level.
pub open spec fn heading_text(level: nat, title: Seq<char>) -> Seq<char> {
    repeat_char('#', level) + seq![' '] + title + seq!['\n', '\n']
}

/// The argument of `cmd` at the start of `t`, if `t` starts with `cmd`.
fn extract_command(t: &[char], cmd: &str) -> (r: Option<Vec<char>>)
    ensures
        opt_chars(r) == ext(t@, cmd@),
{
    let c = chars_of(cmd);
    if starts_with_str(t, cmd) {
        extract_braces(t, c.len())
    } else {
        None
    }
}

/// The heading for the sectioning command `cmd` at the start of `t`.
fn extract_section(t: &[char], cmd: &str, level: usize) -> (r: Option<Vec<char>>)
    ensures
        r matches Some(v) ==> ext(t@, cmd@) matches Some(x) && v@ == heading_text(level as nat, x),
        r is None ==> ext(t@, cmd@) is None,
{
    match extract_command(t, cmd) {
        Some(title) => {
            let mut out: Vec<char> = Vec::new();
            push_repeat(&mut out, '#', level);
            out.push(' ');
            extend_chars(&mut out, title.as_slice());
            out.push('\n');
            out.push('\n');
            assert(out@ =~= heading_text(level as nat, title@));
            Some(out)
        },
        None => None,
    }
}

/// The output of the sectioning, title, author and date commands.
pub open spec fn command_text(t: Seq<char>) -> Option<Seq<char>> {
    match ext(t, "\\chapter"@) {
        Some(x) => Some(heading_text(1, x)),
        None => match ext(t, "\\section"@) {
            Some(x) => Some(heading_text(2, x)),
            None => match ext(t, "\\subsection"@) {
                Some(x) => Some(heading_text(3, x)),
                None => match ext(t, "\\subsubsection"@) {
                    Some(x) => Some(heading_text(4, x)),
                    None => match ext(t, "\\paragraph"@) {
                        Some(x) => Some(heading_text(5, x)),
                        None => match ext(t, "\\title"@) {
                            Some(x) => Some(seq!['#', ' '] + x + seq!['\n', '\n']),
                            None => match ext(t, "\\author"@) {
                                Some(x) => Some("**Author:** "@ + x + seq!['\n', '\n']),
                                None => match ext(t, "\\date"@) {
                                    Some(x) => Some("**Date:** "@ + x + seq!['\n', '\n']),
                                    None => None,
                                },
                            },
                        },
                    },
                },
            },
        },
    }
}

/// The output of the commands, when one applies.
fn convert_command(t: &[char]) -> (r: Option<Vec<char>>)
    ensures
        opt_chars(r) == command_text(t@),
{
    if let Some(s) = extract_section(t, "\\chapter", 1) {
        return Some(s);
    }
    if let Some(s) = extract_section(t, "\\section", 2) {
        return Some(s);
    }
    if let Some(s) = extract_section(t, "\\subsection", 3) {
        return Some(s);
    }
    if let Some(s) = extract_section(t, "\\subsubsection", 4) {
        return Some(s);
    }
    if let Some(s) = extract_section(t, "\\paragraph", 5) {
        return Some(s);
    }
    if let Some(x) = extract_command(t, "\\title") {
        let mut out: Vec<char> = Vec::new();
        out.push('#');
        out.push(' ');
        extend_chars(&mut out, x.as_slice());
        out.push('\n');
        out.push('\n');
        assert(out@ =~= seq!['#', ' '] + x@ + seq!['\n', '\n']);
        return Some(out);
    }
    if let Some(x) = extract_command(t, "\\author") {
        let mut out: Vec<char> = Vec::new();
        extend_str(&mut out, "**Author:** ");
        extend_chars(&mut out, x.as_slice());
        out.push('\n');
        out.push('\n');
        assert(out@ =~= "**Author:** "@ + x@ + seq!['\n', '\n']);
        return Some(out);
    }
    if let Some(x) = extract_command(t, "\\date") {
        let mut out: Vec<char> = Vec::new();
        extend_str(&mut out, "**Date:** ");
        extend_chars(&mut out, x.as_slice());
        out.push('\n');
        out.push('\n');
        assert(out@ =~= "**Date:** "@ + x@ + seq!['\n', '\n']);
        return Some(out);
    }
    None
}

// ---------------------------------------------------------------------
// Lines
// ---------------------------------------------------------------------

/// Where the conversion stands between lines.
pub struct LatexState {
    pub in_document: bool,
    pub in_math: bool,
    pub in_verbatim: bool,
    pub in_itemize: bool,
    pub in_enumerate: bool,
    pub counter: nat,
}

/// The state at the start of the text.
pub open spec fn latex_start() -> LatexState {
    LatexState {
        in_document: false,
        in_math: false,
        in_verbatim: false,
        in_itemize: false,
        in_enumerate: false,
        counter: 0,
    }
}

/// A preamble line that is skipped outside the document environment.
pub open spec fn is_preamble_line(t: Seq<char>) -> bool {
    has_prefix(t, "\\documentclass"@) || has_prefix(t, "\\usepackage"@) || has_prefix(
        t,
        "\\newcommand"@,
    ) || has_prefix(t, "\\renewcommand"@) || has_prefix(t, "\\def"@) || has_prefix(t, "\\set"@)
        || has_prefix(t, seq!['%'])
}

/// A line that opens a verbatim environment.
pub open spec fn opens_verbatim(t: Seq<char>) -> bool {
    has_prefix(t, "\\begin{verbatim}"@) || has_prefix(t, "\\begin{lstlisting}"@)
}

/// A line that closes a verbatim environment.
pub open spec fn closes_verbatim(t: Seq<char>) -> bool {
    has_prefix(t, "\\end{verbatim}"@) || has_prefix(t, "\\end{lstlisting}"@)
}

/// A line that opens a math environment.
pub open spec fn opens_math(t: Seq<char>) -> bool {
    has_prefix(t, "\\begin{equation"@) || has_prefix(t, "\\begin{align"@) || has_prefix(
        t,
        "\\begin{gather"@,
    ) || has_prefix(t, "\\begin{math"@)
}

/// A line that closes a math environment.
pub open spec fn closes_math(t: Seq<char>) -> bool {
    has_prefix(t, "\\end{equation"@) || has_prefix(t, "\\end{align"@) || has_prefix(
        t,
        "\\end{gather"@,
    ) || has_prefix(t, "\\end{math"@)
}

/// The line is handled before the commands are tried.
pub open spec fn handled_early(st: LatexState, t: Seq<char>) -> bool {
    ||| has_prefix(t, "\\begin{document}"@)
    ||| has_prefix(t, "\\end{document}"@)
    ||| (!st.in_document && is_preamble_line(t))
    ||| opens_verbatim(t)
    ||| closes_verbatim(t)
    ||| st.in_verbatim
    ||| opens_math(t)
    ||| closes_math(t)
    ||| st.in_math
    ||| has_prefix(t, "\\begin{itemize}"@)
    ||| has_prefix(t, "\\end{itemize}"@)
    ||| has_prefix(t, "\\begin{enumerate}"@)
    ||| has_prefix(t, "\\end{enumerate}"@)
    ||| has_prefix(t, "\\item"@)
}

/// One line: the next state and the Markdown written for it.
pub open spec fn latex_step(st: LatexState, line: Seq<char>) -> (LatexState, Seq<char>) {
    let t = trim(line);
    if has_prefix(t, "\\begin{document}"@) {
        (LatexState { in_document: true, ..st }, seq![])
    } else if has_prefix(t, "\\end{document}"@) {
        (LatexState { in_document: false, ..st }, seq![])
    } else if !st.in_document && is_preamble_line(t) {
        (st, seq![])
    } else if opens_verbatim(t) {
        (LatexState { in_verbatim: true, ..st }, "```\n"@)
    } else if closes_verbatim(t) {
        (LatexState { in_verbatim: false, ..st }, "```\n"@)
    } else if st.in_verbatim {
        (st, line + seq!['\n'])
    } else if opens_math(t) {
        (LatexState { in_math: true, ..st }, "$$\n"@)
    } else if closes_math(t) {
        (LatexState { in_math: false, ..st }, "$$\n"@)
    } else if st.in_math {
        (st, line + seq!['\n'])
    } else if has_prefix(t, "\\begin{itemize}"@) {
        (LatexState { in_itemize: true, ..st }, seq![])
    } else if has_prefix(t, "\\end{itemize}"@) {
        (LatexState { in_itemize: false, ..st }, seq!['\n'])
    } else if has_prefix(t, "\\begin{enumerate}"@) {
        (LatexState { in_enumerate: true, counter: 0, ..st }, seq![])
    } else if has_prefix(t, "\\end{enumerate}"@) {
        (LatexState { in_enumerate: false, ..st }, seq!['\n'])
    } else if has_prefix(t, "\\item"@) {
        let item = trim(t.skip("\\item"@.len() as int));
        if st.in_enumerate {
            (
                LatexState { counter: st.counter + 1, ..st },
                decimal(st.counter + 1) + seq!['.', ' '] + item + seq!['\n'],
            )
        } else {
            (st, seq!['-', ' '] + item + seq!['\n'])
        }
    } else if command_text(t) is Some {
        (st, command_text(t).unwrap())
    } else if has_prefix(t, "\\maketitle"@) {
        (st, seq![])
    } else if has_prefix(t, seq!['%']) {
        (st, seq![])
    } else {
        (st, latex_inline(line) + seq!['\n'])
    }
}

/// The Markdown for the lines, starting in state `st`.
pub open spec fn latex_lines(st: LatexState, ls: Seq<Seq<char>>) -> Seq<char>
    decreases ls.len(),
{
    if ls.len() == 0 {
        seq![]
    } else {
        let (st2, out) = latex_step(st, ls[0]);
        out + latex_lines(st2, ls.drop_first())
    }
}

/// The Markdown for LaTeX text.
pub open spec fn latex_markdown(content: Seq<char>) -> Seq<char> {
    latex_lines(latex_start(), lines_of(content))
}

/// The conversion state of a running conversion.
struct LatexExec {
    in_document: bool,
    in_math: bool,
    in_verbatim: bool,
    in_itemize: bool,
    in_enumerate: bool,
    counter: usize,
}

impl LatexExec {
    spec fn state(&self) -> LatexState {
        LatexState {
            in_document: self.in_document,
            in_math: self.in_math,
            in_verbatim: self.in_verbatim,
            in_itemize: self.in_itemize,
            in_enumerate: self.in_enumerate,
            counter: self.counter as nat,
        }
    }
}

/// Converts one line, appending its Markdown to `out`.
fn latex_line(st: &mut LatexExec, line: &[char], out: &mut Vec<char>)
    requires
        old(st).counter < usize::MAX,
    ensures
        final(st).state() == latex_step(old(st).state(), line@).0,
        final(out)@ == old(out)@ + latex_step(old(st).state(), line@).1,
        final(st).counter <= old(st).counter + 1,
{
    let t = trim_chars(line);
    let ghost t0 = trim(line@);
    let starts_pct = t.len() > 0 && t[0] == '%';
    assert(starts_pct == has_prefix(t0, seq!['%'])) by {
        if t.len() > 0 {
            assert(t0.subrange(0, 1)[0] == t0[0]);
            if t0[0] == '%' {
                assert(t0.subrange(0, 1) =~= seq!['%']);
            }
        }
    }
    if starts_with_str(&t, "\\begin{document}") {
        st.in_document = true;
        return;
    }
    if starts_with_str(&t, "\\end{document}") {
        st.in_document = false;
        return;
    }
    if !st.in_document && (starts_with_str(&t, "\\documentclass") || starts_with_str(
        &t,
        "\\usepackage",
    ) || starts_with_str(&t, "\\newcommand") || starts_with_str(&t, "\\renewcommand")
        || starts_with_str(&t, "\\def") || starts_with_str(&t, "\\set") || starts_pct) {
        return;
    }
    if starts_with_str(&t, "\\begin{verbatim}") || starts_with_str(&t, "\\begin{lstlisting}") {
        st.in_verbatim = true;
        extend_str(out, "```\n");
        return;
    }
    if starts_with_str(&t, "\\end{verbatim}") || starts_with_str(&t, "\\end{lstlisting}") {
        st.in_verbatim = false;
        extend_str(out, "```\n");
        return;
    }
    if st.in_verbatim {
        extend_chars(out, line);
        out.push('\n');
        return;
    }
    if starts_with_str(&t, "\\begin{equation") || starts_with_str(&t, "\\begin{align")
        || starts_with_str(&t, "\\begin{gather") || starts_with_str(&t, "\\begin{math") {
        st.in_math = true;
        extend_str(out, "$$\n");
        return;
    }
    if starts_with_str(&t, "\\end{equation") || starts_with_str(&t, "\\end{align")
        || starts_with_str(&t, "\\end{gather") || starts_with_str(&t, "\\end{math") {
        st.in_math = false;
        extend_str(out, "$$\n");
        return;
    }
    if st.in_math {
        extend_chars(out, line);
        out.push('\n');
        return;
    }
    if starts_with_str(&t, "\\begin{itemize}") {
        st.in_itemize = true;
        return;
    }
    if starts_with_str(&t, "\\end{itemize}") {
        st.in_itemize = false;
        out.push('\n');
        return;
    }
    if starts_with_str(&t, "\\begin{enumerate}") {
        st.in_enumerate = true;
        st.counter = 0;
        return;
    }
    if starts_with_str(&t, "\\end{enumerate}") {
        st.in_enumerate = false;
        out.push('\n');
        return;
    }
    if starts_with_str(&t, "\\item") {
        let kw = chars_of("\\item");
        let rest = sub_vec(t.as_slice(), kw.len(), t.len());
        let item = trim_chars(rest.as_slice());
        assert(rest@ =~= t0.skip("\\item"@.len() as int));
        if st.in_enumerate {
            st.counter = st.counter + 1;
            push_decimal(out, st.counter);
            out.push('.');
            out.push(' ');
        } else {
            out.push('-');
            out.push(' ');
        }
        extend_chars(out, item.as_slice());
        out.push('\n');
        return;
    }
    match convert_command(t.as_slice()) {
        Some(text) => {
            extend_chars(out, text.as_slice());
            return;
        },
        None => {},
    }
    if starts_with_str(&t, "\\maketitle") {
        return;
    }
    if starts_pct {
        return;
    }
    let converted = convert_inline_formatting(line);
    extend_chars(out, converted.as_slice());
    out.push('\n');
}

/// Converts LaTeX text to Markdown.
pub fn latex_to_markdown(content: &[char]) -> (r: Vec<char>)
    ensures
        r@ == latex_markdown(content@),
{
    let lines = split_lines(content);
    let ghost ls = lines_of(content@);
    let mut st = LatexExec {
        in_document: false,
        in_math: false,
        in_verbatim: false,
        in_itemize: false,
        in_enumerate: false,
        counter: 0,
    };
    let mut out: Vec<char> = Vec::new();
    let mut k: usize = 0;
    assert(ls.skip(0) =~= ls);
    while k < lines.len()
        invariant
            lines.deep_view() == ls,
            k <= lines@.len(),
            st.counter <= k,
            latex_markdown(content@) == out@ + latex_lines(st.state(), ls.skip(k as int)),
        decreases lines@.len() - k,
    {
        let ghost rest = ls.skip(k as int);
        assert(rest[0] == lines@[k as int]@) by {
            crate::text::lemma_chars_deep_view(lines@[k as int]);
        }
        assert(rest.drop_first() =~= ls.skip(k + 1));
        let ghost before = out@;
        let ghost st0 = st.state();
        latex_line(&mut st, lines[k].as_slice(), &mut out);
        assert(latex_lines(st0, rest) == latex_step(st0, rest[0]).1 + latex_lines(
            latex_step(st0, rest[0]).0,
            rest.drop_first(),
        ));
        assert(out@ + latex_lines(st.state(), ls.skip(k + 1)) =~= before + latex_lines(st0, rest));
        k += 1;
    }
    assert(ls.skip(k as int) =~= Seq::<Seq<char>>::empty());
    out
}

impl LatexConverter {
    /// Converts LaTeX bytes (decoded as UTF-8, invalid sequences replaced)
    /// to a one-page Markdown document.
    pub fn convert_bytes(&self, bytes: &[u8]) -> (r: Document)
        ensures
            is_markdown_doc(r, latex_markdown(utf8_lossy(bytes@))),
    {
        let content = from_utf8_lossy(bytes);
        markdown_document(latex_to_markdown(content.as_slice()))
    }
}

impl DocumentConverter for LatexConverter {
    open spec fn extensions(&self) -> Seq<Seq<char>> {
        seq![".tex"@, ".latex"@]
    }

    fn supported_extensions(&self) -> (r: Vec<&'static str>) {
        let r = vec![".tex", ".latex"];
        assert(ext_views(r@) =~= self.extensions());
        r
    }
}

} // verus!
