//! Properties of the text-format converters that hold for every input:
//! LaTeX chapter headings, Org-mode heading keywords, the lines of a vCard
//! contact and of a calendar event, and the address lines of a message.
use vstd::prelude::*;
use crate::latex::{braces_result, brace_end, brace_scan, command_text, ext, heading_text, latex_step, LatexState};
use crate::calendar::{event_md, opt_line, todo_md, EventView, TodoView};
use crate::chars::unicode_lowercase;
use crate::email::{addresses_md, fields_md, MailAddressView, MailAttachmentView};
use crate::text::join;
use crate::vcard::{card_md, each_line, vcf_multiple, vcf_single};
use crate::orgmode::{leading_stars, org_step, strip_keywords};
use crate::text::{has_prefix, is_ws, repeat_char, trim, trim_end, trim_start};

verus! {

/// The net depth of braces of `s`: its `{` less its `}`.
pub open spec fn brace_balance(s: Seq<char>) -> int
    decreases s.len(),
{
    if s.len() == 0 {
        0
    } else {
        brace_balance(s.drop_last()) + if s.last() == '{' {
            1int
        } else if s.last() == '}' {
            -1int
        } else {
            0int
        }
    }
}

/// Every `}` of `s` closes a `{` of `s`, and every `{` is closed.
pub open spec fn balanced(s: Seq<char>) -> bool {
    &&& forall|k: int| 0 <= k <= s.len() ==> brace_balance(#[trigger] s.take(k)) >= 0
    &&& brace_balance(s) == 0
}

proof fn lemma_scan_balanced(t: Seq<char>, i: int)
    requires
        balanced(t),
        1 <= i <= t.len() + 1,
    ensures
        brace_scan(seq!['{'] + t + seq!['}'], i, 1 + brace_balance(t.take(i - 1))) == t.len() + 1,
    decreases t.len() + 1 - i,
{
    let s = seq!['{'] + t + seq!['}'];
    let d = 1 + brace_balance(t.take(i - 1));
    if i <= t.len() {
        assert(s[i] == t[i - 1]);
        assert(t.take(i).drop_last() =~= t.take(i - 1));
        assert(t.take(i).last() == t[i - 1]);
        assert(brace_balance(t.take(i)) >= 0);
        lemma_scan_balanced(t, i + 1);
    } else {
        assert(s[i] == '}');
        assert(t.take(i - 1) =~= t);
    }
}

proof fn lemma_braces_balanced(t: Seq<char>)
    requires
        balanced(t),
        t.len() > 0,
    ensures
        braces_result(seq!['{'] + t + seq!['}']) == Some(t),
{
    let s = seq!['{'] + t + seq!['}'];
    assert(t.take(0) =~= Seq::<char>::empty());
    lemma_scan_balanced(t, 1);
    assert(brace_end(s) == brace_scan(s, 1, 1));
    assert(s.subrange(1, t.len() + 1 as int) =~= t);
}

proof fn lemma_not_prefix_at(t: Seq<char>, p: Seq<char>, i: int)
    requires
        0 <= i < p.len(),
        i < t.len(),
        t[i] != p[i],
    ensures
        !has_prefix(t, p),
{
    if has_prefix(t, p) {
        assert(t.subrange(0, p.len() as int)[i] == t[i]);
    }
}

/// A `\chapter{T}` line of a LaTeX document, outside verbatim and math
/// environments, is a level-one Markdown heading of `T` (one `#` less than
/// a `\section`), for every non-empty title whose braces are balanced; the
/// conversion state is left as it was.
pub proof fn chapter_is_level_one_heading(st: LatexState, line: Seq<char>, title: Seq<char>)
    requires
        !st.in_verbatim,
        !st.in_math,
        title.len() > 0,
        balanced(title),
        trim(line) == "\\chapter{"@ + title + "}"@,
    ensures
        latex_step(st, line) == (st, "# "@ + title + "\n\n"@),
{
    reveal_strlit("\\chapter{");
    reveal_strlit("}");
    reveal_strlit("\\chapter");
    reveal_strlit("# ");
    reveal_strlit("\n\n");
    let t = trim(line);
    let c = "\\chapter"@;
    assert(t =~= c + (seq!['{'] + title + seq!['}']));
    assert(t[0] == '\\' && t[1] == 'c');
    reveal_strlit("\\begin{document}");
    reveal_strlit("\\end{document}");
    reveal_strlit("\\documentclass");
    reveal_strlit("\\usepackage");
    reveal_strlit("\\newcommand");
    reveal_strlit("\\renewcommand");
    reveal_strlit("\\def");
    reveal_strlit("\\set");
    reveal_strlit("\\begin{verbatim}");
    reveal_strlit("\\begin{lstlisting}");
    reveal_strlit("\\end{verbatim}");
    reveal_strlit("\\end{lstlisting}");
    reveal_strlit("\\begin{equation");
    reveal_strlit("\\begin{align");
    reveal_strlit("\\begin{gather");
    reveal_strlit("\\begin{math");
    reveal_strlit("\\end{equation");
    reveal_strlit("\\end{align");
    reveal_strlit("\\end{gather");
    reveal_strlit("\\end{math");
    reveal_strlit("\\begin{itemize}");
    reveal_strlit("\\end{itemize}");
    reveal_strlit("\\begin{enumerate}");
    reveal_strlit("\\end{enumerate}");
    reveal_strlit("\\item");
    lemma_not_prefix_at(t, "\\begin{document}"@, 1);
    lemma_not_prefix_at(t, "\\end{document}"@, 1);
    lemma_not_prefix_at(t, "\\documentclass"@, 1);
    lemma_not_prefix_at(t, "\\usepackage"@, 1);
    lemma_not_prefix_at(t, "\\newcommand"@, 1);
    lemma_not_prefix_at(t, "\\renewcommand"@, 1);
    lemma_not_prefix_at(t, "\\def"@, 1);
    lemma_not_prefix_at(t, "\\set"@, 1);
    lemma_not_prefix_at(t, seq!['%'], 0);
    lemma_not_prefix_at(t, "\\begin{verbatim}"@, 1);
    lemma_not_prefix_at(t, "\\begin{lstlisting}"@, 1);
    lemma_not_prefix_at(t, "\\end{verbatim}"@, 1);
    lemma_not_prefix_at(t, "\\end{lstlisting}"@, 1);
    lemma_not_prefix_at(t, "\\begin{equation"@, 1);
    lemma_not_prefix_at(t, "\\begin{align"@, 1);
    lemma_not_prefix_at(t, "\\begin{gather"@, 1);
    lemma_not_prefix_at(t, "\\begin{math"@, 1);
    lemma_not_prefix_at(t, "\\end{equation"@, 1);
    lemma_not_prefix_at(t, "\\end{align"@, 1);
    lemma_not_prefix_at(t, "\\end{gather"@, 1);
    lemma_not_prefix_at(t, "\\end{math"@, 1);
    lemma_not_prefix_at(t, "\\begin{itemize}"@, 1);
    lemma_not_prefix_at(t, "\\end{itemize}"@, 1);
    lemma_not_prefix_at(t, "\\begin{enumerate}"@, 1);
    lemma_not_prefix_at(t, "\\end{enumerate}"@, 1);
    lemma_not_prefix_at(t, "\\item"@, 1);
    assert(t.subrange(0, c.len() as int) =~= c);
    assert(t.skip(c.len() as int) =~= seq!['{'] + title + seq!['}']);
    lemma_braces_balanced(title);
    assert(ext(t, c) == Some(title));
    assert(heading_text(1, title) =~= "# "@ + title + "\n\n"@);
    assert(command_text(t) == Some("# "@ + title + "\n\n"@));
}


/// The sectioning commands, and the title, author and date commands, in
/// the order the converter tries them.
pub open spec fn latex_commands() -> Seq<Seq<char>> {
    seq!["\\chapter"@, "\\section"@, "\\subsection"@, "\\subsubsection"@, "\\paragraph"@, "\\title"@, "\\author"@, "\\date"@]
}

/// What the line of command `j` of [`latex_commands`] starts with: a
/// heading one level deeper for each sectioning command from `\chapter`
/// (level one) to `\paragraph` (level five), a level-one heading for the
/// title, and bold labels for the author and the date.
pub open spec fn command_lead(j: int) -> Seq<char> {
    seq!["# "@, "## "@, "### "@, "#### "@, "##### "@, "# "@, "**Author:** "@, "**Date:** "@][j]
}

/// A line `\cmd{T}` of a sectioning, title, author or date command,
/// outside verbatim and math environments, gives the command's lead, `T`
/// and a blank line, for every non-empty `T` whose braces are balanced: a
/// `\chapter` is a level-one heading, a `\section` level two, down to a
/// `\paragraph` at level five. The conversion state is left as it was.
#[verifier::rlimit(50)]
pub proof fn command_lines(st: LatexState, line: Seq<char>, j: int, title: Seq<char>)
    requires
        0 <= j < 8,
        !st.in_verbatim,
        !st.in_math,
        title.len() > 0,
        balanced(title),
        trim(line) == latex_commands()[j] + "{"@ + title + "}"@,
    ensures
        latex_step(st, line) == (st, command_lead(j) + title + "\n\n"@),
{
    reveal_strlit("\\begin{document}");
    reveal_strlit("\\end{document}");
    reveal_strlit("\\documentclass");
    reveal_strlit("\\usepackage");
    reveal_strlit("\\newcommand");
    reveal_strlit("\\renewcommand");
    reveal_strlit("\\def");
    reveal_strlit("\\set");
    reveal_strlit("\\begin{verbatim}");
    reveal_strlit("\\begin{lstlisting}");
    reveal_strlit("\\end{verbatim}");
    reveal_strlit("\\end{lstlisting}");
    reveal_strlit("\\begin{equation");
    reveal_strlit("\\begin{align");
    reveal_strlit("\\begin{gather");
    reveal_strlit("\\begin{math");
    reveal_strlit("\\end{equation");
    reveal_strlit("\\end{align");
    reveal_strlit("\\end{gather");
    reveal_strlit("\\end{math");
    reveal_strlit("\\begin{itemize}");
    reveal_strlit("\\end{itemize}");
    reveal_strlit("\\begin{enumerate}");
    reveal_strlit("\\end{enumerate}");
    reveal_strlit("\\item");
    reveal_strlit("\\chapter");
    reveal_strlit("\\section");
    reveal_strlit("\\subsection");
    reveal_strlit("\\subsubsection");
    reveal_strlit("\\paragraph");
    reveal_strlit("\\title");
    reveal_strlit("\\author");
    reveal_strlit("\\date");
    reveal_strlit("# ");
    reveal_strlit("## ");
    reveal_strlit("### ");
    reveal_strlit("#### ");
    reveal_strlit("##### ");
    reveal_strlit("**Author:** ");
    reveal_strlit("**Date:** ");
    reveal_strlit("{");
    reveal_strlit("}");
    reveal_strlit("\n\n");
    let c = latex_commands()[j];
    let t = trim(line);
    assert(t =~= c + (seq!['{'] + title + seq!['}']));
    assert(t.subrange(0, c.len() as int) =~= c);
    assert(t.skip(c.len() as int) =~= seq!['{'] + title + seq!['}']);
    lemma_braces_balanced(title);
    assert(ext(t, c) == Some(title));
    if j == 0 {
        lemma_not_prefix_at(t, "\\begin{document}"@, 1);
        lemma_not_prefix_at(t, "\\end{document}"@, 1);
        lemma_not_prefix_at(t, "\\documentclass"@, 1);
        lemma_not_prefix_at(t, "\\usepackage"@, 1);
        lemma_not_prefix_at(t, "\\newcommand"@, 1);
        lemma_not_prefix_at(t, "\\renewcommand"@, 1);
        lemma_not_prefix_at(t, "\\def"@, 1);
        lemma_not_prefix_at(t, "\\set"@, 1);
        lemma_not_prefix_at(t, seq!['%'], 0);
        lemma_not_prefix_at(t, "\\begin{verbatim}"@, 1);
        lemma_not_prefix_at(t, "\\begin{lstlisting}"@, 1);
        lemma_not_prefix_at(t, "\\end{verbatim}"@, 1);
        lemma_not_prefix_at(t, "\\end{lstlisting}"@, 1);
        lemma_not_prefix_at(t, "\\begin{equation"@, 1);
        lemma_not_prefix_at(t, "\\begin{align"@, 1);
        lemma_not_prefix_at(t, "\\begin{gather"@, 1);
        lemma_not_prefix_at(t, "\\begin{math"@, 1);
        lemma_not_prefix_at(t, "\\end{equation"@, 1);
        lemma_not_prefix_at(t, "\\end{align"@, 1);
        lemma_not_prefix_at(t, "\\end{gather"@, 1);
        lemma_not_prefix_at(t, "\\end{math"@, 1);
        lemma_not_prefix_at(t, "\\begin{itemize}"@, 1);
        lemma_not_prefix_at(t, "\\end{itemize}"@, 1);
        lemma_not_prefix_at(t, "\\begin{enumerate}"@, 1);
        lemma_not_prefix_at(t, "\\end{enumerate}"@, 1);
        lemma_not_prefix_at(t, "\\item"@, 1);
    } else if j == 1 {
        lemma_not_prefix_at(t, "\\begin{document}"@, 1);
        lemma_not_prefix_at(t, "\\end{document}"@, 1);
        lemma_not_prefix_at(t, "\\documentclass"@, 1);
        lemma_not_prefix_at(t, "\\usepackage"@, 1);
        lemma_not_prefix_at(t, "\\newcommand"@, 1);
        lemma_not_prefix_at(t, "\\renewcommand"@, 1);
        lemma_not_prefix_at(t, "\\def"@, 1);
        lemma_not_prefix_at(t, "\\set"@, 3);
        lemma_not_prefix_at(t, seq!['%'], 0);
        lemma_not_prefix_at(t, "\\begin{verbatim}"@, 1);
        lemma_not_prefix_at(t, "\\begin{lstlisting}"@, 1);
        lemma_not_prefix_at(t, "\\end{verbatim}"@, 1);
        lemma_not_prefix_at(t, "\\end{lstlisting}"@, 1);
        lemma_not_prefix_at(t, "\\begin{equation"@, 1);
        lemma_not_prefix_at(t, "\\begin{align"@, 1);
        lemma_not_prefix_at(t, "\\begin{gather"@, 1);
        lemma_not_prefix_at(t, "\\begin{math"@, 1);
        lemma_not_prefix_at(t, "\\end{equation"@, 1);
        lemma_not_prefix_at(t, "\\end{align"@, 1);
        lemma_not_prefix_at(t, "\\end{gather"@, 1);
        lemma_not_prefix_at(t, "\\end{math"@, 1);
        lemma_not_prefix_at(t, "\\begin{itemize}"@, 1);
        lemma_not_prefix_at(t, "\\end{itemize}"@, 1);
        lemma_not_prefix_at(t, "\\begin{enumerate}"@, 1);
        lemma_not_prefix_at(t, "\\end{enumerate}"@, 1);
        lemma_not_prefix_at(t, "\\item"@, 1);
        lemma_not_prefix_at(t, "\\chapter"@, 1);
    } else if j == 2 {
        lemma_not_prefix_at(t, "\\begin{document}"@, 1);
        lemma_not_prefix_at(t, "\\end{document}"@, 1);
        lemma_not_prefix_at(t, "\\documentclass"@, 1);
        lemma_not_prefix_at(t, "\\usepackage"@, 1);
        lemma_not_prefix_at(t, "\\newcommand"@, 1);
        lemma_not_prefix_at(t, "\\renewcommand"@, 1);
        lemma_not_prefix_at(t, "\\def"@, 1);
        lemma_not_prefix_at(t, "\\set"@, 2);
        lemma_not_prefix_at(t, seq!['%'], 0);
        lemma_not_prefix_at(t, "\\begin{verbatim}"@, 1);
        lemma_not_prefix_at(t, "\\begin{lstlisting}"@, 1);
        lemma_not_prefix_at(t, "\\end{verbatim}"@, 1);
        lemma_not_prefix_at(t, "\\end{lstlisting}"@, 1);
        lemma_not_prefix_at(t, "\\begin{equation"@, 1);
        lemma_not_prefix_at(t, "\\begin{align"@, 1);
        lemma_not_prefix_at(t, "\\begin{gather"@, 1);
        lemma_not_prefix_at(t, "\\begin{math"@, 1);
        lemma_not_prefix_at(t, "\\end{equation"@, 1);
        lemma_not_prefix_at(t, "\\end{align"@, 1);
        lemma_not_prefix_at(t, "\\end{gather"@, 1);
        lemma_not_prefix_at(t, "\\end{math"@, 1);
        lemma_not_prefix_at(t, "\\begin{itemize}"@, 1);
        lemma_not_prefix_at(t, "\\end{itemize}"@, 1);
        lemma_not_prefix_at(t, "\\begin{enumerate}"@, 1);
        lemma_not_prefix_at(t, "\\end{enumerate}"@, 1);
        lemma_not_prefix_at(t, "\\item"@, 1);
        lemma_not_prefix_at(t, "\\chapter"@, 1);
        lemma_not_prefix_at(t, "\\section"@, 2);
    } else if j == 3 {
        lemma_not_prefix_at(t, "\\begin{document}"@, 1);
        lemma_not_prefix_at(t, "\\end{document}"@, 1);
        lemma_not_prefix_at(t, "\\documentclass"@, 1);
        lemma_not_prefix_at(t, "\\usepackage"@, 1);
        lemma_not_prefix_at(t, "\\newcommand"@, 1);
        lemma_not_prefix_at(t, "\\renewcommand"@, 1);
        lemma_not_prefix_at(t, "\\def"@, 1);
        lemma_not_prefix_at(t, "\\set"@, 2);
        lemma_not_prefix_at(t, seq!['%'], 0);
        lemma_not_prefix_at(t, "\\begin{verbatim}"@, 1);
        lemma_not_prefix_at(t, "\\begin{lstlisting}"@, 1);
        lemma_not_prefix_at(t, "\\end{verbatim}"@, 1);
        lemma_not_prefix_at(t, "\\end{lstlisting}"@, 1);
        lemma_not_prefix_at(t, "\\begin{equation"@, 1);
        lemma_not_prefix_at(t, "\\begin{align"@, 1);
        lemma_not_prefix_at(t, "\\begin{gather"@, 1);
        lemma_not_prefix_at(t, "\\begin{math"@, 1);
        lemma_not_prefix_at(t, "\\end{equation"@, 1);
        lemma_not_prefix_at(t, "\\end{align"@, 1);
        lemma_not_prefix_at(t, "\\end{gather"@, 1);
        lemma_not_prefix_at(t, "\\end{math"@, 1);
        lemma_not_prefix_at(t, "\\begin{itemize}"@, 1);
        lemma_not_prefix_at(t, "\\end{itemize}"@, 1);
        lemma_not_prefix_at(t, "\\begin{enumerate}"@, 1);
        lemma_not_prefix_at(t, "\\end{enumerate}"@, 1);
        lemma_not_prefix_at(t, "\\item"@, 1);
        lemma_not_prefix_at(t, "\\chapter"@, 1);
        lemma_not_prefix_at(t, "\\section"@, 2);
        lemma_not_prefix_at(t, "\\subsection"@, 5);
    } else if j == 4 {
        lemma_not_prefix_at(t, "\\begin{document}"@, 1);
        lemma_not_prefix_at(t, "\\end{document}"@, 1);
        lemma_not_prefix_at(t, "\\documentclass"@, 1);
        lemma_not_prefix_at(t, "\\usepackage"@, 1);
        lemma_not_prefix_at(t, "\\newcommand"@, 1);
        lemma_not_prefix_at(t, "\\renewcommand"@, 1);
        lemma_not_prefix_at(t, "\\def"@, 1);
        lemma_not_prefix_at(t, "\\set"@, 1);
        lemma_not_prefix_at(t, seq!['%'], 0);
        lemma_not_prefix_at(t, "\\begin{verbatim}"@, 1);
        lemma_not_prefix_at(t, "\\begin{lstlisting}"@, 1);
        lemma_not_prefix_at(t, "\\end{verbatim}"@, 1);
        lemma_not_prefix_at(t, "\\end{lstlisting}"@, 1);
        lemma_not_prefix_at(t, "\\begin{equation"@, 1);
        lemma_not_prefix_at(t, "\\begin{align"@, 1);
        lemma_not_prefix_at(t, "\\begin{gather"@, 1);
        lemma_not_prefix_at(t, "\\begin{math"@, 1);
        lemma_not_prefix_at(t, "\\end{equation"@, 1);
        lemma_not_prefix_at(t, "\\end{align"@, 1);
        lemma_not_prefix_at(t, "\\end{gather"@, 1);
        lemma_not_prefix_at(t, "\\end{math"@, 1);
        lemma_not_prefix_at(t, "\\begin{itemize}"@, 1);
        lemma_not_prefix_at(t, "\\end{itemize}"@, 1);
        lemma_not_prefix_at(t, "\\begin{enumerate}"@, 1);
        lemma_not_prefix_at(t, "\\end{enumerate}"@, 1);
        lemma_not_prefix_at(t, "\\item"@, 1);
        lemma_not_prefix_at(t, "\\chapter"@, 1);
        lemma_not_prefix_at(t, "\\section"@, 1);
        lemma_not_prefix_at(t, "\\subsection"@, 1);
        lemma_not_prefix_at(t, "\\subsubsection"@, 1);
    } else if j == 5 {
        lemma_not_prefix_at(t, "\\begin{document}"@, 1);
        lemma_not_prefix_at(t, "\\end{document}"@, 1);
        lemma_not_prefix_at(t, "\\documentclass"@, 1);
        lemma_not_prefix_at(t, "\\usepackage"@, 1);
        lemma_not_prefix_at(t, "\\newcommand"@, 1);
        lemma_not_prefix_at(t, "\\renewcommand"@, 1);
        lemma_not_prefix_at(t, "\\def"@, 1);
        lemma_not_prefix_at(t, "\\set"@, 1);
        lemma_not_prefix_at(t, seq!['%'], 0);
        lemma_not_prefix_at(t, "\\begin{verbatim}"@, 1);
        lemma_not_prefix_at(t, "\\begin{lstlisting}"@, 1);
        lemma_not_prefix_at(t, "\\end{verbatim}"@, 1);
        lemma_not_prefix_at(t, "\\end{lstlisting}"@, 1);
        lemma_not_prefix_at(t, "\\begin{equation"@, 1);
        lemma_not_prefix_at(t, "\\begin{align"@, 1);
        lemma_not_prefix_at(t, "\\begin{gather"@, 1);
        lemma_not_prefix_at(t, "\\begin{math"@, 1);
        lemma_not_prefix_at(t, "\\end{equation"@, 1);
        lemma_not_prefix_at(t, "\\end{align"@, 1);
        lemma_not_prefix_at(t, "\\end{gather"@, 1);
        lemma_not_prefix_at(t, "\\end{math"@, 1);
        lemma_not_prefix_at(t, "\\begin{itemize}"@, 1);
        lemma_not_prefix_at(t, "\\end{itemize}"@, 1);
        lemma_not_prefix_at(t, "\\begin{enumerate}"@, 1);
        lemma_not_prefix_at(t, "\\end{enumerate}"@, 1);
        lemma_not_prefix_at(t, "\\item"@, 1);
        lemma_not_prefix_at(t, "\\chapter"@, 1);
        lemma_not_prefix_at(t, "\\section"@, 1);
        lemma_not_prefix_at(t, "\\subsection"@, 1);
        lemma_not_prefix_at(t, "\\subsubsection"@, 1);
        lemma_not_prefix_at(t, "\\paragraph"@, 1);
    } else if j == 6 {
        lemma_not_prefix_at(t, "\\begin{document}"@, 1);
        lemma_not_prefix_at(t, "\\end{document}"@, 1);
        lemma_not_prefix_at(t, "\\documentclass"@, 1);
        lemma_not_prefix_at(t, "\\usepackage"@, 1);
        lemma_not_prefix_at(t, "\\newcommand"@, 1);
        lemma_not_prefix_at(t, "\\renewcommand"@, 1);
        lemma_not_prefix_at(t, "\\def"@, 1);
        lemma_not_prefix_at(t, "\\set"@, 1);
        lemma_not_prefix_at(t, seq!['%'], 0);
        lemma_not_prefix_at(t, "\\begin{verbatim}"@, 1);
        lemma_not_prefix_at(t, "\\begin{lstlisting}"@, 1);
        lemma_not_prefix_at(t, "\\end{verbatim}"@, 1);
        lemma_not_prefix_at(t, "\\end{lstlisting}"@, 1);
        lemma_not_prefix_at(t, "\\begin{equation"@, 1);
        lemma_not_prefix_at(t, "\\begin{align"@, 1);
        lemma_not_prefix_at(t, "\\begin{gather"@, 1);
        lemma_not_prefix_at(t, "\\begin{math"@, 1);
        lemma_not_prefix_at(t, "\\end{equation"@, 1);
        lemma_not_prefix_at(t, "\\end{align"@, 1);
        lemma_not_prefix_at(t, "\\end{gather"@, 1);
        lemma_not_prefix_at(t, "\\end{math"@, 1);
        lemma_not_prefix_at(t, "\\begin{itemize}"@, 1);
        lemma_not_prefix_at(t, "\\end{itemize}"@, 1);
        lemma_not_prefix_at(t, "\\begin{enumerate}"@, 1);
        lemma_not_prefix_at(t, "\\end{enumerate}"@, 1);
        lemma_not_prefix_at(t, "\\item"@, 1);
        lemma_not_prefix_at(t, "\\chapter"@, 1);
        lemma_not_prefix_at(t, "\\section"@, 1);
        lemma_not_prefix_at(t, "\\subsection"@, 1);
        lemma_not_prefix_at(t, "\\subsubsection"@, 1);
        lemma_not_prefix_at(t, "\\paragraph"@, 1);
        lemma_not_prefix_at(t, "\\title"@, 1);
    } else if j == 7 {
        lemma_not_prefix_at(t, "\\begin{document}"@, 1);
        lemma_not_prefix_at(t, "\\end{document}"@, 1);
        lemma_not_prefix_at(t, "\\documentclass"@, 2);
        lemma_not_prefix_at(t, "\\usepackage"@, 1);
        lemma_not_prefix_at(t, "\\newcommand"@, 1);
        lemma_not_prefix_at(t, "\\renewcommand"@, 1);
        lemma_not_prefix_at(t, "\\def"@, 2);
        lemma_not_prefix_at(t, "\\set"@, 1);
        lemma_not_prefix_at(t, seq!['%'], 0);
        lemma_not_prefix_at(t, "\\begin{verbatim}"@, 1);
        lemma_not_prefix_at(t, "\\begin{lstlisting}"@, 1);
        lemma_not_prefix_at(t, "\\end{verbatim}"@, 1);
        lemma_not_prefix_at(t, "\\end{lstlisting}"@, 1);
        lemma_not_prefix_at(t, "\\begin{equation"@, 1);
        lemma_not_prefix_at(t, "\\begin{align"@, 1);
        lemma_not_prefix_at(t, "\\begin{gather"@, 1);
        lemma_not_prefix_at(t, "\\begin{math"@, 1);
        lemma_not_prefix_at(t, "\\end{equation"@, 1);
        lemma_not_prefix_at(t, "\\end{align"@, 1);
        lemma_not_prefix_at(t, "\\end{gather"@, 1);
        lemma_not_prefix_at(t, "\\end{math"@, 1);
        lemma_not_prefix_at(t, "\\begin{itemize}"@, 1);
        lemma_not_prefix_at(t, "\\end{itemize}"@, 1);
        lemma_not_prefix_at(t, "\\begin{enumerate}"@, 1);
        lemma_not_prefix_at(t, "\\end{enumerate}"@, 1);
        lemma_not_prefix_at(t, "\\item"@, 1);
        lemma_not_prefix_at(t, "\\chapter"@, 1);
        lemma_not_prefix_at(t, "\\section"@, 1);
        lemma_not_prefix_at(t, "\\subsection"@, 1);
        lemma_not_prefix_at(t, "\\subsubsection"@, 1);
        lemma_not_prefix_at(t, "\\paragraph"@, 1);
        lemma_not_prefix_at(t, "\\title"@, 1);
        lemma_not_prefix_at(t, "\\author"@, 1);
    }
    assert(repeat_char('#', 1) + seq![' '] =~= "# "@);
    assert(repeat_char('#', 2) + seq![' '] =~= "## "@);
    assert(repeat_char('#', 3) + seq![' '] =~= "### "@);
    assert(repeat_char('#', 4) + seq![' '] =~= "#### "@);
    assert(repeat_char('#', 5) + seq![' '] =~= "##### "@);
}

/// The TODO-style keywords that Org-mode headings may start with.
pub open spec fn org_keywords() -> Seq<Seq<char>> {
    seq!["TODO"@, "DONE"@, "WAITING"@, "CANCELLED"@, "NEXT"@]
}

/// The text has something other than whitespace at both ends.
pub open spec fn no_outer_ws(s: Seq<char>) -> bool {
    s.len() > 0 && !is_ws(s[0]) && !is_ws(s.last())
}

proof fn lemma_trimmed(s: Seq<char>)
    requires
        no_outer_ws(s),
    ensures
        trim(s) == s,
        trim_start(s) == s,
        trim_end(s) == s,
{
}

proof fn lemma_space_then(t: Seq<char>)
    requires
        no_outer_ws(t),
    ensures
        trim_start(seq![' '] + t) == t,
        trim(seq![' '] + t) == t,
{
    let s = seq![' '] + t;
    assert((' ' as u32) == 0x20);
    assert(s[0] == ' ');
    assert(is_ws(s[0]));
    assert(s.drop_first() =~= t);
    lemma_trimmed(t);
    assert(trim_start(s) == trim_start(s.drop_first()));
}

proof fn lemma_stars(n: nat, rest: Seq<char>)
    requires
        rest.len() > 0,
        rest[0] != '*',
    ensures
        leading_stars(repeat_char('*', n) + rest) == n,
    decreases n,
{
    let s = repeat_char('*', n) + rest;
    if n > 0 {
        assert(s.drop_first() =~= repeat_char('*', (n - 1) as nat) + rest);
        lemma_stars((n - 1) as nat, rest);
    } else {
        assert(s =~= rest);
    }
}

/// A keyword followed by a space and a title loses its keyword, for every
/// title without whitespace at its ends.
pub proof fn keyword_is_stripped(k: int, title: Seq<char>)
    requires
        0 <= k < 5,
        no_outer_ws(title),
    ensures
        strip_keywords(org_keywords()[k] + seq![' '] + title) == title,
{
    reveal_strlit("TODO");
    reveal_strlit("DONE");
    reveal_strlit("WAITING");
    reveal_strlit("CANCELLED");
    reveal_strlit("NEXT");
    let kw = org_keywords()[k];
    let text = kw + seq![' '] + title;
    assert(text.subrange(0, kw.len() as int) =~= kw);
    assert(text.skip(kw.len() as int) =~= seq![' '] + title);
    lemma_space_then(title);
    assert(text[0] == kw[0]);
    if k > 0 {
        lemma_not_prefix_at(text, "TODO"@, 0);
    }
    if k > 1 {
        lemma_not_prefix_at(text, "DONE"@, 0);
    }
    if k > 2 {
        lemma_not_prefix_at(text, "WAITING"@, 0);
    }
    if k > 3 {
        lemma_not_prefix_at(text, "CANCELLED"@, 0);
    }
}

/// An Org-mode heading of `n` stars, a keyword (TODO, DONE, WAITING,
/// CANCELLED or NEXT) and a title becomes a Markdown heading of level `n`
/// holding the title alone, for every title without whitespace at its
/// ends. (The line starts with `*`, so its lowercase, as std's
/// `to_lowercase` gives it, does not start with `#+`; that is taken as
/// given, since nothing here states what `to_lowercase` does beyond ASCII.)
pub proof fn heading_keywords_are_removed(n: nat, k: int, title: Seq<char>, line: Seq<char>)
    requires
        n >= 1,
        0 <= k < 5,
        no_outer_ws(title),
        line == repeat_char('*', n) + seq![' '] + org_keywords()[k] + seq![' '] + title,
        !has_prefix(unicode_lowercase(trim(line)), "#+"@),
    ensures
        org_step(false, line) == (false, repeat_char('#', n) + seq![' '] + title + seq!['\n']),
{
    reveal_strlit("#+");
    reveal_strlit("#+begin_src");
    reveal_strlit("#+end_src");
    reveal_strlit("#+begin_quote");
    reveal_strlit("#+end_quote");
    reveal_strlit("TODO");
    reveal_strlit("DONE");
    reveal_strlit("WAITING");
    reveal_strlit("CANCELLED");
    reveal_strlit("NEXT");
    let lt = unicode_lowercase(trim(line));
    lemma_prefix_of_hash_plus(lt, "#+begin_src"@);
    lemma_prefix_of_hash_plus(lt, "#+end_src"@);
    lemma_prefix_of_hash_plus(lt, "#+begin_quote"@);
    lemma_prefix_of_hash_plus(lt, "#+end_quote"@);
    let kw = org_keywords()[k];
    let body = kw + seq![' '] + title;
    assert(kw.len() > 0 && !is_ws(kw[0]));
    assert(body[0] == kw[0]);
    assert(body.last() == title.last());
    assert(line =~= repeat_char('*', n) + (seq![' '] + body));
    assert(line[0] == '*');
    lemma_stars(n, seq![' '] + body);
    assert(line.skip(n as int) =~= seq![' '] + body);
    lemma_space_then(body);
    keyword_is_stripped(k, title);
}

proof fn lemma_prefix_of_hash_plus(s: Seq<char>, p: Seq<char>)
    requires
        p.len() >= 2,
        p[0] == '#',
        p[1] == '+',
        !has_prefix(s, "#+"@),
    ensures
        !has_prefix(s, p),
{
    reveal_strlit("#+");
    if has_prefix(s, p) {
        assert(s.subrange(0, 2) =~= "#+"@);
    }
}


/// A contact with an organization `a` and a title `b` shows the line
/// `- **Organization:** a` followed by the line `- **Title:** b`: the
/// organization line carries the card's `ORG` value and the title line its
/// `TITLE` value.
pub proof fn contact_shows_organization_then_title(c: Seq<char>, k: nat, a: Seq<char>, b: Seq<char>)
    requires
        vcf_single(c, k, "ORG"@) == Some(a),
        vcf_single(c, k, "TITLE"@) == Some(b),
    ensures
        exists|p: Seq<char>, q: Seq<char>|
            card_md(c, k) == p + ("- **Organization:** "@ + a + "\n"@ + "- **Title:** "@ + b + "\n"@) + q,
{
    let m = card_md(c, k);
    let p = "## \u{1F464} Contact\n\n"@ + crate::calendar::opt_line("**"@, vcf_single(c, k, "FN"@), "**\n\n"@);
    let mid = "- **Organization:** "@ + a + "\n"@ + "- **Title:** "@ + b + "\n"@;
    let q = m.skip((p.len() + mid.len()) as int);
    assert(m =~= p + mid + q);
}

/// An event with a start `s` and an end `e` shows the line `- **Start:** s`
/// followed by the line `- **End:** e`: the start line carries the event's
/// start and the end line its end.
pub proof fn event_shows_start_then_end(ev: EventView, s: Seq<char>, e: Seq<char>)
    requires
        ev.start == Some(s),
        ev.end == Some(e),
    ensures
        exists|p: Seq<char>, q: Seq<char>|
            event_md(ev) == p + ("- **Start:** "@ + s + "\n"@ + "- **End:** "@ + e + "\n"@) + q,
{
    let m = event_md(ev);
    let p = "## \u{1F4C5} Event\n\n"@ + crate::calendar::opt_line("**"@, ev.summary, "**\n\n"@);
    let mid = "- **Start:** "@ + s + "\n"@ + "- **End:** "@ + e + "\n"@;
    let q = m.skip((p.len() + mid.len()) as int);
    assert(m =~= p + mid + q);
}

/// `part` stands somewhere in `whole`.
pub open spec fn stands_in(whole: Seq<char>, part: Seq<char>) -> bool {
    exists|p: Seq<char>, q: Seq<char>| whole == p + part + q
}

/// The shown form of each address.
pub open spec fn shown_addresses(v: Seq<MailAddressView>) -> Seq<Seq<char>> {
    v.map_values(|a: MailAddressView| crate::email::address_md(a))
}

proof fn lemma_join_holds(parts: Seq<Seq<char>>, sep: Seq<char>, i: int) -> (r: (Seq<char>, Seq<char>))
    requires
        0 <= i < parts.len(),
    ensures
        join(parts, sep) == r.0 + parts[i] + r.1,
    decreases parts.len(),
{
    if parts.len() == 1 {
        assert(join(parts, sep) =~= Seq::<char>::empty() + parts[i] + Seq::<char>::empty());
        (Seq::<char>::empty(), Seq::<char>::empty())
    } else if i == parts.len() - 1 {
        let p = join(parts.drop_last(), sep) + sep;
        assert(join(parts, sep) =~= p + parts[i] + Seq::<char>::empty());
        (p, Seq::<char>::empty())
    } else {
        let (p, q) = lemma_join_holds(parts.drop_last(), sep, i);
        assert(parts.drop_last()[i] == parts[i]);
        let q2 = q + sep + parts.last();
        assert(join(parts, sep) =~= p + parts[i] + q2);
        (p, q2)
    }
}

/// An address header with at least one address gives the line
/// `**Label:** ` with the first address and then, for each further address,
/// `, ` and that address, in order: adding an address to the header adds
/// `, ` and it at the end of the line, and every address of the header
/// stands in the line.
pub proof fn address_line_lists_every_address(label: Seq<char>, v: Seq<MailAddressView>, a: MailAddressView)
    requires
        v.len() > 0,
    ensures
        v.len() == 1 ==> addresses_md(label, Some(v)) == "**"@ + label + ":** "@ + crate::email::address_md(v[0])
            + "\n\n"@,
        ({
            let line = addresses_md(label, Some(v));
            addresses_md(label, Some(v.push(a))) == line.take(line.len() - 2) + ", "@ + crate::email::address_md(a)
                + "\n\n"@
        }),
        forall|i: int|
            0 <= i < v.len() ==> stands_in(addresses_md(label, Some(v)), #[trigger] crate::email::address_md(v[i])),
{
    reveal_strlit("\n\n");
    let parts = shown_addresses(v);
    let head = "**"@ + label + ":** "@;
    if v.len() == 1 {
        assert(parts.len() == 1);
        assert(addresses_md(label, Some(v)) =~= head + crate::email::address_md(v[0]) + "\n\n"@);
    }
    let line = addresses_md(label, Some(v));
    assert(line =~= head + join(parts, ", "@) + "\n\n"@);
    let w = v.push(a);
    let pw = shown_addresses(w);
    assert(pw.drop_last() =~= parts);
    assert(pw.last() == crate::email::address_md(a));
    assert(pw.len() > 1);
    assert(join(pw, ", "@) == join(parts, ", "@) + ", "@ + crate::email::address_md(a));
    assert(line.take(line.len() - 2) =~= head + join(parts, ", "@));
    assert(addresses_md(label, Some(w)) =~= line.take(line.len() - 2) + ", "@ + crate::email::address_md(a) + "\n\n"@);
    assert forall|i: int| 0 <= i < v.len() implies stands_in(
        addresses_md(label, Some(v)),
        #[trigger] crate::email::address_md(v[i]),
    ) by {
        let (p, q) = lemma_join_holds(parts, ", "@, i);
        assert(parts[i] == crate::email::address_md(v[i]));
        assert(line =~= (head + p) + crate::email::address_md(v[i]) + (q + "\n\n"@));
        let pp = head + p;
        let qq = q + "\n\n"@;
        assert(addresses_md(label, Some(v)) == pp + crate::email::address_md(v[i]) + qq);
    }
}


proof fn lemma_each_line_holds(before: Seq<char>, vs: Seq<Seq<char>>, i: int)
    requires
        0 <= i < vs.len(),
    ensures
        stands_in(each_line(before, vs), before + vs[i] + "\n"@),
    decreases vs.len(),
{
    let l = before + vs[i] + "\n"@;
    if i == vs.len() - 1 {
        let p = each_line(before, vs.drop_last());
        assert(each_line(before, vs) =~= p + l + Seq::<char>::empty());
    } else {
        lemma_each_line_holds(before, vs.drop_last(), i);
        assert(vs.drop_last()[i] == vs[i]);
        let (p, q) = choose|p: Seq<char>, q: Seq<char>| each_line(before, vs.drop_last()) == p + l + q;
        assert(each_line(before, vs) =~= p + l + (q + before + vs.last() + "\n"@));
    }
}

proof fn lemma_stands(m: Seq<char>, p: Seq<char>, part: Seq<char>, q: Seq<char>)
    requires
        m =~= p + part + q,
    ensures
        stands_in(m, part),
{
    assert(m == p + part + q);
}

proof fn lemma_stands_in_grows(a: Seq<char>, x: Seq<char>, b: Seq<char>, part: Seq<char>)
    requires
        stands_in(x, part),
    ensures
        stands_in(a + x + b, part),
{
    let (p, q) = choose|p: Seq<char>, q: Seq<char>| x == p + part + q;
    assert(a + x + b =~= (a + p) + part + (q + b));
}

/// A contact section opens with its heading and, where the card has a
/// formatted name `n`, the line `**n**`.
pub proof fn contact_opens_with_name(c: Seq<char>, k: nat, n: Seq<char>)
    requires
        vcf_single(c, k, "FN"@) == Some(n),
    ensures
        exists|q: Seq<char>| card_md(c, k) == "## \u{1F464} Contact\n\n"@ + "**"@ + n + "**\n\n"@ + q,
{
    let m = card_md(c, k);
    let h = "## \u{1F464} Contact\n\n"@ + "**"@ + n + "**\n\n"@;
    let q = m.skip(h.len() as int);
    assert(m =~= h + q);
}

/// Every e-mail address and every phone number of a card has its line in
/// the contact's section, and so have its website and its note.
pub proof fn contact_lists_every_email_and_phone(c: Seq<char>, k: nat)
    ensures
        forall|i: int|
            0 <= i < vcf_multiple(c, k, "EMAIL"@).len() ==> stands_in(
                card_md(c, k),
                "- **Email:** "@ + #[trigger] vcf_multiple(c, k, "EMAIL"@)[i] + "\n"@,
            ),
        forall|i: int|
            0 <= i < vcf_multiple(c, k, "TEL"@).len() ==> stands_in(
                card_md(c, k),
                "- **Phone:** "@ + #[trigger] vcf_multiple(c, k, "TEL"@)[i] + "\n"@,
            ),
        vcf_single(c, k, "URL"@) matches Some(u) ==> stands_in(card_md(c, k), "- **Website:** "@ + u + "\n"@),
        vcf_single(c, k, "NOTE"@) matches Some(t) ==> stands_in(card_md(c, k), "\n> "@ + t + "\n"@),
{
    let m = card_md(c, k);
    let emails = vcf_multiple(c, k, "EMAIL"@);
    let phones = vcf_multiple(c, k, "TEL"@);
    let a = "## \u{1F464} Contact\n\n"@ + opt_line("**"@, vcf_single(c, k, "FN"@), "**\n\n"@) + opt_line(
        "- **Organization:** "@,
        vcf_single(c, k, "ORG"@),
        "\n"@,
    ) + opt_line("- **Title:** "@, vcf_single(c, k, "TITLE"@), "\n"@);
    let el = each_line("- **Email:** "@, emails);
    let pl = each_line("- **Phone:** "@, phones);
    let rest = crate::vcard::address_md(vcf_single(c, k, "ADR"@)) + opt_line(
        "- **Website:** "@,
        vcf_single(c, k, "URL"@),
        "\n"@,
    ) + opt_line("\n> "@, vcf_single(c, k, "NOTE"@), "\n"@) + "\n"@;
    assert(m =~= a + el + (pl + rest));
    assert(m =~= (a + el) + pl + rest);
    assert forall|i: int| 0 <= i < emails.len() implies stands_in(m, "- **Email:** "@ + #[trigger] emails[i] + "\n"@) by {
        lemma_each_line_holds("- **Email:** "@, emails, i);
        lemma_stands_in_grows(a, el, pl + rest, "- **Email:** "@ + emails[i] + "\n"@);
    }
    assert forall|i: int| 0 <= i < phones.len() implies stands_in(m, "- **Phone:** "@ + #[trigger] phones[i] + "\n"@) by {
        lemma_each_line_holds("- **Phone:** "@, phones, i);
        lemma_stands_in_grows(a + el, pl, rest, "- **Phone:** "@ + phones[i] + "\n"@);
    }
    match vcf_single(c, k, "URL"@) {
        Some(u) => {
            let w = "- **Website:** "@ + u + "\n"@;
            let p = a + el + pl + crate::vcard::address_md(vcf_single(c, k, "ADR"@));
            let q = opt_line("\n> "@, vcf_single(c, k, "NOTE"@), "\n"@) + "\n"@;
            assert(m =~= p + w + q);
        },
        None => {},
    }
    match vcf_single(c, k, "NOTE"@) {
        Some(t) => {
            let w = "\n> "@ + t + "\n"@;
            let p = a + el + pl + crate::vcard::address_md(vcf_single(c, k, "ADR"@)) + opt_line(
                "- **Website:** "@,
                vcf_single(c, k, "URL"@),
                "\n"@,
            );
            assert(m =~= p + w + "\n"@);
        },
        None => {},
    }
}

/// An event section opens with its heading and, where the event has a
/// summary `s`, the line `**s**`; where it has a location `l`, the line
/// `- **Location:** l` stands in it.
pub proof fn event_opens_with_summary(ev: EventView)
    ensures
        ev.summary matches Some(s) ==> exists|q: Seq<char>| event_md(ev) == "## \u{1F4C5} Event\n\n"@ + "**"@ + s + "**\n\n"@ + q,
        ev.location matches Some(l) ==> stands_in(event_md(ev), "- **Location:** "@ + l + "\n"@),
{
    let m = event_md(ev);
    match ev.summary {
        Some(s) => {
            let h = "## \u{1F4C5} Event\n\n"@ + "**"@ + s + "**\n\n"@;
            let q = m.skip(h.len() as int);
            assert(m =~= h + q);
        },
        None => {},
    }
    match ev.location {
        Some(l) => {
            let w = "- **Location:** "@ + l + "\n"@;
            let p = "## \u{1F4C5} Event\n\n"@ + opt_line("**"@, ev.summary, "**\n\n"@) + opt_line(
                "- **Start:** "@,
                ev.start,
                "\n"@,
            ) + opt_line("- **End:** "@, ev.end, "\n"@);
            let q = opt_line("\n"@, ev.description, "\n"@) + "\n"@;
            assert(m =~= p + w + q);
        },
        None => {},
    }
}

/// A task section opens with its heading and, where the task has a summary
/// `s`, the line `**s**`; where it has a due date `d`, the line
/// `- **Due:** d` follows.
pub proof fn task_shows_summary_and_due(t: TodoView, s: Seq<char>, d: Seq<char>)
    requires
        t.summary == Some(s),
        t.due == Some(d),
    ensures
        exists|q: Seq<char>| todo_md(t) == "## \u{2611}\u{FE0F} Task\n\n"@ + "**"@ + s + "**\n\n"@ + "- **Due:** "@ + d + "\n"@ + q,
{
    let m = todo_md(t);
    let h = "## \u{2611}\u{FE0F} Task\n\n"@ + "**"@ + s + "**\n\n"@ + "- **Due:** "@ + d + "\n"@;
    let q = m.skip(h.len() as int);
    assert(m =~= h + q);
}

/// The Markdown of a message holds the From line of its senders, the To
/// line of its recipients and the CC line of its copies, each under its own
/// label, and the subject under `**Subject:**`.
#[verifier::rlimit(40)]
pub proof fn message_lines_under_their_labels(
    from: Option<Seq<MailAddressView>>,
    to: Option<Seq<MailAddressView>>,
    cc: Option<Seq<MailAddressView>>,
    subject: Option<Seq<char>>,
    date: Option<Seq<char>>,
    body: Option<Seq<char>>,
    attachments: Seq<MailAttachmentView>,
)
    ensures
        stands_in(fields_md(from, to, cc, subject, date, body, attachments), addresses_md("From"@, from)),
        stands_in(fields_md(from, to, cc, subject, date, body, attachments), addresses_md("To"@, to)),
        stands_in(fields_md(from, to, cc, subject, date, body, attachments), addresses_md("CC"@, cc)),
        subject matches Some(x) ==> stands_in(
            fields_md(from, to, cc, subject, date, body, attachments),
            "**Subject:** "@ + x + "\n\n"@,
        ),
{
    let m = fields_md(from, to, cc, subject, date, body, attachments);
    let h = "# Email\n\n"@;
    let f = addresses_md("From"@, from);
    let t = addresses_md("To"@, to);
    let c = addresses_md("CC"@, cc);
    let sj = crate::email::field_md("Subject"@, subject);
    let rest = crate::email::field_md("Date"@, date) + "---\n\n"@ + match body {
        Some(b) => b + "\n\n"@,
        None => Seq::<char>::empty(),
    } + if attachments.len() > 0 {
        "---\n\n## Attachments\n\n"@ + crate::email::attachments_md(attachments)
    } else {
        Seq::<char>::empty()
    };
    assert(m == h + f + t + c + sj + rest);
    lemma_stands(m, h, f, t + c + sj + rest);
    lemma_stands(m, h + f, t, c + sj + rest);
    lemma_stands(m, h + f + t, c, sj + rest);
    match subject {
        Some(x) => {
            assert(sj =~= "**Subject:** "@ + x + "\n\n"@) by {
                reveal_strlit("Subject");
                reveal_strlit("**");
                reveal_strlit(":** ");
                reveal_strlit("**Subject:** ");
            }
            lemma_stands(m, h + f + t + c, "**Subject:** "@ + x + "\n\n"@, rest);
        },
        None => {},
    }
}

} // verus!
