//! Log files to Markdown: counts of error, warning and info lines, the
//! first error and warning lines, and the whole log.
use vstd::prelude::*;
use crate::chars::{from_utf8_lossy, utf8_lossy};
use crate::model::{ext_views, is_markdown_doc, markdown_document, Document, DocumentConverter};
use crate::pattern::{is_match, regex_is_match};
use crate::text::{
    decimal, extend_chars, extend_str, lemma_chars_deep_view, lines_of, push_decimal, split_lines, sub_vec,
};

verus! {

/// Log file converter.
pub struct LogConverter;

/// Lines that mark an error.
pub open spec fn error_pattern() -> Seq<char> {
    "(?i)\\b(error|fatal|critical|exception|panic|fail(ed)?)\\b"@
}

/// Lines that mark a warning.
pub open spec fn warning_pattern() -> Seq<char> {
    "(?i)\\b(warn(ing)?|caution)\\b"@
}

/// Lines that mark information.
pub open spec fn info_pattern() -> Seq<char> {
    "(?i)\\b(info|notice|debug|trace)\\b"@
}

/// At most this many error and warning lines are listed.
pub const MAX_LISTED: usize = 50;

/// The analysis of a log: the number of lines, of error, warning and info
/// lines, and the first error and warning lines with their numbers.
pub struct LogAnalysis {
    pub total_lines: usize,
    pub error_count: usize,
    pub warning_count: usize,
    pub info_count: usize,
    pub errors: Vec<(usize, Vec<char>)>,
    pub warnings: Vec<(usize, Vec<char>)>,
}

/// The mathematical content of a [`LogAnalysis`].
pub struct LogView {
    pub total: nat,
    pub errors: nat,
    pub warnings: nat,
    pub infos: nat,
    pub error_lines: Seq<(nat, Seq<char>)>,
    pub warning_lines: Seq<(nat, Seq<char>)>,
}

impl View for LogAnalysis {
    type V = LogView;

    open spec fn view(&self) -> LogView {
        LogView {
            total: self.total_lines as nat,
            errors: self.error_count as nat,
            warnings: self.warning_count as nat,
            infos: self.info_count as nat,
            error_lines: self.errors@.map_values(|e: (usize, Vec<char>)| (e.0 as nat, e.1@)),
            warning_lines: self.warnings@.map_values(|e: (usize, Vec<char>)| (e.0 as nat, e.1@)),
        }
    }
}

/// The analysis of the lines: each line (numbered from 1) that matches the
/// error pattern counts as an error (listed while fewer than 50 are listed);
/// else one that matches the warning pattern as a warning (likewise); else
/// one that matches the info pattern as information.
pub open spec fn analysis_of(lines: Seq<Seq<char>>) -> LogView
    decreases lines.len(),
{
    if lines.len() == 0 {
        LogView { total: 0, errors: 0, warnings: 0, infos: 0, error_lines: seq![], warning_lines: seq![] }
    } else {
        let a = analysis_of(lines.drop_last());
        let line = lines.last();
        let n = lines.len();
        let a1 = LogView { total: a.total + 1, ..a };
        if regex_is_match(error_pattern(), line) {
            LogView {
                errors: a.errors + 1,
                error_lines: if a.error_lines.len() < 50 {
                    a.error_lines.push((n, line))
                } else {
                    a.error_lines
                },
                ..a1
            }
        } else if regex_is_match(warning_pattern(), line) {
            LogView {
                warnings: a.warnings + 1,
                warning_lines: if a.warning_lines.len() < 50 {
                    a.warning_lines.push((n, line))
                } else {
                    a.warning_lines
                },
                ..a1
            }
        } else if regex_is_match(info_pattern(), line) {
            LogView { infos: a.infos + 1, ..a1 }
        } else {
            a1
        }
    }
}

/// The listed lines, each with its number and in a code block.
pub open spec fn listed_md(lines: Seq<(nat, Seq<char>)>) -> Seq<char>
    decreases lines.len(),
{
    if lines.len() == 0 {
        seq![]
    } else {
        listed_md(lines.drop_last()) + "**Line "@ + decimal(lines.last().0) + ":**\n```\n"@ + lines.last().1
            + "\n```\n\n"@
    }
}

/// The Markdown of a log: the summary, the error and warning lines listed,
/// and the whole log in a code block.
pub open spec fn log_md(content: Seq<char>, a: LogView) -> Seq<char> {
    "# Log File Analysis\n\n"@ + "## Summary\n\n"@ + "- **Total lines:** "@ + decimal(a.total) + "\n"@
        + "- **Errors:** "@ + decimal(a.errors) + " \u{1F534}\n"@ + "- **Warnings:** "@ + decimal(a.warnings)
        + " \u{1F7E1}\n"@ + "- **Info:** "@ + decimal(a.infos) + " \u{1F535}\n"@ + "\n"@ + (if a.error_lines.len()
        > 0 {
        "## \u{1F534} Errors\n\n"@ + listed_md(a.error_lines)
    } else {
        seq![]
    }) + (if a.warning_lines.len() > 0 {
        "## \u{1F7E1} Warnings\n\n"@ + listed_md(a.warning_lines)
    } else {
        seq![]
    }) + "## Full Log\n\n"@ + "```log\n"@ + content + (if content.len() > 0 && content.last() == '\n' {
        seq![]
    } else {
        seq!['\n']
    }) + "```\n"@
}

/// The view of a list of numbered lines.
pub open spec fn numbered_view(v: Seq<(usize, Vec<char>)>) -> Seq<(nat, Seq<char>)> {
    v.map_values(|e: (usize, Vec<char>)| (e.0 as nat, e.1@))
}

impl LogConverter {
    /// Analyzes the lines of a log.
    pub fn analyze_log(content: &[char]) -> (r: LogAnalysis)
        ensures
            r@ == analysis_of(lines_of(content@)),
    {
        let lines = split_lines(content);
        let ghost lv = lines_of(content@);
        let mut a = LogAnalysis {
            total_lines: 0,
            error_count: 0,
            warning_count: 0,
            info_count: 0,
            errors: Vec::new(),
            warnings: Vec::new(),
        };
        assert(a@.error_lines =~= Seq::<(nat, Seq<char>)>::empty());
        assert(a@.warning_lines =~= Seq::<(nat, Seq<char>)>::empty());
        assert(a@ == analysis_of(lv.take(0)));
        let mut k: usize = 0;
        while k < lines.len()
            invariant
                k <= lines@.len(),
                lines.deep_view() == lv,
                a@ == analysis_of(lv.take(k as int)),
                a.total_lines == k,
                a.error_count <= k,
                a.warning_count <= k,
                a.info_count <= k,
            decreases lines@.len() - k,
        {
            assert(lv.take(k + 1).drop_last() =~= lv.take(k as int));
            proof {
                lemma_chars_deep_view(lines@[k as int]);
            }
            let line = lines[k].as_slice();
            let ghost a0 = a@;
            a.total_lines = a.total_lines + 1;
            if is_match("(?i)\\b(error|fatal|critical|exception|panic|fail(ed)?)\\b", line) {
                a.error_count = a.error_count + 1;
                if a.errors.len() < MAX_LISTED {
                    a.errors.push((k + 1, sub_vec(line, 0, line.len())));
                    assert(line@.subrange(0, line@.len() as int) =~= line@);
                    assert(a@.error_lines =~= a0.error_lines.push(((k + 1) as nat, line@)));
                }
            } else if is_match("(?i)\\b(warn(ing)?|caution)\\b", line) {
                a.warning_count = a.warning_count + 1;
                if a.warnings.len() < MAX_LISTED {
                    a.warnings.push((k + 1, sub_vec(line, 0, line.len())));
                    assert(line@.subrange(0, line@.len() as int) =~= line@);
                    assert(a@.warning_lines =~= a0.warning_lines.push(((k + 1) as nat, line@)));
                }
            } else if is_match("(?i)\\b(info|notice|debug|trace)\\b", line) {
                a.info_count = a.info_count + 1;
            }
            assert(a@ == analysis_of(lv.take(k + 1)));
            k += 1;
        }
        assert(lv.take(k as int) =~= lv);
        a
    }

    /// Converts log bytes (decoded as UTF-8, invalid sequences replaced) to
    /// a one-page document of the analysis and the log.
    pub fn convert_bytes(&self, bytes: &[u8]) -> (r: Document)
        ensures
            is_markdown_doc(r, log_md(utf8_lossy(bytes@), analysis_of(lines_of(utf8_lossy(bytes@))))),
    {
        let content = from_utf8_lossy(bytes);
        let a = Self::analyze_log(content.as_slice());
        let mut md: Vec<char> = Vec::new();
        extend_str(&mut md, "# Log File Analysis\n\n");
        extend_str(&mut md, "## Summary\n\n");
        extend_str(&mut md, "- **Total lines:** ");
        push_decimal(&mut md, a.total_lines);
        extend_str(&mut md, "\n");
        extend_str(&mut md, "- **Errors:** ");
        push_decimal(&mut md, a.error_count);
        extend_str(&mut md, " \u{1F534}\n");
        extend_str(&mut md, "- **Warnings:** ");
        push_decimal(&mut md, a.warning_count);
        extend_str(&mut md, " \u{1F7E1}\n");
        extend_str(&mut md, "- **Info:** ");
        push_decimal(&mut md, a.info_count);
        extend_str(&mut md, " \u{1F535}\n");
        extend_str(&mut md, "\n");
        if a.errors.len() > 0 {
            extend_str(&mut md, "## \u{1F534} Errors\n\n");
            push_listed(&mut md, &a.errors);
        }
        if a.warnings.len() > 0 {
            extend_str(&mut md, "## \u{1F7E1} Warnings\n\n");
            push_listed(&mut md, &a.warnings);
        }
        extend_str(&mut md, "## Full Log\n\n");
        extend_str(&mut md, "```log\n");
        extend_chars(&mut md, content.as_slice());
        if !(content.len() > 0 && content[content.len() - 1] == '\n') {
            md.push('\n');
        }
        extend_str(&mut md, "```\n");
        assert(md@ =~= log_md(content@, a@));
        markdown_document(md)
    }
}

/// Appends the listed lines.
fn push_listed(md: &mut Vec<char>, lines: &Vec<(usize, Vec<char>)>)
    ensures
        final(md)@ == old(md)@ + listed_md(numbered_view(lines@)),
{
    let ghost m0 = md@;
    let ghost lv = numbered_view(lines@);
    let mut k: usize = 0;
    while k < lines.len()
        invariant
            k <= lines@.len(),
            lv == numbered_view(lines@),
            md@ == m0 + listed_md(lv.take(k as int)),
        decreases lines@.len() - k,
    {
        assert(lv.take(k + 1).drop_last() =~= lv.take(k as int));
        extend_str(md, "**Line ");
        push_decimal(md, lines[k].0);
        extend_str(md, ":**\n```\n");
        extend_chars(md, lines[k].1.as_slice());
        extend_str(md, "\n```\n\n");
        assert(md@ =~= m0 + listed_md(lv.take(k + 1)));
        k += 1;
    }
    assert(lv.take(k as int) =~= lv);
}

impl DocumentConverter for LogConverter {
    open spec fn extensions(&self) -> Seq<Seq<char>> {
        seq![".log"@]
    }

    fn supported_extensions(&self) -> (r: Vec<&'static str>) {
        let r = vec![".log"];
        assert(ext_views(r@) =~= self.extensions());
        r
    }
}

} // verus!
