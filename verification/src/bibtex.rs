//! BibTeX bibliographies to Markdown: each `@type{key, fields}` entry as
//! a section with its title, authors, publication details and abstract.
use vstd::prelude::*;
use crate::chars::{
    from_utf8_lossy, is_alnum, is_alphanumeric, to_lowercase, to_string, to_uppercase, unicode_lowercase,
    unicode_uppercase, utf8_lossy,
};
use crate::model::{ext_views, is_markdown_doc, markdown_document, Document, DocumentConverter};
use crate::pattern::{all_captures, regex_all_captures};
use crate::text::{
    chars_eq_str, decimal, extend_chars, extend_str, is_whitespace, is_ws, push_decimal, sub_vec, trim, trim_chars,
};

verus! {

/// BibTeX converter.
pub struct BibtexConverter;

/// A bibliography entry: its type (lowercased), citation key and fields in
/// the order read.
pub struct BibEntry {
    pub entry_type: String,
    pub cite_key: String,
    pub fields: Vec<(String, String)>,
}

/// The mathematical content of a [`BibEntry`].
pub struct EntryView {
    pub entry_type: Seq<char>,
    pub cite_key: Seq<char>,
    pub fields: Seq<(Seq<char>, Seq<char>)>,
}

impl View for BibEntry {
    type V = EntryView;

    open spec fn view(&self) -> EntryView {
        EntryView {
            entry_type: self.entry_type@,
            cite_key: self.cite_key@,
            fields: self.fields@.map_values(|f: (String, String)| (f.0@, f.1@)),
        }
    }
}

/// The views of entries.
pub open spec fn entries_view(v: Seq<BibEntry>) -> Seq<EntryView> {
    v.map_values(|e: BibEntry| e@)
}

/// The expression of a field: a name, `=`, and a value in braces (with one
/// level of nested braces), in quotes, or as digits.
pub open spec fn field_pattern() -> Seq<char> {
    "(\\w+)\\s*=\\s*(?:\\{([^{}]*(?:\\{[^{}]*\\}[^{}]*)*)\\}|\"([^\"]*)\"|(\\d+))"@
}

// ---------------------------------------------------------------------
// Scanning
// ---------------------------------------------------------------------

/// A character of an entry type.
pub open spec fn type_char(c: char) -> bool {
    is_alnum(c) || c == '_'
}

/// The first position from `i` whose character is not an entry type
/// character.
pub open spec fn skip_type(s: Seq<char>, i: int) -> int
    decreases s.len() - i,
{
    if i < 0 || i >= s.len() || !type_char(s[i]) {
        i
    } else {
        skip_type(s, i + 1)
    }
}

/// The first position from `i` whose character is not whitespace.
pub open spec fn skip_space(s: Seq<char>, i: int) -> int
    decreases s.len() - i,
{
    if i < 0 || i >= s.len() || !is_ws(s[i]) {
        i
    } else {
        skip_space(s, i + 1)
    }
}

/// The first position from `i` whose character is a comma or whitespace.
pub open spec fn skip_key(s: Seq<char>, i: int) -> int
    decreases s.len() - i,
{
    if i < 0 || i >= s.len() || s[i] == ',' || is_ws(s[i]) {
        i
    } else {
        skip_key(s, i + 1)
    }
}

/// The position of the `}` that brings the brace count (`depth` so far)
/// to zero, reading from `i`, if there is one.
pub open spec fn closing_brace(s: Seq<char>, i: int, depth: int) -> Option<int>
    decreases s.len() - i,
{
    if i < 0 || i >= s.len() {
        None
    } else if s[i] == '{' {
        closing_brace(s, i + 1, depth + 1)
    } else if s[i] == '}' {
        if depth - 1 == 0 {
            Some(i)
        } else {
            closing_brace(s, i + 1, depth - 1)
        }
    } else {
        closing_brace(s, i + 1, depth)
    }
}

/// The value of a field match: the braced, quoted or numeric group.
pub open spec fn field_value(groups: Seq<Option<Seq<char>>>) -> Seq<char> {
    if groups.len() > 1 && groups[1] is Some {
        groups[1]->0
    } else if groups.len() > 2 && groups[2] is Some {
        groups[2]->0
    } else if groups.len() > 3 && groups[3] is Some {
        groups[3]->0
    } else {
        seq![]
    }
}

/// The name of a field match, lowercased.
pub open spec fn field_name(groups: Seq<Option<Seq<char>>>) -> Seq<char> {
    unicode_lowercase(
        if groups.len() > 0 && groups[0] is Some {
            groups[0]->0
        } else {
            seq![]
        },
    )
}

/// The fields of the text between an entry's key and its closing brace.
pub open spec fn fields_of(text: Seq<char>) -> Seq<(Seq<char>, Seq<char>)> {
    regex_all_captures(field_pattern(), text).map_values(
        |g: Seq<Option<Seq<char>>>| (field_name(g), field_value(g)),
    )
}

/// The entries read from position `i` on: at each `@` an entry type, a
/// `{`, a citation key and the text up to the matching `}`; an entry with a
/// type and a key is kept.
pub open spec fn bib_from(s: Seq<char>, i: int, entries: Seq<EntryView>) -> Seq<EntryView>
    decreases s.len() - i,
{
    if i < 0 || i >= s.len() {
        entries
    } else if s[i] != '@' {
        bib_from(s, i + 1, entries)
    } else {
        let te = skip_type(s, i + 1);
        let k = skip_space(s, te);
        if k >= s.len() || s[k] != '{' {
            proof {
                lemma_skips(s, i + 1);
            }
            bib_from(s, k, entries)
        } else {
            let ks = skip_space(s, k + 1);
            let ke = skip_key(s, ks);
            let etype = s.subrange(i + 1, te);
            let key = s.subrange(ks, ke);
            let (fields_end, next) = match closing_brace(s, ke, 1) {
                Some(c) => (c, c + 1),
                None => (ke, s.len() as int),
            };
            let e2 = if etype.len() > 0 && key.len() > 0 {
                entries.push(
                    EntryView {
                        entry_type: unicode_lowercase(etype),
                        cite_key: key,
                        fields: fields_of(s.subrange(ke, fields_end)),
                    },
                )
            } else {
                entries
            };
            proof {
                lemma_skips(s, i + 1);
                lemma_closing(s, ke, 1);
            }
            bib_from(s, next, e2)
        }
    }
}

/// The entries of a BibTeX text.
pub open spec fn bib_entries(s: Seq<char>) -> Seq<EntryView> {
    bib_from(s, 0, seq![])
}

/// The skips move forward and stay within the text.
pub proof fn lemma_skips(s: Seq<char>, i: int)
    requires
        0 <= i <= s.len(),
    ensures
        i <= skip_type(s, i) <= s.len(),
        skip_type(s, i) <= skip_space(s, skip_type(s, i)) <= s.len(),
        forall|j: int| 0 <= j <= s.len() ==> j <= #[trigger] skip_space(s, j) <= s.len(),
        forall|j: int| 0 <= j <= s.len() ==> j <= #[trigger] skip_key(s, j) <= s.len(),
{
    lemma_skip_type(s, i);
    assert forall|j: int| 0 <= j <= s.len() implies j <= #[trigger] skip_space(s, j) <= s.len() by {
        lemma_skip_space(s, j);
    }
    assert forall|j: int| 0 <= j <= s.len() implies j <= #[trigger] skip_key(s, j) <= s.len() by {
        lemma_skip_key(s, j);
    }
}

proof fn lemma_skip_type(s: Seq<char>, i: int)
    requires
        0 <= i <= s.len(),
    ensures
        i <= skip_type(s, i) <= s.len(),
    decreases s.len() - i,
{
    if i < s.len() && type_char(s[i]) {
        lemma_skip_type(s, i + 1);
    }
}

proof fn lemma_skip_space(s: Seq<char>, i: int)
    requires
        0 <= i <= s.len(),
    ensures
        i <= skip_space(s, i) <= s.len(),
    decreases s.len() - i,
{
    if i < s.len() && is_ws(s[i]) {
        lemma_skip_space(s, i + 1);
    }
}

proof fn lemma_skip_key(s: Seq<char>, i: int)
    requires
        0 <= i <= s.len(),
    ensures
        i <= skip_key(s, i) <= s.len(),
    decreases s.len() - i,
{
    if i < s.len() && !(s[i] == ',' || is_ws(s[i])) {
        lemma_skip_key(s, i + 1);
    }
}

/// A closing brace found lies within the text, from the start on.
pub proof fn lemma_closing(s: Seq<char>, i: int, depth: int)
    requires
        0 <= i,
    ensures
        match closing_brace(s, i, depth) {
            Some(c) => i <= c < s.len(),
            None => true,
        },
    decreases s.len() - i,
{
    if i < s.len() {
        if s[i] == '{' {
            lemma_closing(s, i + 1, depth + 1);
        } else if s[i] == '}' {
            if depth - 1 != 0 {
                lemma_closing(s, i + 1, depth - 1);
            }
        } else {
            lemma_closing(s, i + 1, depth);
        }
    }
}

fn skip_type_exec(s: &[char], i: usize) -> (r: usize)
    requires
        i <= s@.len(),
    ensures
        r == skip_type(s@, i as int),
{
    let mut j = i;
    while j < s.len() && (is_alphanumeric(s[j]) || s[j] == '_')
        invariant
            i <= j <= s@.len(),
            skip_type(s@, i as int) == skip_type(s@, j as int),
        decreases s@.len() - j,
    {
        j += 1;
    }
    j
}

fn skip_space_exec(s: &[char], i: usize) -> (r: usize)
    requires
        i <= s@.len(),
    ensures
        r == skip_space(s@, i as int),
{
    let mut j = i;
    while j < s.len() && is_whitespace(s[j])
        invariant
            i <= j <= s@.len(),
            skip_space(s@, i as int) == skip_space(s@, j as int),
        decreases s@.len() - j,
    {
        j += 1;
    }
    j
}

fn skip_key_exec(s: &[char], i: usize) -> (r: usize)
    requires
        i <= s@.len(),
    ensures
        r == skip_key(s@, i as int),
{
    let mut j = i;
    while j < s.len() && !(s[j] == ',' || is_whitespace(s[j]))
        invariant
            i <= j <= s@.len(),
            skip_key(s@, i as int) == skip_key(s@, j as int),
        decreases s@.len() - j,
    {
        j += 1;
    }
    j
}

fn closing_brace_exec(s: &[char], i: usize) -> (r: Option<usize>)
    requires
        i <= s@.len(),
    ensures
        match r {
            Some(c) => closing_brace(s@, i as int, 1) == Some(c as int),
            None => closing_brace(s@, i as int, 1) is None,
        },
{
    let n = s.len();
    let mut depth: u128 = 1;
    let mut j = i;
    while j < n
        invariant
            n == s@.len(),
            i <= j <= s@.len(),
            1 <= depth <= j - i + 1,
            closing_brace(s@, i as int, 1) == closing_brace(s@, j as int, depth as int),
        decreases s@.len() - j,
    {
        if s[j] == '{' {
            depth = depth + 1;
        } else if s[j] == '}' {
            if depth == 1 {
                return Some(j);
            }
            depth = depth - 1;
        }
        j += 1;
    }
    None
}

/// The fields that the matches of the field pattern give: each match's
/// name, lowercased, and its value (see [`field_name`], [`field_value`]).
pub fn fields_from_captures(caps: &Vec<Vec<Option<Vec<char>>>>) -> (r: Vec<(String, String)>)
    ensures
        r@.map_values(|f: (String, String)| (f.0@, f.1@)) == caps.deep_view().map_values(
            |g: Seq<Option<Seq<char>>>| (field_name(g), field_value(g)),
        ),
{
    let ghost cv = caps.deep_view();
    let mut out: Vec<(String, String)> = Vec::new();
    let mut k: usize = 0;
    while k < caps.len()
        invariant
            k <= caps@.len(),
            cv == caps.deep_view(),
            out@.len() == k,
            forall|j: int| 0 <= j < k ==> (#[trigger] out@[j]).0@ == field_name(cv[j]) && out@[j].1@ == field_value(cv[j]),
        decreases caps@.len() - k,
    {
        let g = &caps[k];
        let ghost gv = cv[k as int];
        assert(gv =~= g.deep_view());
        let name: Vec<char> = if g.len() > 0 {
            match &g[0] {
                Some(x) => sub_vec(x.as_slice(), 0, x.len()),
                None => Vec::new(),
            }
        } else {
            Vec::new()
        };
        proof {
            if g@.len() > 0 && g@[0] is Some {
                assert(name@ =~= gv[0]->0);
            } else {
                assert(name@ =~= Seq::<char>::empty());
            }
        }
        let value: Vec<char> = if g.len() > 1 && g[1].is_some() {
            match &g[1] {
                Some(x) => sub_vec(x.as_slice(), 0, x.len()),
                None => Vec::new(),
            }
        } else if g.len() > 2 && g[2].is_some() {
            match &g[2] {
                Some(x) => sub_vec(x.as_slice(), 0, x.len()),
                None => Vec::new(),
            }
        } else if g.len() > 3 && g[3].is_some() {
            match &g[3] {
                Some(x) => sub_vec(x.as_slice(), 0, x.len()),
                None => Vec::new(),
            }
        } else {
            Vec::new()
        };
        proof {
            if g@.len() > 1 && g@[1] is Some {
                assert(value@ =~= gv[1]->0);
            } else if g@.len() > 2 && g@[2] is Some {
                assert(value@ =~= gv[2]->0);
            } else if g@.len() > 3 && g@[3] is Some {
                assert(value@ =~= gv[3]->0);
            } else {
                assert(value@ =~= Seq::<char>::empty());
            }
        }
        let lower = to_lowercase(name.as_slice());
        out.push((to_string(lower.as_slice()), to_string(value.as_slice())));
        k += 1;
    }
    assert(out@.map_values(|f: (String, String)| (f.0@, f.1@)) =~= cv.map_values(
        |g: Seq<Option<Seq<char>>>| (field_name(g), field_value(g)),
    ));
    out
}

/// The fields of the text between an entry's key and its closing brace.
fn parse_fields(text: &[char]) -> (r: Vec<(String, String)>)
    ensures
        r@.map_values(|f: (String, String)| (f.0@, f.1@)) == fields_of(text@),
{
    let caps = all_captures(
        "(\\w+)\\s*=\\s*(?:\\{([^{}]*(?:\\{[^{}]*\\}[^{}]*)*)\\}|\"([^\"]*)\"|(\\d+))",
        text,
    );
    fields_from_captures(&caps)
}

impl BibtexConverter {
    /// The entries of a BibTeX text.
    pub fn parse_bibtex(content: &[char]) -> (r: Vec<BibEntry>)
        ensures
            entries_view(r@) == bib_entries(content@),
    {
        let s = content;
        let n = s.len();
        let mut entries: Vec<BibEntry> = Vec::new();
        assert(entries_view(entries@) =~= Seq::<EntryView>::empty());
        let mut i: usize = 0;
        while i < n
            invariant
                n == s@.len(),
                i <= n,
                bib_entries(s@) == bib_from(s@, i as int, entries_view(entries@)),
            decreases n - i,
        {
            if s[i] != '@' {
                i += 1;
            } else {
                proof {
                    lemma_skips(s@, i + 1);
                }
                let te = skip_type_exec(s, i + 1);
                let k = skip_space_exec(s, te);
                if k >= n || s[k] != '{' {
                    i = k;
                } else {
                    let ks = skip_space_exec(s, k + 1);
                    let ke = skip_key_exec(s, ks);
                    proof {
                        lemma_closing(s@, ke as int, 1);
                    }
                    let (fields_end, next) = match closing_brace_exec(s, ke) {
                        Some(c) => (c, c + 1),
                        None => (ke, n),
                    };
                    if te > i + 1 && ke > ks {
                        let etype = sub_vec(s, i + 1, te);
                        let key = sub_vec(s, ks, ke);
                        let ftext = sub_vec(s, ke, fields_end);
                        let fields = parse_fields(ftext.as_slice());
                        let lower = to_lowercase(etype.as_slice());
                        let e = BibEntry {
                            entry_type: to_string(lower.as_slice()),
                            cite_key: to_string(key.as_slice()),
                            fields,
                        };
                        let ghost before = entries_view(entries@);
                        entries.push(e);
                        assert(entries_view(entries@) =~= before.push(e@));
                    }
                    i = next;
                }
            }
        }
        entries
    }
}

// ---------------------------------------------------------------------
// Formatting
// ---------------------------------------------------------------------

/// The text with every occurrence of `p` (left to right, not
/// overlapping) replaced by `t` (`str::replace`), for a non-empty `p`.
pub open spec fn replace_seq(s: Seq<char>, p: Seq<char>, t: Seq<char>) -> Seq<char>
    decreases s.len(),
{
    if p.len() == 0 || s.len() < p.len() {
        s
    } else if s.take(p.len() as int) == p {
        t + replace_seq(s.skip(p.len() as int), p, t)
    } else {
        seq![s[0]] + replace_seq(s.drop_first(), p, t)
    }
}

/// The text without braces.
pub open spec fn strip_braces(s: Seq<char>) -> Seq<char>
    decreases s.len(),
{
    if s.len() == 0 {
        seq![]
    } else {
        strip_braces(s.drop_last()) + (if s.last() != '{' && s.last() != '}' {
            seq![s.last()]
        } else {
            seq![]
        })
    }
}

/// A value with LaTeX markup removed: braces, escapes of `&` and `%`, the
/// commands `\textit`, `\textbf`, `\emph` and `\url`, double spaces made
/// single; then trimmed.
pub open spec fn clean_latex_spec(s: Seq<char>) -> Seq<char> {
    let a = strip_braces(s);
    let b = replace_seq(a, "\\&"@, "&"@);
    let c = replace_seq(b, "\\%"@, "%"@);
    let d = replace_seq(c, "\\textit"@, seq![]);
    let e = replace_seq(d, "\\textbf"@, seq![]);
    let f = replace_seq(e, "\\emph"@, seq![]);
    let g = replace_seq(f, "\\url"@, seq![]);
    trim(replace_seq(g, "  "@, " "@))
}

/// `str::replace` for a non-empty pattern.
pub(crate) fn replace_chars(s: &[char], p: &str, t: &str) -> (r: Vec<char>)
    ensures
        r@ == replace_seq(s@, p@, t@),
{
    let pc = crate::text::chars_of(p);
    let tc = crate::text::chars_of(t);
    let n = s.len();
    let mut out: Vec<char> = Vec::new();
    let mut i: usize = 0;
    assert(s@.skip(0) =~= s@);
    while i < n
        invariant
            n == s@.len(),
            i <= s@.len(),
            pc@ == p@,
            tc@ == t@,
            replace_seq(s@, p@, t@) == out@ + replace_seq(s@.skip(i as int), p@, t@),
        decreases s@.len() - i,
    {
        let ghost rest = s@.skip(i as int);
        if pc.len() == 0 || s.len() - i < pc.len() {
            assert(replace_seq(rest, p@, t@) == rest);
            let tail = sub_vec(s, i, s.len());
            assert(tail@ =~= rest);
            extend_chars(&mut out, tail.as_slice());
            assert(s@.skip(s@.len() as int) =~= Seq::<char>::empty());
            i = s.len();
        } else {
            let mut m = true;
            let mut k: usize = 0;
            while k < pc.len()
                invariant
                    n == s@.len(),
                    k <= pc@.len(),
                    i + pc@.len() <= s@.len(),
                    m == (forall|j: int| 0 <= j < k ==> s@[i + j] == pc@[j]),
                decreases pc@.len() - k,
            {
                if s[i + k] != pc[k] {
                    m = false;
                }
                k += 1;
            }
            if m {
                assert(rest.take(p@.len() as int) =~= p@);
                extend_chars(&mut out, tc.as_slice());
                assert(rest.skip(p@.len() as int) =~= s@.skip(i + pc@.len()));
                i = i + pc.len();
            } else {
                assert(rest.take(p@.len() as int) != p@) by {
                    let j = choose|j: int| 0 <= j < k && s@[i + j] != pc@[j];
                    assert(rest.take(p@.len() as int)[j] != p@[j]);
                }
                let ghost o = out@;
                out.push(s[i]);
                assert(rest.drop_first() =~= s@.skip(i + 1));
                assert(o + (seq![s@[i as int]] + replace_seq(rest.drop_first(), p@, t@)) =~= out@ + replace_seq(
                    s@.skip(i + 1),
                    p@,
                    t@,
                ));
                i = i + 1;
            }
        }
    }
    assert(s@.skip(i as int) =~= Seq::<char>::empty());
    assert(out@ =~= replace_seq(s@, p@, t@));
    out
}

/// The first character uppercased, the rest unchanged.
pub open spec fn capitalize_spec(s: Seq<char>) -> Seq<char> {
    if s.len() == 0 {
        seq![]
    } else {
        unicode_uppercase(s[0]) + s.drop_first()
    }
}

/// The value of the last field with the name (a later field replaces an
/// earlier one).
pub open spec fn field_get(fields: Seq<(Seq<char>, Seq<char>)>, name: Seq<char>) -> Option<Seq<char>>
    decreases fields.len(),
{
    if fields.len() == 0 {
        None
    } else if fields.last().0 == name {
        Some(fields.last().1)
    } else {
        field_get(fields.drop_last(), name)
    }
}

/// The icon of an entry type.
pub open spec fn type_icon(t: Seq<char>) -> Seq<char> {
    if t == "article"@ {
        "\u{1F4C4}"@
    } else if t == "book"@ || t == "inbook"@ {
        "\u{1F4DA}"@
    } else if t == "conference"@ || t == "inproceedings"@ {
        "\u{1F3A4}"@
    } else if t == "phdthesis"@ || t == "mastersthesis"@ {
        "\u{1F393}"@
    } else if t == "techreport"@ {
        "\u{1F4CB}"@
    } else if t == "misc"@ || t == "online"@ {
        "\u{1F517}"@
    } else {
        "\u{1F4DD}"@
    }
}

/// A line with the label and the value (cleaned up when `clean`), if the
/// field is present.
pub open spec fn info_item(fields: Seq<(Seq<char>, Seq<char>)>, name: Seq<char>, label: Seq<char>, clean: bool) -> Seq<
    Seq<char>,
> {
    match field_get(fields, name) {
        Some(v) => seq![label + (if clean {
            clean_latex_spec(v)
        } else {
            v
        })],
        None => seq![],
    }
}

/// The publication details of an entry, in order.
pub open spec fn pub_info(f: Seq<(Seq<char>, Seq<char>)>) -> Seq<Seq<char>> {
    info_item(f, "journal"@, "**Journal:** "@, true) + info_item(f, "booktitle"@, "**In:** "@, true)
        + info_item(f, "publisher"@, "**Publisher:** "@, true) + info_item(f, "year"@, "**Year:** "@, false)
        + info_item(f, "volume"@, "**Volume:** "@, false) + info_item(f, "pages"@, "**Pages:** "@, false)
        + (match field_get(f, "doi"@) {
        Some(d) => seq!["**DOI:** ["@ + d + "](https://doi.org/"@ + d + ")"@],
        None => seq![],
    }) + (match field_get(f, "url"@) {
        Some(u) => seq!["**URL:** <"@ + u + ">"@],
        None => seq![],
    })
}

/// The details as list items followed by a blank line, when there are any.
pub open spec fn info_md(items: Seq<Seq<char>>) -> Seq<char>
    decreases items.len(),
{
    if items.len() == 0 {
        seq![]
    } else {
        info_md(items.drop_last()) + "- "@ + items.last() + "\n"@
    }
}

/// The heading of an entry: icon, capitalized type and citation key.
pub open spec fn entry_head(e: EntryView) -> Seq<char> {
    "## "@ + type_icon(e.entry_type) + " "@ + capitalize_spec(e.entry_type) + " `"@ + e.cite_key + "`\n\n"@
}

/// A field, cleaned up, between `head` and `tail`, if it is present.
pub open spec fn field_line(f: Seq<(Seq<char>, Seq<char>)>, name: Seq<char>, head: Seq<char>, tail: Seq<char>) -> Seq<
    char,
> {
    match field_get(f, name) {
        Some(t) => head + clean_latex_spec(t) + tail,
        None => seq![],
    }
}

/// The publication details, if any.
pub open spec fn info_block(f: Seq<(Seq<char>, Seq<char>)>) -> Seq<char> {
    if pub_info(f).len() > 0 {
        info_md(pub_info(f)) + "\n"@
    } else {
        seq![]
    }
}

/// The Markdown of an entry: heading, title in bold, authors in italics,
/// publication details, the abstract as a quote, and a rule.
pub open spec fn entry_md(e: EntryView) -> Seq<char> {
    let f = e.fields;
    entry_head(e) + field_line(f, "title"@, "**"@, "**\n\n"@) + field_line(f, "author"@, "*"@, "*\n\n"@)
        + info_block(f) + field_line(f, "abstract"@, "> "@, "\n\n"@) + "---\n\n"@
}

/// The Markdown of the entries.
pub open spec fn entries_md(entries: Seq<EntryView>) -> Seq<char>
    decreases entries.len(),
{
    if entries.len() == 0 {
        seq![]
    } else {
        entries_md(entries.drop_last()) + entry_md(entries.last())
    }
}

/// The Markdown of a bibliography: a heading, the number of entries and
/// each entry.
pub open spec fn bibliography_md(entries: Seq<EntryView>) -> Seq<char> {
    "# Bibliography\n\n"@ + "*"@ + decimal(entries.len()) + " entries*\n\n"@ + entries_md(entries)
}

/// The value of the last field with the name.
fn get_field(fields: &Vec<(String, String)>, name: &str) -> (r: Option<Vec<char>>)
    ensures
        match r {
            Some(v) => field_get(fields@.map_values(|f: (String, String)| (f.0@, f.1@)), name@) == Some(v@),
            None => field_get(fields@.map_values(|f: (String, String)| (f.0@, f.1@)), name@) is None,
        },
{
    let ghost fv = fields@.map_values(|f: (String, String)| (f.0@, f.1@));
    let mut k: usize = fields.len();
    assert(fv.take(k as int) =~= fv);
    while k > 0
        invariant
            k <= fields@.len(),
            fv == fields@.map_values(|f: (String, String)| (f.0@, f.1@)),
            field_get(fv, name@) == field_get(fv.take(k as int), name@),
        decreases k,
    {
        let ghost t = fv.take(k as int);
        assert(t.last() == (fields@[k - 1].0@, fields@[k - 1].1@));
        let c = crate::text::chars_of(fields[k - 1].0.as_str());
        if chars_eq_str(c.as_slice(), name) {
            return Some(crate::text::chars_of(fields[k - 1].1.as_str()));
        }
        assert(t.drop_last() =~= fv.take(k - 1));
        k -= 1;
    }
    None
}

/// The value with LaTeX markup removed.
fn clean_latex(s: &[char]) -> (r: Vec<char>)
    ensures
        r@ == clean_latex_spec(s@),
{
    let mut a: Vec<char> = Vec::new();
    let mut i: usize = 0;
    while i < s.len()
        invariant
            i <= s@.len(),
            a@ == strip_braces(s@.take(i as int)),
        decreases s@.len() - i,
    {
        assert(s@.take(i + 1).drop_last() =~= s@.take(i as int));
        if s[i] != '{' && s[i] != '}' {
            a.push(s[i]);
        }
        assert(a@ =~= strip_braces(s@.take(i + 1)));
        i += 1;
    }
    assert(s@.take(i as int) =~= s@);
    let b = replace_chars(a.as_slice(), "\\&", "&");
    let c = replace_chars(b.as_slice(), "\\%", "%");
    let d = replace_chars(c.as_slice(), "\\textit", "");
    let e = replace_chars(d.as_slice(), "\\textbf", "");
    let f = replace_chars(e.as_slice(), "\\emph", "");
    let g = replace_chars(f.as_slice(), "\\url", "");
    let h = replace_chars(g.as_slice(), "  ", " ");
    proof {
        reveal_strlit("");
    }
    assert(""@ =~= Seq::<char>::empty());
    trim_chars(h.as_slice())
}

/// The first character uppercased.
fn capitalize(s: &[char]) -> (r: Vec<char>)
    ensures
        r@ == capitalize_spec(s@),
{
    if s.len() == 0 {
        return Vec::new();
    }
    let mut out = to_uppercase(s[0]);
    let rest = sub_vec(s, 1, s.len());
    extend_chars(&mut out, rest.as_slice());
    assert(rest@ =~= s@.drop_first());
    out
}

/// Appends a detail line with the label when the field is present.
fn push_info(items: &mut Vec<Vec<char>>, fields: &Vec<(String, String)>, name: &str, label: &str, clean: bool)
    ensures
        final(items).deep_view() == old(items).deep_view() + info_item(
            fields@.map_values(|f: (String, String)| (f.0@, f.1@)),
            name@,
            label@,
            clean,
        ),
{
    let ghost before = items.deep_view();
    match get_field(fields, name) {
        Some(v) => {
            let mut line: Vec<char> = Vec::new();
            extend_str(&mut line, label);
            if clean {
                let c = clean_latex(v.as_slice());
                extend_chars(&mut line, c.as_slice());
            } else {
                extend_chars(&mut line, v.as_slice());
            }
            items.push(line);
            proof {
                crate::text::lemma_push_line(before, items@, line);
            }
            assert(items.deep_view() =~= before + seq![line@]);
        },
        None => {
            assert(items.deep_view() =~= before + Seq::<Seq<char>>::empty());
        },
    }
}

/// Appends the heading of an entry.
fn push_head(md: &mut Vec<char>, entry: &BibEntry)
    ensures
        final(md)@ == old(md)@ + entry_head(entry@),
{
    let t = crate::text::chars_of(entry.entry_type.as_str());
    let ts = t.as_slice();
    let icon = if chars_eq_str(ts, "article") {
        "\u{1F4C4}"
    } else if chars_eq_str(ts, "book") || chars_eq_str(ts, "inbook") {
        "\u{1F4DA}"
    } else if chars_eq_str(ts, "conference") || chars_eq_str(ts, "inproceedings") {
        "\u{1F3A4}"
    } else if chars_eq_str(ts, "phdthesis") || chars_eq_str(ts, "mastersthesis") {
        "\u{1F393}"
    } else if chars_eq_str(ts, "techreport") {
        "\u{1F4CB}"
    } else if chars_eq_str(ts, "misc") || chars_eq_str(ts, "online") {
        "\u{1F517}"
    } else {
        "\u{1F4DD}"
    };
    assert(icon@ == type_icon(entry@.entry_type));
    let ghost m0 = md@;
    extend_str(md, "## ");
    extend_str(md, icon);
    extend_str(md, " ");
    let cap = capitalize(ts);
    extend_chars(md, cap.as_slice());
    extend_str(md, " `");
    extend_str(md, entry.cite_key.as_str());
    extend_str(md, "`\n\n");
    assert(md@ =~= m0 + entry_head(entry@));
}

/// Appends a field, cleaned up, between `head` and `tail`, if present.
fn push_field_line(md: &mut Vec<char>, fields: &Vec<(String, String)>, name: &str, head: &str, tail: &str)
    ensures
        final(md)@ == old(md)@ + field_line(fields@.map_values(|f: (String, String)| (f.0@, f.1@)), name@, head@, tail@),
{
    let ghost m0 = md@;
    match get_field(fields, name) {
        Some(v) => {
            extend_str(md, head);
            let c = clean_latex(v.as_slice());
            extend_chars(md, c.as_slice());
            extend_str(md, tail);
            assert(md@ =~= m0 + field_line(fields@.map_values(|f: (String, String)| (f.0@, f.1@)), name@, head@, tail@));
        },
        None => {
            assert(md@ =~= m0 + Seq::<char>::empty());
        },
    }
}

/// The publication details of an entry.
fn collect_info(fields: &Vec<(String, String)>) -> (r: Vec<Vec<char>>)
    ensures
        r.deep_view() == pub_info(fields@.map_values(|f: (String, String)| (f.0@, f.1@))),
{
    let ghost f = fields@.map_values(|f: (String, String)| (f.0@, f.1@));
    let mut items: Vec<Vec<char>> = Vec::new();
    assert(items.deep_view() =~= Seq::<Seq<char>>::empty());
    push_info(&mut items, fields, "journal", "**Journal:** ", true);
    push_info(&mut items, fields, "booktitle", "**In:** ", true);
    push_info(&mut items, fields, "publisher", "**Publisher:** ", true);
    push_info(&mut items, fields, "year", "**Year:** ", false);
    push_info(&mut items, fields, "volume", "**Volume:** ", false);
    push_info(&mut items, fields, "pages", "**Pages:** ", false);
    let ghost b6 = items.deep_view();
    match get_field(fields, "doi") {
        Some(d) => {
            let mut line: Vec<char> = Vec::new();
            extend_str(&mut line, "**DOI:** [");
            extend_chars(&mut line, d.as_slice());
            extend_str(&mut line, "](https://doi.org/");
            extend_chars(&mut line, d.as_slice());
            extend_str(&mut line, ")");
            items.push(line);
            proof {
                crate::text::lemma_push_line(b6, items@, line);
            }
        },
        None => {},
    }
    let ghost b7 = items.deep_view();
    match get_field(fields, "url") {
        Some(u) => {
            let mut line: Vec<char> = Vec::new();
            extend_str(&mut line, "**URL:** <");
            extend_chars(&mut line, u.as_slice());
            extend_str(&mut line, ">");
            items.push(line);
            proof {
                crate::text::lemma_push_line(b7, items@, line);
            }
        },
        None => {},
    }
    assert(items.deep_view() =~= pub_info(f));
    items
}

/// Appends the publication details, if any.
fn push_info_block(md: &mut Vec<char>, fields: &Vec<(String, String)>)
    ensures
        final(md)@ == old(md)@ + info_block(fields@.map_values(|f: (String, String)| (f.0@, f.1@))),
{
    let ghost m0 = md@;
    let items = collect_info(fields);
    if items.len() > 0 {
        let ghost iv = items.deep_view();
        let mut k: usize = 0;
        while k < items.len()
            invariant
                k <= items@.len(),
                iv == items.deep_view(),
                md@ == m0 + info_md(iv.take(k as int)),
            decreases items@.len() - k,
        {
            assert(iv.take(k + 1).drop_last() =~= iv.take(k as int));
            proof {
                crate::text::lemma_chars_deep_view(items@[k as int]);
            }
            extend_str(md, "- ");
            extend_chars(md, items[k].as_slice());
            extend_str(md, "\n");
            assert(md@ =~= m0 + info_md(iv.take(k + 1)));
            k += 1;
        }
        assert(iv.take(k as int) =~= iv);
        extend_str(md, "\n");
    }
    assert(md@ =~= m0 + info_block(fields@.map_values(|f: (String, String)| (f.0@, f.1@))));
}

impl BibtexConverter {
    /// The Markdown of an entry.
    pub fn format_entry(entry: &BibEntry) -> (r: Vec<char>)
        ensures
            r@ == entry_md(entry@),
    {
        let mut md: Vec<char> = Vec::new();
        push_head(&mut md, entry);
        push_field_line(&mut md, &entry.fields, "title", "**", "**\n\n");
        push_field_line(&mut md, &entry.fields, "author", "*", "*\n\n");
        push_info_block(&mut md, &entry.fields);
        push_field_line(&mut md, &entry.fields, "abstract", "> ", "\n\n");
        extend_str(&mut md, "---\n\n");
        assert(md@ =~= entry_md(entry@));
        md
    }

    /// Converts BibTeX bytes (decoded as UTF-8, invalid sequences replaced)
    /// to a one-page document of the bibliography.
    pub fn convert_bytes(&self, bytes: &[u8]) -> (r: Document)
        ensures
            is_markdown_doc(r, bibliography_md(bib_entries(utf8_lossy(bytes@)))),
    {
        let content = from_utf8_lossy(bytes);
        let entries = Self::parse_bibtex(content.as_slice());
        let ghost ev = entries_view(entries@);
        let mut md: Vec<char> = Vec::new();
        extend_str(&mut md, "# Bibliography\n\n");
        extend_str(&mut md, "*");
        push_decimal(&mut md, entries.len());
        extend_str(&mut md, " entries*\n\n");
        let ghost head = md@;
        let mut k: usize = 0;
        while k < entries.len()
            invariant
                k <= entries@.len(),
                ev == entries_view(entries@),
                md@ == head + entries_md(ev.take(k as int)),
            decreases entries@.len() - k,
        {
            assert(ev.take(k + 1).drop_last() =~= ev.take(k as int));
            let e = Self::format_entry(&entries[k]);
            extend_chars(&mut md, e.as_slice());
            assert(md@ =~= head + entries_md(ev.take(k + 1)));
            k += 1;
        }
        assert(ev.take(k as int) =~= ev);
        assert(md@ =~= bibliography_md(ev));
        markdown_document(md)
    }
}

impl DocumentConverter for BibtexConverter {
    open spec fn extensions(&self) -> Seq<Seq<char>> {
        seq![".bib"@, ".bibtex"@]
    }

    fn supported_extensions(&self) -> (r: Vec<&'static str>) {
        let r = vec![".bib", ".bibtex"];
        assert(ext_views(r@) =~= self.extensions());
        r
    }
}

} // verus!
