//! Multi-page table detection and merging.
//!
//! Tables in Markdown content are found line by line: a table is a maximal
//! run of lines that look like table rows.  Tables that end one page and
//! start the next one are merged into a single table on the first page.
use vstd::prelude::*;
use vstd::string::StringSliceAdditionalSpecFns;
use vstd::utf8::{encode_utf8, encode_scalar, char_is_scalar};
use crate::text::{
    trim, lines_of, lines_acc, join, split_lines, join_chars, join_range, trim_chars, is_blank, sub_vec,
    extend_chars, extend_str, strip_cr,
};
use crate::pattern::{is_match, regex_is_match};
use crate::chars::to_string;
use crate::text::chars_of;

verus! {

/// A line that looks like a table row.
pub const TABLE_ROW_PATTERN: &'static str = r"^\s*\|(.+)\|\s*$";

/// A line that looks like a header separator row such as `| --- | :-: |`.
pub const TABLE_SEPARATOR_PATTERN: &'static str = r"^\s*\|[\s:-]+\|[\s|:-]*$";

/// A table found in Markdown content.
#[derive(Debug, Clone)]
pub struct TableFragment {
    /// The lines of the table joined by newlines.
    pub content: String,
    /// Byte offset of the table's first line in the content.
    pub start_pos: usize,
    /// Byte offset just past the table's last line (and its newline).
    pub end_pos: usize,
    /// Whether the table has a header row: its first line, a table row,
    /// with a separator row below it.
    pub has_header: bool,
    /// Whether the table has a separator row.
    pub is_complete: bool,
    /// Whether only blank lines stand before the table.
    pub at_content_start: bool,
    /// Whether only blank lines stand after the table.
    pub at_content_end: bool,
    /// The largest number of cells in a row.
    pub column_count: usize,
    /// The header cells, if the table has a header.
    pub headers: Option<Vec<String>>,
    /// The cells of the data rows.
    pub data_rows: Vec<Vec<String>>,
}

/// The mathematical content of a [`TableFragment`].
pub struct FragmentView {
    pub content: Seq<char>,
    pub start_pos: nat,
    pub end_pos: nat,
    pub has_header: bool,
    pub is_complete: bool,
    pub at_content_start: bool,
    pub at_content_end: bool,
    pub column_count: nat,
    pub headers: Option<Seq<Seq<char>>>,
    pub data_rows: Seq<Seq<Seq<char>>>,
}

/// The views of optional header cells.
pub open spec fn opt_cells_view(h: Option<Vec<String>>) -> Option<Seq<Seq<char>>> {
    match h {
        Some(v) => Some(v.deep_view()),
        None => None,
    }
}

impl View for TableFragment {
    type V = FragmentView;

    open spec fn view(&self) -> FragmentView {
        FragmentView {
            content: self.content@,
            start_pos: self.start_pos as nat,
            end_pos: self.end_pos as nat,
            has_header: self.has_header,
            is_complete: self.is_complete,
            at_content_start: self.at_content_start,
            at_content_end: self.at_content_end,
            column_count: self.column_count as nat,
            headers: opt_cells_view(self.headers),
            data_rows: self.data_rows.deep_view(),
        }
    }
}

// ---------------------------------------------------------------------
// Row parsing
// ---------------------------------------------------------------------

/// The pieces of `s` between occurrences of `c`, when the current piece so
/// far is `cur`.
pub open spec fn split_acc(s: Seq<char>, c: char, cur: Seq<char>) -> Seq<Seq<char>>
    decreases s.len(),
{
    if s.len() == 0 {
        seq![cur]
    } else if s[0] == c {
        seq![cur] + split_acc(s.drop_first(), c, seq![])
    } else {
        split_acc(s.drop_first(), c, cur.push(s[0]))
    }
}

/// `str::split(c)`: the pieces between occurrences of `c` (at least one).
pub open spec fn split_on(s: Seq<char>, c: char) -> Seq<Seq<char>> {
    split_acc(s, c, seq![])
}

/// The cells of a table row line: the trimmed pieces between the `|`
/// characters of the trimmed line, or none when the trimmed line does not
/// both start and end with `|`.
pub open spec fn row_cells(line: Seq<char>) -> Seq<Seq<char>> {
    let t = trim(line);
    if t.len() >= 2 && t[0] == '|' && t.last() == '|' {
        split_on(t.subrange(1, t.len() - 1), '|').map_values(|p: Seq<char>| trim(p))
    } else {
        seq![]
    }
}

/// The pieces of `s` between occurrences of `c`.
fn split_chars(s: &[char], c: char) -> (r: Vec<Vec<char>>)
    ensures
        r.deep_view() == split_on(s@, c),
{
    let mut out: Vec<Vec<char>> = Vec::new();
    let mut cur: Vec<char> = Vec::new();
    let mut i: usize = 0;
    assert(s@.skip(0) =~= s@);
    while i < s.len()
        invariant
            i <= s@.len(),
            split_on(s@, c) == out.deep_view() + split_acc(s@.skip(i as int), c, cur@),
        decreases s@.len() - i,
    {
        let ghost rest = s@.skip(i as int);
        assert(rest.drop_first() =~= s@.skip(i + 1));
        assert(rest[0] == s@[i as int]);
        if s[i] == c {
            let ghost before = out.deep_view();
            let ghost cv = cur@;
            out.push(cur);
            proof {
                crate::text::lemma_push_line(before, out@, out@.last());
                assert(before + (seq![cv] + split_acc(s@.skip(i + 1), c, seq![])) =~= before.push(
                    cv,
                ) + split_acc(s@.skip(i + 1), c, seq![]));
            }
            cur = Vec::new();
        } else {
            let ghost c0 = cur@;
            cur.push(s[i]);
            assert(cur@ == c0.push(s@[i as int]));
        }
        i += 1;
    }
    assert(s@.skip(i as int) =~= Seq::<char>::empty());
    let ghost before = out.deep_view();
    out.push(cur);
    proof {
        crate::text::lemma_push_line(before, out@, out@.last());
    }
    assert(split_on(s@, c) =~= out.deep_view());
    out
}

/// The cells of a table row line.
fn parse_table_row(line: &[char]) -> (r: Vec<Vec<char>>)
    ensures
        r.deep_view() == row_cells(line@),
{
    let t = trim_chars(line);
    let n = t.len();
    if !(n >= 2 && t[0] == '|' && t[n - 1] == '|') {
        assert(row_cells(line@) =~= Seq::<Seq<char>>::empty());
        return Vec::new();
    }
    let inner = sub_vec(&t, 1, n - 1);
    let pieces = split_chars(&inner, '|');
    let mut cells: Vec<Vec<char>> = Vec::new();
    let mut k: usize = 0;
    while k < pieces.len()
        invariant
            k <= pieces@.len(),
            cells.deep_view() =~= pieces.deep_view().take(k as int).map_values(|p: Seq<char>| trim(p)),
        decreases pieces@.len() - k,
    {
        let cell = trim_chars(pieces[k].as_slice());
        let ghost before = cells.deep_view();
        cells.push(cell);
        proof {
            crate::text::lemma_push_line(before, cells@, cells@.last());
            assert(pieces.deep_view()[k as int] == pieces@[k as int]@);
        }
        k += 1;
    }
    assert(pieces.deep_view().take(k as int) =~= pieces.deep_view());
    cells
}

/// The character sequences as strings.
pub(crate) fn strings_of(v: &Vec<Vec<char>>) -> (r: Vec<String>)
    ensures
        r.deep_view() == v.deep_view(),
{
    let mut out: Vec<String> = Vec::new();
    let mut k: usize = 0;
    while k < v.len()
        invariant
            k <= v@.len(),
            out.deep_view() =~= v.deep_view().take(k as int),
        decreases v@.len() - k,
    {
        let s = to_string(v[k].as_slice());
        let ghost before = out.deep_view();
        out.push(s);
        proof {
            assert(v.deep_view()[k as int] == v@[k as int]@) by {
                crate::text::lemma_chars_deep_view(v@[k as int]);
            }
            assert(out.deep_view() =~= before.push(s@));
            assert(v.deep_view().take(k + 1) =~= v.deep_view().take(k as int).push(v@[k as int]@));
        }
        k += 1;
    }
    assert(v.deep_view().take(k as int) =~= v.deep_view());
    out
}

// ---------------------------------------------------------------------
// Table structure
// ---------------------------------------------------------------------

/// Row `k` of the table counts: it is not a separator and has cells.
pub open spec fn counts_row(t: Seq<Seq<char>>, s: Seq<bool>, k: int) -> bool {
    !s[k] && row_cells(t[k]).len() > 0
}

/// The largest cell count among the first `k` counting rows.
pub open spec fn col_count(t: Seq<Seq<char>>, s: Seq<bool>, k: int) -> nat
    decreases k,
{
    if k <= 0 {
        0
    } else {
        let c = col_count(t, s, k - 1);
        if counts_row(t, s, k - 1) && row_cells(t[k - 1]).len() > c {
            row_cells(t[k - 1]).len()
        } else {
            c
        }
    }
}

/// Whether counting row `k` goes to the data rows, given the index of the
/// separator row.
pub open spec fn is_data_row(k: int, sep_idx: Option<int>) -> bool {
    match sep_idx {
        None => true,
        Some(si) => k != 0 && (k > si || (k > 0 && k < si)),
    }
}

/// The data rows among the first `k` rows.
pub open spec fn data_rows_of(t: Seq<Seq<char>>, s: Seq<bool>, sep_idx: Option<int>, k: int) -> Seq<Seq<Seq<char>>>
    decreases k,
{
    if k <= 0 {
        seq![]
    } else {
        let d = data_rows_of(t, s, sep_idx, k - 1);
        if counts_row(t, s, k - 1) && is_data_row(k - 1, sep_idx) {
            d.push(row_cells(t[k - 1]))
        } else {
            d
        }
    }
}

/// The header cells: those of the first row when the table has a separator
/// row and the first row counts.
pub open spec fn headers_of(t: Seq<Seq<char>>, s: Seq<bool>, sep_idx: Option<int>) -> Option<Seq<Seq<char>>> {
    if sep_idx is Some && t.len() > 0 && counts_row(t, s, 0) {
        Some(row_cells(t[0]))
    } else {
        None
    }
}

/// Headers, data rows and column count of the table made of `lines[i..e]`.
fn parse_table_structure(
    lines: &Vec<Vec<char>>,
    sep: &[bool],
    i: usize,
    e: usize,
    sep_idx: Option<usize>,
) -> (r: (Option<Vec<Vec<char>>>, Vec<Vec<Vec<char>>>, usize))
    requires
        i <= e <= lines@.len(),
        sep@.len() == lines@.len(),
    ensures
        ({
            let t = lines.deep_view().subrange(i as int, e as int);
            let s = sep@.subrange(i as int, e as int);
            let si = match sep_idx {
                Some(x) => Some(x as int),
                None => None,
            };
            &&& opt_chars_view(r.0) == headers_of(t, s, si)
            &&& r.1.deep_view() == data_rows_of(t, s, si, t.len() as int)
            &&& r.2 as nat == col_count(t, s, t.len() as int)
        }),
{
    let ghost t = lines.deep_view().subrange(i as int, e as int);
    let ghost s = sep@.subrange(i as int, e as int);
    let ghost si = match sep_idx {
        Some(x) => Some(x as int),
        None => None,
    };
    let mut headers: Option<Vec<Vec<char>>> = None;
    let mut data: Vec<Vec<Vec<char>>> = Vec::new();
    let mut cc: usize = 0;
    let mut k: usize = 0;
    while k < e - i
        invariant
            i <= e <= lines@.len(),
            sep@.len() == lines@.len(),
            t == lines.deep_view().subrange(i as int, e as int),
            s == sep@.subrange(i as int, e as int),
            si == (match sep_idx {
                Some(x) => Some(x as int),
                None => None,
            }),
            k <= e - i,
            opt_chars_view(headers) == (if k > 0 {
                headers_of(t, s, si)
            } else {
                None
            }),
            data.deep_view() == data_rows_of(t, s, si, k as int),
            cc as nat == col_count(t, s, k as int),
        decreases e - i - k,
    {
        let line = &lines[i + k];
        assert(t[k as int] == line@) by {
            crate::text::lemma_chars_deep_view(*line);
        }
        if sep[i + k] {
            assert(!counts_row(t, s, k as int));
        } else {
            let cells = parse_table_row(line.as_slice());
            if cells.len() == 0 {
                assert(!counts_row(t, s, k as int));
            } else {
                assert(counts_row(t, s, k as int));
                if cells.len() > cc {
                    cc = cells.len();
                }
                if sep_idx.is_some() && k == 0 {
                    headers = Some(cells);
                } else if sep_idx.is_none() || k > sep_idx.unwrap() {
                    let ghost before = data.deep_view();
                    data.push(cells);
                    assert(data.deep_view() =~= before.push(row_cells(t[k as int])));
                } else if k > 0 && k < sep_idx.unwrap() {
                    let ghost before = data.deep_view();
                    data.push(cells);
                    assert(data.deep_view() =~= before.push(row_cells(t[k as int])));
                }
            }
        }
        k += 1;
    }
    (headers, data, cc)
}

/// The views of optional character rows.
pub open spec fn opt_chars_view(h: Option<Vec<Vec<char>>>) -> Option<Seq<Seq<char>>> {
    match h {
        Some(v) => Some(v.deep_view()),
        None => None,
    }
}


// ---------------------------------------------------------------------
// Line offsets
// ---------------------------------------------------------------------

/// Number of bytes of the UTF-8 encoding of `c` (`char::len_utf8`).
pub open spec fn utf8_width(c: char) -> nat {
    let u = c as u32;
    if u < 0x80 {
        1
    } else if u < 0x800 {
        2
    } else if u < 0x10000 {
        3
    } else {
        4
    }
}

/// The size of `s`: its UTF-8 byte length when `bytes`, else its length.
pub open spec fn wsum(s: Seq<char>, bytes: bool) -> nat
    decreases s.len(),
{
    if s.len() == 0 {
        0
    } else {
        wsum(s.drop_last(), bytes) + (if bytes {
            utf8_width(s.last())
        } else {
            1
        })
    }
}

/// The size of the first `k` lines, each counted with one newline.
pub open spec fn psum(ls: Seq<Seq<char>>, k: int, bytes: bool) -> nat
    decreases k,
{
    if k <= 0 {
        0
    } else {
        psum(ls, k - 1, bytes) + wsum(ls[k - 1], bytes) + 1
    }
}

/// The offset at which line `k` starts, counting each earlier line and its
/// newline, except that the last line of content without a final newline is
/// counted without one.
pub open spec fn offset(ls: Seq<Seq<char>>, k: int, nl: bool, bytes: bool) -> nat {
    if k == ls.len() && k > 0 && !nl {
        (psum(ls, k, bytes) - 1) as nat
    } else {
        psum(ls, k, bytes)
    }
}

/// The content ends with a newline (`str::ends_with('\n')`).
pub open spec fn ends_nl(c: Seq<char>) -> bool {
    c.len() > 0 && c.last() == '\n'
}

proof fn lemma_wsum_concat(a: Seq<char>, b: Seq<char>, bytes: bool)
    ensures
        wsum(a + b, bytes) == wsum(a, bytes) + wsum(b, bytes),
    decreases b.len(),
{
    if b.len() == 0 {
        assert(a + b =~= a);
    } else {
        assert((a + b).drop_last() =~= a + b.drop_last());
        lemma_wsum_concat(a, b.drop_last(), bytes);
    }
}

proof fn lemma_wsum_len(s: Seq<char>)
    ensures
        wsum(s, false) == s.len(),
    decreases s.len(),
{
    if s.len() > 0 {
        lemma_wsum_len(s.drop_last());
    }
}

proof fn lemma_wsum_ge_len(s: Seq<char>, bytes: bool)
    ensures
        wsum(s, bytes) >= s.len(),
    decreases s.len(),
{
    if s.len() > 0 {
        lemma_wsum_ge_len(s.drop_last(), bytes);
    }
}

proof fn lemma_encode_len(s: Seq<char>)
    ensures
        encode_utf8(s).len() == wsum(s, true),
    decreases s.len(),
{
    if s.len() > 0 {
        lemma_encode_len(s.drop_first());
        assert(s =~= seq![s[0]] + s.drop_first());
        lemma_wsum_concat(seq![s[0]], s.drop_first(), true);
        assert(seq![s[0]].drop_last() =~= Seq::<char>::empty());
        char_is_scalar(s[0]);
        let u = s[0] as u32;
        assert(encode_scalar(u).len() == utf8_width(s[0]));
        assert(encode_utf8(s) == encode_scalar(u) + encode_utf8(s.drop_first()));
        assert(wsum(Seq::<char>::empty(), true) == 0);
        assert(seq![s[0]].last() == s[0]);
        assert(wsum(seq![s[0]], true) == utf8_width(s[0]));
        assert(wsum(s, true) == wsum(seq![s[0]], true) + wsum(s.drop_first(), true));
    }
}

/// `lines_acc(s, cur)` ends its last line with a newline (or has none).
pub open spec fn ends_acc(s: Seq<char>, cur: Seq<char>) -> bool {
    if s.len() > 0 {
        s.last() == '\n'
    } else {
        cur.len() == 0
    }
}

proof fn lemma_psum_cons(x: Seq<char>, r: Seq<Seq<char>>, k: int, bytes: bool)
    requires
        0 <= k <= r.len(),
    ensures
        psum(seq![x] + r, k + 1, bytes) == wsum(x, bytes) + 1 + psum(r, k, bytes),
    decreases k,
{
    let xr = seq![x] + r;
    assert(xr[0] == x);
    if k > 0 {
        lemma_psum_cons(x, r, k - 1, bytes);
        assert(xr[k] == r[k - 1]);
        assert(psum(xr, k + 1, bytes) == psum(xr, k, bytes) + wsum(xr[k], bytes) + 1);
        assert(psum(r, k, bytes) == psum(r, k - 1, bytes) + wsum(r[k - 1], bytes) + 1);
    } else {
        assert(psum(xr, 1, bytes) == psum(xr, 0, bytes) + wsum(xr[0], bytes) + 1);
        assert(psum(xr, 0, bytes) == 0);
        assert(psum(r, 0, bytes) == 0);
    }
}

proof fn lemma_strip_cr_wsum(cur: Seq<char>, bytes: bool)
    ensures
        wsum(strip_cr(cur), bytes) <= wsum(cur, bytes),
{
}

proof fn lemma_lines_total(s: Seq<char>, cur: Seq<char>, bytes: bool)
    ensures
        psum(lines_acc(s, cur), lines_acc(s, cur).len() as int, bytes) <= wsum(cur, bytes) + wsum(
            s,
            bytes,
        ) + (if ends_acc(s, cur) {
            0int
        } else {
            1int
        }),
        !ends_acc(s, cur) ==> lines_acc(s, cur).len() > 0 && lines_acc(s, cur).last().len() > 0,
    decreases s.len(),
{
    let l = lines_acc(s, cur);
    if s.len() == 0 {
        if cur.len() > 0 {
            assert(psum(l, 1, bytes) == psum(l, 0, bytes) + wsum(cur, bytes) + 1);
        }
    } else {
        let rest = s.drop_first();
        assert(s =~= seq![s[0]] + rest);
        lemma_wsum_concat(seq![s[0]], rest, bytes);
        assert(seq![s[0]].drop_last() =~= Seq::<char>::empty());
        if rest.len() > 0 {
            assert(rest.last() == s.last());
        }
        if s[0] == '\n' {
            let l2 = lines_acc(rest, seq![]);
            lemma_lines_total(rest, seq![], bytes);
            lemma_psum_cons(strip_cr(cur), l2, l2.len() as int, bytes);
            lemma_strip_cr_wsum(cur, bytes);
            assert(l == seq![strip_cr(cur)] + l2);
            if l2.len() > 0 {
                assert(l.last() == l2.last());
            }
        } else {
            let c2 = cur.push(s[0]);
            lemma_lines_total(rest, c2, bytes);
            assert(c2.drop_last() =~= cur);
        }
    }
}

proof fn lemma_psum_mono(ls: Seq<Seq<char>>, a: int, b: int, bytes: bool)
    requires
        0 <= a <= b,
    ensures
        psum(ls, b, bytes) >= psum(ls, a, bytes) + (b - a),
    decreases b - a,
{
    if a < b {
        lemma_psum_mono(ls, a, b - 1, bytes);
    }
}

/// Offsets of the lines of `c` lie within its size, grow with the line
/// index, and every line spans at least one position.
proof fn lemma_offsets(c: Seq<char>, a: int, b: int, bytes: bool)
    requires
        0 <= a <= b <= lines_of(c).len(),
    ensures
        offset(lines_of(c), a, ends_nl(c), bytes) <= offset(lines_of(c), b, ends_nl(c), bytes),
        a < b ==> offset(lines_of(c), a, ends_nl(c), bytes) < offset(lines_of(c), b, ends_nl(c), bytes),
        offset(lines_of(c), b, ends_nl(c), bytes) <= wsum(c, bytes),
        b < lines_of(c).len() ==> psum(lines_of(c), b, bytes) + wsum(lines_of(c)[b], bytes) <= offset(
            lines_of(c),
            lines_of(c).len() as int,
            ends_nl(c),
            bytes,
        ),
{
    let ls = lines_of(c);
    let n = ls.len() as int;
    lemma_lines_total(c, seq![], bytes);
    assert(wsum(Seq::<char>::empty(), bytes) == 0);
    lemma_psum_mono(ls, a, b, bytes);
    lemma_psum_mono(ls, b, n, bytes);
    if c.len() == 0 {
        assert(ls.len() == 0);
    } else {
        assert(ends_acc(c, seq![]) == ends_nl(c));
    }
    if n > 0 {
        assert(psum(ls, n, bytes) == psum(ls, n - 1, bytes) + wsum(ls[n - 1], bytes) + 1);
        if a <= n - 1 {
            lemma_psum_mono(ls, a, n - 1, bytes);
        }
        if !ends_nl(c) {
            assert(ls.last().len() > 0);
            lemma_wsum_ge_len(ls[n - 1], bytes);
        }
        if b < n {
            lemma_psum_mono(ls, b + 1, n, bytes);
        }
    }
}

/// Size of one character.
pub fn char_width(c: char, bytes: bool) -> (r: usize)
    ensures
        r == (if bytes {
            utf8_width(c)
        } else {
            1
        }),
{
    if !bytes {
        return 1;
    }
    let u = c as u32;
    if u < 0x80 {
        1
    } else if u < 0x800 {
        2
    } else if u < 0x10000 {
        3
    } else {
        4
    }
}

/// The UTF-8 byte length of the characters (`str::len`).
pub fn byte_len(s: &[char]) -> (r: u128)
    ensures
        r == wsum(s@, true),
        r <= 4 * s@.len(),
{
    let mut acc: u128 = 0;
    let mut j: usize = 0;
    while j < s.len()
        invariant
            j <= s@.len(),
            acc == wsum(s@.take(j as int), true),
            acc <= 4 * j,
        decreases s@.len() - j,
    {
        assert(s@.take(j + 1).drop_last() =~= s@.take(j as int));
        acc = acc + char_width(s[j], true) as u128;
        j += 1;
    }
    assert(s@.take(j as int) =~= s@);
    acc
}

/// The offsets of all lines of the content `c`, and the offset past the
/// end, given the content's size.
fn line_offsets(lines: &Vec<Vec<char>>, nl: bool, bytes: bool, total: usize, Ghost(c): Ghost<Seq<char>>) -> (r: Vec<usize>)
    requires
        lines.deep_view() == lines_of(c),
        nl == ends_nl(c),
        wsum(c, bytes) == total,
    ensures
        r@.len() == lines@.len() + 1,
        forall|k: int| 0 <= k <= lines@.len() ==> r@[k] == offset(lines_of(c), k, nl, bytes),
{
    let ghost ls = lines_of(c);
    let n = lines.len();
    let mut r: Vec<usize> = Vec::new();
    let mut acc: usize = 0;
    let mut k: usize = 0;
    proof {
        lemma_offsets(c, 0, n as int, bytes);
        if n == 0 {
            assert(psum(ls, 0, bytes) == offset(ls, 0, nl, bytes));
        }
    }
    while k < n
        invariant
            n == lines@.len(),
            ls == lines_of(c),
            lines.deep_view() == ls,
            nl == ends_nl(c),
            offset(ls, n as int, nl, bytes) <= total,
            k <= n,
            acc == (if k == n {
                offset(ls, n as int, nl, bytes)
            } else {
                psum(ls, k as int, bytes)
            }),
            r@.len() == k,
            forall|j: int| 0 <= j < k ==> r@[j] == offset(ls, j, nl, bytes),
        decreases n - k,
    {
        r.push(acc);
        proof {
            lemma_offsets(c, k as int, k as int, bytes);
        }
        let line = &lines[k];
        assert(ls[k as int] == line@) by {
            crate::text::lemma_chars_deep_view(*line);
        }
        let mut j: usize = 0;
        let mut w: usize = 0;
        while j < line.len()
            invariant
                j <= line@.len(),
                w == wsum(line@.take(j as int), bytes),
                acc + wsum(line@, bytes) <= total,
                acc + wsum(line@.take(j as int), bytes) <= acc + wsum(line@, bytes),
            decreases line@.len() - j,
        {
            assert(line@.take(j + 1).drop_last() =~= line@.take(j as int));
            proof {
                lemma_wsum_concat(line@.take(j + 1), line@.skip(j + 1), bytes);
                assert(line@.take(j + 1) + line@.skip(j + 1) =~= line@);
            }
            w = w + char_width(line[j], bytes);
            j += 1;
        }
        assert(line@.take(j as int) =~= line@);
        if k + 1 == n && !nl {
            acc = acc + w;
        } else {
            assert(acc + w + 1 == psum(ls, k + 1, bytes));
            proof {
                if k + 1 == n {
                    assert(offset(ls, n as int, nl, bytes) == psum(ls, n as int, bytes));
                } else {
                    lemma_offsets(c, k + 1, k + 1, bytes);
                    lemma_psum_mono(ls, k + 1, n as int, bytes);
                }
            }
            acc = acc + w + 1;
        }
        k += 1;
    }
    r.push(acc);
    r
}


// ---------------------------------------------------------------------
// Detection
// ---------------------------------------------------------------------

/// The end of the run of row lines that starts at `i`.
pub open spec fn run_end(row: Seq<bool>, i: int) -> int
    decreases row.len() - i,
{
    if 0 <= i < row.len() && row[i] {
        run_end(row, i + 1)
    } else {
        i
    }
}

/// The last separator line in `[i, j)`.
pub open spec fn last_sep(sep: Seq<bool>, i: int, j: int) -> Option<int>
    decreases j - i,
{
    if j <= i {
        None
    } else if sep[j - 1] {
        Some(j - 1)
    } else {
        last_sep(sep, i, j - 1)
    }
}

/// Lines `[a, b)` are blank.
pub open spec fn all_blank(ls: Seq<Seq<char>>, a: int, b: int) -> bool {
    forall|k: int| a <= k < b ==> #[trigger] trim(ls[k]).len() == 0
}

/// The table made of lines `[i, e)`.
pub open spec fn fragment_at(
    ls: Seq<Seq<char>>,
    sep: Seq<bool>,
    nl: bool,
    i: int,
    e: int,
) -> FragmentView {
    let t = ls.subrange(i, e);
    let s = sep.subrange(i, e);
    let last = last_sep(sep, i, e);
    let si = match last {
        Some(k) => Some(k - i),
        None => None,
    };
    FragmentView {
        content: join(t, seq!['\n']),
        start_pos: offset(ls, i, nl, true),
        end_pos: offset(ls, e, nl, true),
        has_header: headers_of(t, s, si) is Some,
        is_complete: last is Some,
        at_content_start: all_blank(ls, 0, i),
        at_content_end: all_blank(ls, e, ls.len() as int),
        column_count: col_count(t, s, t.len() as int),
        headers: headers_of(t, s, si),
        data_rows: data_rows_of(t, s, si, t.len() as int),
    }
}

pub proof fn lemma_run_end(row: Seq<bool>, i: int)
    requires
        0 <= i <= row.len(),
    ensures
        i <= run_end(row, i) <= row.len(),
        i < row.len() && row[i] ==> run_end(row, i) > i,
    decreases row.len() - i,
{
    if i < row.len() && row[i] {
        lemma_run_end(row, i + 1);
    }
}

/// The tables found from line `i` on, each with its first line and the
/// line past its end.
pub open spec fn fragments_from(
    ls: Seq<Seq<char>>,
    row: Seq<bool>,
    sep: Seq<bool>,
    nl: bool,
    i: int,
) -> Seq<(FragmentView, int, int)>
    decreases row.len() - i,
{
    if i < 0 || i >= row.len() {
        seq![]
    } else if row[i] {
        let e = run_end(row, i);
        proof {
            lemma_run_end(row, i);
        }
        seq![(fragment_at(ls, sep, nl, i, e), i, e)] + fragments_from(ls, row, sep, nl, e)
    } else {
        fragments_from(ls, row, sep, nl, i + 1)
    }
}

/// Which lines match [`TABLE_ROW_PATTERN`].
pub open spec fn row_flags(ls: Seq<Seq<char>>) -> Seq<bool> {
    Seq::new(ls.len(), |k: int| regex_is_match(TABLE_ROW_PATTERN@, ls[k]))
}

/// Which lines match [`TABLE_SEPARATOR_PATTERN`].
pub open spec fn sep_flags(ls: Seq<Seq<char>>) -> Seq<bool> {
    Seq::new(ls.len(), |k: int| regex_is_match(TABLE_SEPARATOR_PATTERN@, ls[k]))
}

/// The tables of the content, with their line ranges.
pub open spec fn fragments_in(c: Seq<char>) -> Seq<(FragmentView, int, int)> {
    let ls = lines_of(c);
    fragments_from(ls, row_flags(ls), sep_flags(ls), ends_nl(c), 0)
}

/// The tables alone.
pub open spec fn frag_views(f: Seq<(FragmentView, int, int)>) -> Seq<FragmentView> {
    f.map_values(|t: (FragmentView, int, int)| t.0)
}

/// The views of a list of fragments.
pub open spec fn frag_list_view(v: Seq<TableFragment>) -> Seq<FragmentView> {
    v.map_values(|f: TableFragment| f@)
}

/// The views of fragments with their line ranges.
pub open spec fn triple_view(v: Seq<(TableFragment, usize, usize)>) -> Seq<(FragmentView, int, int)> {
    v.map_values(|t: (TableFragment, usize, usize)| (t.0@, t.1 as int, t.2 as int))
}

/// Lines `[a, b)` are blank.
fn all_blank_range(lines: &Vec<Vec<char>>, a: usize, b: usize) -> (r: bool)
    requires
        a <= b <= lines@.len(),
    ensures
        r == all_blank(lines.deep_view(), a as int, b as int),
{
    let mut k: usize = a;
    while k < b
        invariant
            a <= k <= b <= lines@.len(),
            all_blank(lines.deep_view(), a as int, k as int),
        decreases b - k,
    {
        let line = &lines[k];
        assert(lines.deep_view()[k as int] == line@) by {
            crate::text::lemma_chars_deep_view(*line);
        }
        if !is_blank(line.as_slice()) {
            return false;
        }
        k += 1;
    }
    true
}

/// The rows of cells as strings.
fn rows_to_strings(v: &Vec<Vec<Vec<char>>>) -> (r: Vec<Vec<String>>)
    ensures
        r.deep_view() == v.deep_view(),
{
    let mut out: Vec<Vec<String>> = Vec::new();
    let mut k: usize = 0;
    while k < v.len()
        invariant
            k <= v@.len(),
            out.deep_view() =~= v.deep_view().take(k as int),
        decreases v@.len() - k,
    {
        let row = strings_of(&v[k]);
        let ghost before = out.deep_view();
        out.push(row);
        proof {
            assert(out.deep_view() =~= before.push(row.deep_view()));
            assert(v.deep_view().take(k + 1) =~= v.deep_view().take(k as int).push(v@[k as int].deep_view()));
        }
        k += 1;
    }
    assert(v.deep_view().take(k as int) =~= v.deep_view());
    out
}

/// The tables of the content whose lines are `lines`, given the regex
/// answers for each line and the byte offsets of the lines.
fn detect_core(
    lines: &Vec<Vec<char>>,
    row: &[bool],
    sep: &[bool],
    boff: &Vec<usize>,
    nl: bool,
    Ghost(c): Ghost<Seq<char>>,
) -> (r: Vec<(TableFragment, usize, usize)>)
    requires
        lines.deep_view() == lines_of(c),
        nl == ends_nl(c),
        row@.len() == lines@.len(),
        sep@.len() == lines@.len(),
        boff@.len() == lines@.len() + 1,
        forall|k: int| 0 <= k <= lines@.len() ==> boff@[k] == offset(lines_of(c), k, nl, true),
    ensures
        triple_view(r@) == fragments_from(lines_of(c), row@, sep@, nl, 0),
{
    let ghost ls = lines_of(c);
    let n = lines.len();
    let mut r: Vec<(TableFragment, usize, usize)> = Vec::new();
    let mut i: usize = 0;
    let nlsep = vec!['\n'];
    while i < n
        invariant
            n == lines@.len(),
            ls == lines_of(c),
            lines.deep_view() == ls,
            row@.len() == n,
            sep@.len() == n,
            boff@.len() == n + 1,
            forall|k: int| 0 <= k <= n ==> boff@[k] == offset(ls, k, nl, true),
            nlsep@ == seq!['\n'],
            i <= n,
            fragments_from(ls, row@, sep@, nl, 0) == triple_view(r@) + fragments_from(ls, row@, sep@, nl, i as int),
        decreases n - i,
    {
        if row[i] {
            let mut e: usize = i;
            let mut sep_line: Option<usize> = None;
            while e < n && row[e]
                invariant
                    n == row@.len(),
                    n == sep@.len(),
                    i <= e <= n,
                    run_end(row@, i as int) == run_end(row@, e as int),
                    (match sep_line {
                        Some(l) => Some(l as int),
                        None => None,
                    }) == last_sep(sep@, i as int, e as int),
                    sep_line matches Some(l) ==> i <= l < e,
                decreases n - e,
            {
                if sep[e] {
                    sep_line = Some(e);
                }
                e += 1;
            }
            assert(run_end(row@, e as int) == e);
            let sep_idx: Option<usize> = match sep_line {
                Some(l) => Some(l - i),
                None => None,
            };
            let (h, d, cc) = parse_table_structure(lines, sep, i, e, sep_idx);
            let joined = join_range(lines, i, e, nlsep.as_slice());
            let headers: Option<Vec<String>> = match h {
                Some(hv) => Some(strings_of(&hv)),
                None => None,
            };
            let data_rows = rows_to_strings(&d);
            let has_header = headers.is_some();
            let frag = TableFragment {
                content: to_string(joined.as_slice()),
                start_pos: boff[i],
                end_pos: boff[e],
                has_header,
                is_complete: sep_line.is_some(),
                at_content_start: all_blank_range(lines, 0, i),
                at_content_end: all_blank_range(lines, e, n),
                column_count: cc,
                headers,
                data_rows,
            };
            proof {
                lemma_run_end(row@, i as int);
                assert(frag@ == fragment_at(ls, sep@, nl, i as int, e as int));
            }
            let ghost before = r@;
            r.push((frag, i, e));
            assert(triple_view(r@) =~= triple_view(before).push((frag@, i as int, e as int)));
            assert(triple_view(before).push((frag@, i as int, e as int)) + fragments_from(ls, row@, sep@, nl, e as int)
                =~= triple_view(before) + fragments_from(ls, row@, sep@, nl, i as int));
            i = e;
        } else {
            i += 1;
        }
    }
    r
}


/// The content's characters, lines, tables (with line ranges) and the
/// character offsets of its lines.
fn scan_tables(content: &str) -> (r: (Vec<char>, Vec<Vec<char>>, Vec<(TableFragment, usize, usize)>, Vec<usize>))
    ensures
        r.0@ == content@,
        r.1.deep_view() == lines_of(content@),
        triple_view(r.2@) == fragments_in(content@),
        r.3@.len() == lines_of(content@).len() + 1,
        forall|k: int|
            0 <= k <= lines_of(content@).len() ==> r.3@[k] == offset(
                lines_of(content@),
                k,
                ends_nl(content@),
                false,
            ),
{
    let c = chars_of(content);
    let lines = split_lines(c.as_slice());
    let ghost ls = lines_of(c@);
    let nl = c.len() > 0 && c[c.len() - 1] == '\n';
    let mut row: Vec<bool> = Vec::new();
    let mut sep: Vec<bool> = Vec::new();
    let mut k: usize = 0;
    while k < lines.len()
        invariant
            lines.deep_view() == ls,
            k <= lines@.len(),
            row@ == row_flags(ls).take(k as int),
            sep@ == sep_flags(ls).take(k as int),
        decreases lines@.len() - k,
    {
        assert(ls[k as int] == lines@[k as int]@) by {
            crate::text::lemma_chars_deep_view(lines@[k as int]);
        }
        let a = is_match(TABLE_ROW_PATTERN, lines[k].as_slice());
        let b = is_match(TABLE_SEPARATOR_PATTERN, lines[k].as_slice());
        row.push(a);
        sep.push(b);
        assert(row@ =~= row_flags(ls).take(k + 1));
        assert(sep@ =~= sep_flags(ls).take(k + 1));
        k += 1;
    }
    assert(row@ =~= row_flags(ls));
    assert(sep@ =~= sep_flags(ls));
    proof {
        lemma_encode_len(content@);
        lemma_wsum_len(c@);
    }
    let bytes = content.as_bytes();
    let blen = bytes.len();
    assert(blen == encode_utf8(content@).len()) by {
        assert(content.spec_bytes() == encode_utf8(content@));
    }
    let boff = line_offsets(&lines, nl, true, blen, Ghost(c@));
    let coff = line_offsets(&lines, nl, false, c.len(), Ghost(c@));
    let frags = detect_core(&lines, row.as_slice(), sep.as_slice(), &boff, nl, Ghost(c@));
    (c, lines, frags, coff)
}

/// The tables alone.
fn firsts(v: Vec<(TableFragment, usize, usize)>) -> (r: Vec<TableFragment>)
    ensures
        frag_list_view(r@) == frag_views(triple_view(v@)),
{
    let mut v = v;
    let mut out: Vec<TableFragment> = Vec::new();
    let ghost orig = v@;
    let n = v.len();
    let mut rev: Vec<TableFragment> = Vec::new();
    while v.len() > 0
        invariant
            v@ == orig.take(v@.len() as int),
            v@.len() <= n,
            n == orig.len(),
            rev@.len() == n - v@.len(),
            forall|j: int| 0 <= j < rev@.len() ==> #[trigger] rev@[j]@ == orig[n - 1 - j].0@,
        decreases v@.len(),
    {
        let t = v.pop().unwrap();
        rev.push(t.0);
        assert(v@ =~= orig.take(v@.len() as int));
    }
    let mut k: usize = 0;
    while rev.len() > 0
        invariant
            rev@.len() + k == n,
            n == orig.len(),
            forall|j: int| 0 <= j < rev@.len() ==> #[trigger] rev@[j]@ == orig[n - 1 - j].0@,
            out@.len() == k,
            forall|j: int| 0 <= j < k ==> #[trigger] out@[j]@ == orig[j].0@,
        decreases rev@.len(),
    {
        let f = rev.pop().unwrap();
        out.push(f);
        k += 1;
    }
    assert(frag_list_view(out@) =~= frag_views(triple_view(orig)));
    out
}

/// Detect the tables in Markdown content, given for each line (as
/// `str::lines` splits it) whether it looks like a table row and whether it
/// looks like a separator row.
pub fn detect_table_fragments_with(content: &str, row_flags: &[bool], sep_flags: &[bool]) -> (r: Vec<TableFragment>)
    requires
        row_flags@.len() == lines_of(content@).len(),
        sep_flags@.len() == lines_of(content@).len(),
    ensures
        frag_list_view(r@) == frag_views(
            fragments_from(lines_of(content@), row_flags@, sep_flags@, ends_nl(content@), 0),
        ),
{
    let c = chars_of(content);
    let lines = split_lines(c.as_slice());
    let nl = c.len() > 0 && c[c.len() - 1] == '\n';
    proof {
        lemma_encode_len(content@);
    }
    let bytes = content.as_bytes();
    let blen = bytes.len();
    assert(blen == encode_utf8(content@).len()) by {
        assert(content.spec_bytes() == encode_utf8(content@));
    }
    let boff = line_offsets(&lines, nl, true, blen, Ghost(c@));
    let frags = detect_core(&lines, row_flags, sep_flags, &boff, nl, Ghost(c@));
    firsts(frags)
}

/// Detect the tables in Markdown content: maximal runs of lines that match
/// [`TABLE_ROW_PATTERN`], with the separator rows that match
/// [`TABLE_SEPARATOR_PATTERN`].
pub fn detect_table_fragments(content: &str) -> (r: Vec<TableFragment>)
    ensures
        frag_list_view(r@) == frag_views(fragments_in(content@)),
{
    let (_c, _lines, frags, _coff) = scan_tables(content);
    firsts(frags)
}

// ---------------------------------------------------------------------
// Merging
// ---------------------------------------------------------------------

/// Whether the second table continues the first: the first ends its
/// content, the second starts its content, their column counts agree (or
/// one is zero), and the second has no header or repeats the first one's.
pub open spec fn can_merge(a: FragmentView, b: FragmentView) -> bool {
    if !a.at_content_end {
        false
    } else if !b.at_content_start {
        false
    } else if a.column_count != b.column_count && a.column_count > 0 && b.column_count > 0 {
        false
    } else if !b.has_header {
        true
    } else {
        a.headers is Some && b.headers is Some && a.headers == b.headers
    }
}

/// The cell lists are equal.
fn cells_eq(a: &Vec<String>, b: &Vec<String>) -> (r: bool)
    ensures
        r == (a.deep_view() == b.deep_view()),
{
    if a.len() != b.len() {
        assert(a.deep_view().len() != b.deep_view().len());
        return false;
    }
    let mut k: usize = 0;
    while k < a.len()
        invariant
            a@.len() == b@.len(),
            k <= a@.len(),
            forall|j: int| 0 <= j < k ==> a@[j]@ == b@[j]@,
        decreases a@.len() - k,
    {
        if !(a[k] == b[k]) {
            assert(a.deep_view()[k as int] != b.deep_view()[k as int]);
            return false;
        }
        k += 1;
    }
    assert(a.deep_view() =~= b.deep_view());
    true
}

/// Check whether two table fragments can be merged (the second continues
/// the first).
pub fn can_merge_tables(first: &TableFragment, second: &TableFragment) -> (r: bool)
    ensures
        r == can_merge(first@, second@),
{
    if !first.at_content_end {
        return false;
    }
    if !second.at_content_start {
        return false;
    }
    if first.column_count != second.column_count && first.column_count > 0 && second.column_count > 0 {
        return false;
    }
    if !second.has_header {
        return true;
    }
    match (&first.headers, &second.headers) {
        (Some(h1), Some(h2)) => {
            if cells_eq(h1, h2) {
                return true;
            }
        },
        _ => {},
    }
    false
}

/// The cells padded with empty cells up to `col` cells.
pub open spec fn pad(cells: Seq<Seq<char>>, col: nat) -> Seq<Seq<char>> {
    if cells.len() < col {
        cells + Seq::new((col - cells.len()) as nat, |i: int| Seq::<char>::empty())
    } else {
        cells
    }
}

/// A Markdown table row: `| a | b |` and a newline.
pub open spec fn row_line(cells: Seq<Seq<char>>, col: nat) -> Seq<char> {
    "| "@ + join(pad(cells, col), " | "@) + " |\n"@
}

/// The header separator row with `col` columns.
pub open spec fn separator_line(col: nat) -> Seq<char> {
    "| "@ + join(Seq::new(col, |i: int| "---"@), " | "@) + " |\n"@
}

/// The rows, one line each.
pub open spec fn rows_text(rows: Seq<Seq<Seq<char>>>, col: nat) -> Seq<char>
    decreases rows.len(),
{
    if rows.len() == 0 {
        seq![]
    } else {
        rows_text(rows.drop_last(), col) + row_line(rows.last(), col)
    }
}

/// The Markdown table with the headers (if any) and rows, padded to the
/// column count (or, when it is zero, to the header's or first row's
/// length); empty when there is nothing to size it by.
pub open spec fn build_table(headers: Option<Seq<Seq<char>>>, rows: Seq<Seq<Seq<char>>>, cc: nat) -> Seq<char> {
    let col: int = if cc > 0 {
        cc as int
    } else if headers is Some {
        headers.unwrap().len() as int
    } else if rows.len() > 0 {
        rows[0].len() as int
    } else {
        -1
    };
    if col < 0 {
        seq![]
    } else {
        (match headers {
            Some(h) => row_line(h, col as nat) + separator_line(col as nat),
            None => seq![],
        }) + rows_text(rows, col as nat)
    }
}

/// Appends the row line for `cells` padded to `col` columns.
fn push_row_line(out: &mut Vec<char>, cells: &Vec<String>, col: usize)
    ensures
        final(out)@ == old(out)@ + row_line(cells.deep_view(), col as nat),
{
    let ghost start = out@;
    let ghost p = pad(cells.deep_view(), col as nat);
    let n = if cells.len() < col {
        col
    } else {
        cells.len()
    };
    assert(p.len() == n);
    extend_str(out, "| ");
    let mut k: usize = 0;
    while k < n
        invariant
            n == p.len(),
            k <= n,
            p == pad(cells.deep_view(), col as nat),
            out@ == start + "| "@ + join(p.take(k as int), " | "@),
        decreases n - k,
    {
        assert(p.take(k + 1).drop_last() =~= p.take(k as int));
        if k > 0 {
            extend_str(out, " | ");
        }
        if k < cells.len() {
            assert(p[k as int] == cells@[k as int]@);
            extend_str(out, cells[k].as_str());
        } else {
            assert(p[k as int] =~= Seq::<char>::empty());
        }
        proof {
            if k == 0 {
                assert(p.take(1) =~= seq![p[0]]);
            }
            assert(p.take(k + 1).last() == p[k as int]);
        }
        assert(out@ =~= start + "| "@ + join(p.take(k + 1), " | "@));
        k += 1;
    }
    assert(p.take(n as int) =~= p);
    extend_str(out, " |\n");
    assert(out@ =~= start + row_line(cells.deep_view(), col as nat));
}

/// Appends the separator row with `col` columns.
fn push_separator_line(out: &mut Vec<char>, col: usize)
    ensures
        final(out)@ == old(out)@ + separator_line(col as nat),
{
    let ghost start = out@;
    let ghost p = Seq::new(col as nat, |i: int| "---"@);
    extend_str(out, "| ");
    let mut k: usize = 0;
    while k < col
        invariant
            k <= col,
            p == Seq::new(col as nat, |i: int| "---"@),
            out@ == start + "| "@ + join(p.take(k as int), " | "@),
        decreases col - k,
    {
        assert(p.take(k + 1).drop_last() =~= p.take(k as int));
        if k > 0 {
            extend_str(out, " | ");
        }
        extend_str(out, "---");
        proof {
            if k == 0 {
                assert(p.take(1) =~= seq!["---"@]);
            }
            assert(p.take(k + 1).last() == "---"@);
        }
        assert(out@ =~= start + "| "@ + join(p.take(k + 1), " | "@));
        k += 1;
    }
    assert(p.take(col as int) =~= p);
    extend_str(out, " |\n");
    assert(out@ =~= start + separator_line(col as nat));
}

/// Build a Markdown table from headers and rows.
fn build_markdown_table(headers: &Option<Vec<String>>, rows: &Vec<Vec<String>>, column_count: usize) -> (r: String)
    ensures
        r@ == build_table(opt_cells_view(*headers), rows.deep_view(), column_count as nat),
{
    let col: usize = if column_count > 0 {
        column_count
    } else {
        match headers {
            Some(h) => h.len(),
            None => {
                if rows.len() > 0 {
                    rows[0].len()
                } else {
                    let empty: Vec<char> = Vec::new();
                    return to_string(empty.as_slice());
                }
            },
        }
    };
    let mut out: Vec<char> = Vec::new();
    match headers {
        Some(h) => {
            push_row_line(&mut out, h, col);
            push_separator_line(&mut out, col);
        },
        None => {},
    }
    let ghost start = out@;
    let mut k: usize = 0;
    while k < rows.len()
        invariant
            k <= rows@.len(),
            out@ == start + rows_text(rows.deep_view().take(k as int), col as nat),
        decreases rows@.len() - k,
    {
        let ghost rv = rows.deep_view();
        assert(rv.take(k + 1).drop_last() =~= rv.take(k as int));
        assert(rv.take(k + 1).last() == rows@[k as int].deep_view());
        push_row_line(&mut out, &rows[k], col);
        assert(out@ =~= start + rows_text(rv.take(k + 1), col as nat));
        k += 1;
    }
    assert(rows.deep_view().take(k as int) =~= rows.deep_view());
    proof {
        if column_count == 0 && headers.is_none() {
            assert(rows.deep_view()[0].len() == rows@[0]@.len());
        }
    }
    to_string(out.as_slice())
}

/// The merge of two tables: the first's header (or else the second's),
/// the data rows of both, and the larger column count.
pub open spec fn merge_spec(a: FragmentView, b: FragmentView) -> FragmentView {
    let rows = a.data_rows + b.data_rows;
    let headers = if a.headers is Some {
        a.headers
    } else {
        b.headers
    };
    let cc = if a.column_count >= b.column_count {
        a.column_count
    } else {
        b.column_count
    };
    FragmentView {
        content: build_table(headers, rows, cc),
        start_pos: 0,
        end_pos: 0,
        has_header: headers is Some,
        is_complete: true,
        at_content_start: a.at_content_start,
        at_content_end: b.at_content_end,
        column_count: cc,
        headers: headers,
        data_rows: rows,
    }
}

/// A copy of the cells.
fn clone_cells(v: &Vec<String>) -> (r: Vec<String>)
    ensures
        r.deep_view() == v.deep_view(),
{
    let mut out: Vec<String> = Vec::new();
    let mut k: usize = 0;
    while k < v.len()
        invariant
            k <= v@.len(),
            out.deep_view() =~= v.deep_view().take(k as int),
        decreases v@.len() - k,
    {
        let s = v[k].clone();
        let ghost before = out.deep_view();
        out.push(s);
        assert(out.deep_view() =~= before.push(v@[k as int]@));
        assert(v.deep_view().take(k + 1) =~= v.deep_view().take(k as int).push(v@[k as int]@));
        k += 1;
    }
    assert(v.deep_view().take(k as int) =~= v.deep_view());
    out
}

/// Appends copies of the rows to `out`.
fn append_rows(out: &mut Vec<Vec<String>>, rows: &Vec<Vec<String>>)
    ensures
        final(out).deep_view() == old(out).deep_view() + rows.deep_view(),
{
    let ghost start = out.deep_view();
    let mut k: usize = 0;
    while k < rows.len()
        invariant
            k <= rows@.len(),
            out.deep_view() =~= start + rows.deep_view().take(k as int),
        decreases rows@.len() - k,
    {
        let row = clone_cells(&rows[k]);
        let ghost before = out.deep_view();
        out.push(row);
        assert(out.deep_view() =~= before.push(rows@[k as int].deep_view()));
        assert(rows.deep_view().take(k + 1) =~= rows.deep_view().take(k as int).push(rows@[k as int].deep_view()));
        k += 1;
    }
    assert(rows.deep_view().take(k as int) =~= rows.deep_view());
}

/// Merge two table fragments into one.
pub fn merge_table_fragments(first: &TableFragment, second: &TableFragment) -> (r: TableFragment)
    ensures
        r@ == merge_spec(first@, second@),
{
    let mut rows: Vec<Vec<String>> = Vec::new();
    append_rows(&mut rows, &first.data_rows);
    append_rows(&mut rows, &second.data_rows);
    assert(rows.deep_view() =~= first@.data_rows + second@.data_rows);
    let headers: Option<Vec<String>> = match &first.headers {
        Some(h) => Some(clone_cells(h)),
        None => match &second.headers {
            Some(h) => Some(clone_cells(h)),
            None => None,
        },
    };
    let cc = if first.column_count >= second.column_count {
        first.column_count
    } else {
        second.column_count
    };
    let content = build_markdown_table(&headers, &rows, cc);
    let has_header = headers.is_some();
    TableFragment {
        content,
        start_pos: 0,
        end_pos: 0,
        has_header,
        is_complete: true,
        at_content_start: first.at_content_start,
        at_content_end: second.at_content_end,
        column_count: cc,
        headers,
        data_rows: rows,
    }
}


/// The content of one page after merging.
#[derive(Debug)]
pub struct MergedPageContent {
    /// The page number this content belongs to.
    pub page_number: u32,
    /// The (possibly modified) Markdown content.
    pub content: String,
    /// Whether a table from the next page was merged into this one.
    pub merged_from_next: bool,
    /// Whether a table of this page was merged into the previous page.
    pub merged_into_previous: bool,
}

/// The mathematical content of a [`MergedPageContent`].
pub struct PageView {
    pub page_number: u32,
    pub content: Seq<char>,
    pub merged_from_next: bool,
    pub merged_into_previous: bool,
}

impl View for MergedPageContent {
    type V = PageView;

    open spec fn view(&self) -> PageView {
        PageView {
            page_number: self.page_number,
            content: self.content@,
            merged_from_next: self.merged_from_next,
            merged_into_previous: self.merged_into_previous,
        }
    }
}

pub proof fn lemma_fragment_ranges(
    ls: Seq<Seq<char>>,
    row: Seq<bool>,
    sep: Seq<bool>,
    nl: bool,
    i: int,
)
    requires
        0 <= i,
    ensures
        forall|j: int|
            0 <= j < fragments_from(ls, row, sep, nl, i).len() ==> {
                let f = #[trigger] fragments_from(ls, row, sep, nl, i)[j];
                i <= f.1 < f.2 <= row.len()
            },
    decreases row.len() - i,
{
    if i < row.len() {
        if row[i] {
            let e = run_end(row, i);
            lemma_run_end(row, i);
            lemma_fragment_ranges(ls, row, sep, nl, e);
            let f = fragments_from(ls, row, sep, nl, i);
            assert(f == seq![(fragment_at(ls, sep, nl, i, e), i, e)] + fragments_from(ls, row, sep, nl, e));
            assert forall|j: int| 0 <= j < f.len() implies i <= #[trigger] f[j].1 < f[j].2 <= row.len() by {
                if j > 0 {
                    assert(f[j] == fragments_from(ls, row, sep, nl, e)[j - 1]);
                }
            }
        } else {
            lemma_fragment_ranges(ls, row, sep, nl, i + 1);
            assert(fragments_from(ls, row, sep, nl, i) == fragments_from(ls, row, sep, nl, i + 1));
        }
    } else {
        assert(fragments_from(ls, row, sep, nl, i).len() == 0);
    }
}

/// A table of `c` spans a non-empty range of characters inside `c`.
pub proof fn lemma_fragment_span(c: Seq<char>, j: int)
    requires
        0 <= j < fragments_in(c).len(),
    ensures
        ({
            let f = fragments_in(c)[j];
            let ls = lines_of(c);
            &&& 0 <= f.1 < f.2 <= ls.len()
            &&& offset(ls, f.1, ends_nl(c), false) < offset(ls, f.2, ends_nl(c), false)
            &&& offset(ls, f.2, ends_nl(c), false) <= c.len()
        }),
{
    let ls = lines_of(c);
    lemma_fragment_ranges(ls, row_flags(ls), sep_flags(ls), ends_nl(c), 0);
    let f = fragments_in(c)[j];
    lemma_offsets(c, f.1, f.2, false);
    lemma_wsum_len(c);
}

/// The pages after merging, when pages before `i` are done and page `j`
/// (after `i`) is the next page that page `i` can take rows from: a table
/// ending page `i` that continues at the start of page `j` is merged into
/// page `i`; once page `j` is left blank the open table is carried on to the
/// page after it.
pub open spec fn merge_pages_from(res: Seq<PageView>, i: int, j: int) -> Seq<PageView>
    decreases res.len() - i, res.len() - j, (if 0 <= j < res.len() {
        res[j].content.len()
    } else {
        0
    }),
{
    if i < 0 || j <= i || j >= res.len() {
        res
    } else {
        let ci = res[i].content;
        let cn = res[j].content;
        let cur = fragments_in(ci);
        let nxt = fragments_in(cn);
        if cur.len() > 0 && cur.last().0.at_content_end && nxt.len() > 0 && can_merge(
            cur.last().0,
            nxt[0].0,
        ) {
            let last = cur.last();
            let first = nxt[0];
            let m = merge_spec(last.0, first.0);
            let s1 = offset(lines_of(ci), last.1, ends_nl(ci), false) as int;
            let e1 = offset(lines_of(ci), last.2, ends_nl(ci), false) as int;
            let s2 = offset(lines_of(cn), first.1, ends_nl(cn), false) as int;
            let e2 = offset(lines_of(cn), first.2, ends_nl(cn), false) as int;
            let pi = PageView {
                page_number: res[i].page_number,
                content: ci.take(s1) + m.content + ci.skip(e1),
                merged_from_next: true,
                merged_into_previous: res[i].merged_into_previous,
            };
            let pn = PageView {
                page_number: res[j].page_number,
                content: cn.take(s2) + cn.skip(e2),
                merged_from_next: res[j].merged_from_next,
                merged_into_previous: true,
            };
            proof {
                lemma_fragment_span(cn, 0);
            }
            if trim(pn.content).len() == 0 {
                merge_pages_from(res.update(i, pi).update(j, pn), i, j + 1)
            } else {
                merge_pages_from(res.update(i, pi).update(j, pn), i, j)
            }
        } else {
            merge_pages_from(res, i + 1, i + 2)
        }
    }
}

/// The pages before merging.
pub open spec fn initial_pages(pages: Seq<(u32, String)>) -> Seq<PageView> {
    pages.map_values(
        |p: (u32, String)|
            PageView {
                page_number: p.0,
                content: p.1@,
                merged_from_next: false,
                merged_into_previous: false,
            },
    )
}

/// The views of merged pages.
pub open spec fn pages_view(v: Seq<MergedPageContent>) -> Seq<PageView> {
    v.map_values(|p: MergedPageContent| p@)
}

/// Merge tables across consecutive pages: a table that ends a page and
/// continues at the start of the next page is merged into one table on the
/// first page and removed from the next; this repeats while the merged table
/// keeps continuing, past pages that it leaves blank, so that a table that
/// spans pages stands whole on the page where it starts.
pub fn merge_tables_across_pages(pages: &[(u32, String)]) -> (r: Vec<MergedPageContent>)
    ensures
        pages_view(r@) == merge_pages_from(initial_pages(pages@), 0, 1),
{
    let mut res: Vec<MergedPageContent> = Vec::new();
    let mut k: usize = 0;
    while k < pages.len()
        invariant
            k <= pages@.len(),
            pages_view(res@) =~= initial_pages(pages@).take(k as int),
        decreases pages@.len() - k,
    {
        let p = MergedPageContent {
            page_number: pages[k].0,
            content: pages[k].1.clone(),
            merged_from_next: false,
            merged_into_previous: false,
        };
        assert(p@ == initial_pages(pages@)[k as int]);
        let ghost before = res@;
        res.push(p);
        assert(pages_view(res@) =~= pages_view(before).push(p@));
        assert(pages_view(res@) =~= initial_pages(pages@).take(k + 1));
        k += 1;
    }
    assert(initial_pages(pages@).take(k as int) =~= initial_pages(pages@));
    let ghost goal = merge_pages_from(initial_pages(pages@), 0, 1);
    if res.len() == 0 {
        return res;
    }
    let mut i: usize = 0;
    let mut j: usize = 1;
    while j < res.len()
        invariant
            res@.len() > 0,
            i < j,
            goal == merge_pages_from(pages_view(res@), i as int, j as int),
        decreases res@.len() - i, res@.len() - j, (if j < res@.len() {
            res@[j as int]@.content.len()
        } else {
            0
        }),
    {
        let (c1, _l1, f1, off1) = scan_tables(res[i].content.as_str());
        let (c2, _l2, f2, off2) = scan_tables(res[j].content.as_str());
        let ghost rv = pages_view(res@);
        let n1 = f1.len();
        let n2 = f2.len();
        if n1 > 0 && f1[n1 - 1].0.at_content_end && n2 > 0 && can_merge_tables(&f1[n1 - 1].0, &f2[0].0) {
            assert(triple_view(f1@)[n1 - 1] == fragments_in(rv[i as int].content).last());
            assert(triple_view(f2@)[0] == fragments_in(rv[j as int].content)[0]);
            let merged = merge_table_fragments(&f1[n1 - 1].0, &f2[0].0);
            proof {
                lemma_fragment_span(rv[i as int].content, n1 - 1);
                lemma_fragment_span(rv[j as int].content, 0);
            }
            let s1 = off1[f1[n1 - 1].1];
            let e1 = off1[f1[n1 - 1].2];
            let s2 = off2[f2[0].1];
            let e2 = off2[f2[0].2];
            let mut new1 = sub_vec(c1.as_slice(), 0, s1);
            let mc = chars_of(merged.content.as_str());
            extend_chars(&mut new1, mc.as_slice());
            let tail1 = sub_vec(c1.as_slice(), e1, c1.len());
            extend_chars(&mut new1, tail1.as_slice());
            let mut new2 = sub_vec(c2.as_slice(), 0, s2);
            let tail2 = sub_vec(c2.as_slice(), e2, c2.len());
            extend_chars(&mut new2, tail2.as_slice());
            let p1 = MergedPageContent {
                page_number: res[i].page_number,
                content: to_string(new1.as_slice()),
                merged_from_next: true,
                merged_into_previous: res[i].merged_into_previous,
            };
            let p2 = MergedPageContent {
                page_number: res[j].page_number,
                content: to_string(new2.as_slice()),
                merged_from_next: res[j].merged_from_next,
                merged_into_previous: true,
            };
            res.set(i, p1);
            res.set(j, p2);
            assert(c1@.take(s1 as int) =~= c1@.subrange(0, s1 as int));
            assert(c1@.skip(e1 as int) =~= c1@.subrange(e1 as int, c1@.len() as int));
            assert(c2@.take(s2 as int) =~= c2@.subrange(0, s2 as int));
            assert(c2@.skip(e2 as int) =~= c2@.subrange(e2 as int, c2@.len() as int));
            assert(pages_view(res@) =~= rv.update(i as int, p1@).update(j as int, p2@));
            if is_blank(new2.as_slice()) {
                j += 1;
            }
        } else {
            i += 1;
            j = i + 1;
        }
    }
    res
}

} // verus!
