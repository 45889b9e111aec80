//! Text recovery from binary Office streams: UTF-16 and single-byte
//! decoding, runs of readable characters, and whitespace clean-up.
use vstd::prelude::*;
use crate::chars::{char_from_u32, is_alnum, is_alpha, is_alphabetic, is_alphanumeric, valid_scalar};
use crate::legacy_office::{le16, le16_spec, le32, le32_spec, DocConverter};
use crate::table_merge::{byte_len, wsum};
use crate::text::{is_whitespace, is_ws, sub_vec, trim, trim_chars};

verus! {

// ---------------------------------------------------------------------
// Code units and decoding
// ---------------------------------------------------------------------

/// The little-endian 16-bit units of the data (a final odd byte is
/// ignored).
pub open spec fn utf16_units(d: Seq<u8>) -> Seq<u16> {
    Seq::new(d.len() / 2, |i: int| le16_spec(d[2 * i], d[2 * i + 1]) as u16)
}

/// The characters that `char::decode_utf16` yields for the units, with the
/// unpaired surrogates it reports as errors left out.
pub open spec fn utf16_chars(u: Seq<u16>) -> Seq<char>
    decreases u.len(),
{
    if u.len() == 0 {
        seq![]
    } else {
        let a = u[0];
        if a < 0xD800 || a > 0xDFFF {
            seq![(a as u32) as char] + utf16_chars(u.drop_first())
        } else if a <= 0xDBFF && u.len() >= 2 && 0xDC00 <= u[1] && u[1] <= 0xDFFF {
            seq![((((a - 0xD800) * 0x400) + (u[1] - 0xDC00) + 0x10000) as u32) as char] + utf16_chars(
                u.skip(2),
            )
        } else {
            utf16_chars(u.drop_first())
        }
    }
}

/// A character kept by the control-character filter of the decoders.
pub open spec fn keep_char(c: char) -> bool {
    c >= ' ' || c == '\n' || c == '\r' || c == '\t'
}

/// Control characters dropped and carriage returns turned into newlines.
pub open spec fn keep_map(s: Seq<char>) -> Seq<char>
    decreases s.len(),
{
    if s.len() == 0 {
        seq![]
    } else {
        keep_map(s.drop_last()) + (if keep_char(s.last()) {
            seq![
                if s.last() == '\r' {
                    '\n'
                } else {
                    s.last()
                },
            ]
        } else {
            seq![]
        })
    }
}

/// Decodes the UTF-16 units of the data.
pub fn decode_utf16_units(data: &[u8]) -> (r: Vec<char>)
    ensures
        r@ == utf16_chars(utf16_units(data@)),
{
    let ghost u = utf16_units(data@);
    let m = data.len() / 2;
    let mut out: Vec<char> = Vec::new();
    let mut k: usize = 0;
    assert(u.skip(0) =~= u);
    while k < m
        invariant
            m == u.len(),
            m * 2 <= data@.len(),
            k <= m,
            u == utf16_units(data@),
            utf16_chars(u) == out@ + utf16_chars(u.skip(k as int)),
        decreases m - k,
    {
        let ghost rest = u.skip(k as int);
        let a = le16(data[2 * k], data[2 * k + 1]);
        assert(rest[0] == a);
        if a < 0xD800 || a > 0xDFFF {
            let c = char_from_u32(a as u32);
            out.push(c.unwrap());
            assert(rest.drop_first() =~= u.skip(k + 1));
            k += 1;
        } else if a <= 0xDBFF && k + 1 < m {
            let b = le16(data[2 * k + 2], data[2 * k + 3]);
            assert(rest[1] == b);
            if 0xDC00 <= b && b <= 0xDFFF {
                let v: u32 = ((a as u32 - 0xD800) * 0x400) + (b as u32 - 0xDC00) + 0x10000;
                let c = char_from_u32(v);
                out.push(c.unwrap());
                assert(rest.skip(2) =~= u.skip(k + 2));
                k += 2;
            } else {
                assert(rest.drop_first() =~= u.skip(k + 1));
                k += 1;
            }
        } else {
            assert(rest.drop_first() =~= u.skip(k + 1));
            k += 1;
        }
    }
    assert(u.skip(k as int) =~= Seq::<u16>::empty());
    out
}

/// Applies the control-character filter of the decoders.
pub fn keep_map_chars(s: &[char]) -> (r: Vec<char>)
    ensures
        r@ == keep_map(s@),
{
    let mut out: Vec<char> = Vec::new();
    let mut k: usize = 0;
    while k < s.len()
        invariant
            k <= s@.len(),
            out@ == keep_map(s@.take(k as int)),
        decreases s@.len() - k,
    {
        assert(s@.take(k + 1).drop_last() =~= s@.take(k as int));
        let c = s[k];
        if c >= ' ' || c == '\n' || c == '\r' || c == '\t' {
            if c == '\r' {
                out.push('\n');
            } else {
                out.push(c);
            }
        }
        assert(out@ =~= keep_map(s@.take(k + 1)));
        k += 1;
    }
    assert(s@.take(k as int) =~= s@);
    out
}

// ---------------------------------------------------------------------
// Clean-up
// ---------------------------------------------------------------------

/// A character kept by the clean-up filter.
pub open spec fn clean_keep(c: char) -> bool {
    c >= ' ' || c == '\n' || c == '\t'
}

/// Runs of whitespace collapsed: a newline is kept unless one was just
/// written; other whitespace becomes one space unless a space or newline was
/// just written; other characters are kept.
pub open spec fn collapse(s: Seq<char>, prev_space: bool, prev_newline: bool) -> Seq<char>
    decreases s.len(),
{
    if s.len() == 0 {
        seq![]
    } else {
        let c = s[0];
        if !clean_keep(c) {
            collapse(s.drop_first(), prev_space, prev_newline)
        } else if c == '\n' {
            (if !prev_newline {
                seq!['\n']
            } else {
                seq![]
            }) + collapse(s.drop_first(), false, true)
        } else if is_ws(c) {
            if !prev_space && !prev_newline {
                seq![' '] + collapse(s.drop_first(), true, prev_newline)
            } else {
                collapse(s.drop_first(), prev_space, prev_newline)
            }
        } else {
            seq![c] + collapse(s.drop_first(), false, false)
        }
    }
}

/// The extracted text cleaned up: control characters dropped, whitespace
/// collapsed, ends trimmed.
pub open spec fn clean_text(s: Seq<char>) -> Seq<char> {
    trim(collapse(s, false, false))
}

/// Cleans up extracted text.
pub fn clean_extracted_text(text: &[char]) -> (r: Vec<char>)
    ensures
        r@ == clean_text(text@),
{
    let mut out: Vec<char> = Vec::new();
    let mut ps = false;
    let mut pn = false;
    let mut k: usize = 0;
    assert(text@.skip(0) =~= text@);
    while k < text.len()
        invariant
            k <= text@.len(),
            collapse(text@, false, false) == out@ + collapse(text@.skip(k as int), ps, pn),
        decreases text@.len() - k,
    {
        let ghost rest = text@.skip(k as int);
        assert(rest[0] == text@[k as int]);
        assert(rest.drop_first() =~= text@.skip(k + 1));
        let c = text[k];
        let ghost before = out@;
        let ghost ps0 = ps;
        let ghost pn0 = pn;
        if !(c >= ' ' || c == '\n' || c == '\t') {
        } else if c == '\n' {
            if !pn {
                out.push('\n');
            }
            ps = false;
            pn = true;
        } else if is_whitespace(c) {
            if !ps && !pn {
                out.push(' ');
                ps = true;
            }
        } else {
            out.push(c);
            ps = false;
            pn = false;
        }
        assert(out@ + collapse(text@.skip(k + 1), ps, pn) =~= before + collapse(rest, ps0, pn0));
        k += 1;
    }
    assert(text@.skip(k as int) =~= Seq::<char>::empty());
    trim_chars(out.as_slice())
}

/// Number of alphabetic characters.
pub open spec fn alpha_count(s: Seq<char>) -> nat
    decreases s.len(),
{
    if s.len() == 0 {
        0
    } else {
        alpha_count(s.drop_last()) + (if is_alpha(s.last()) {
            1nat
        } else {
            0nat
        })
    }
}

/// Counts the alphabetic characters.
pub fn count_alphabetic(s: &[char]) -> (r: usize)
    ensures
        r == alpha_count(s@),
        r <= s@.len(),
{
    let mut n: usize = 0;
    let mut k: usize = 0;
    while k < s.len()
        invariant
            k <= s@.len(),
            n == alpha_count(s@.take(k as int)),
            n <= k,
        decreases s@.len() - k,
    {
        assert(s@.take(k + 1).drop_last() =~= s@.take(k as int));
        if is_alphabetic(s[k]) {
            n += 1;
        }
        k += 1;
    }
    assert(s@.take(k as int) =~= s@);
    n
}


// ---------------------------------------------------------------------
// Windows-1252
// ---------------------------------------------------------------------

/// The character of a Windows-1252 byte (bytes below 0x80 and from 0xA0
/// map to the same code point).
pub open spec fn cp1252(b: u8) -> char {
    if b < 0x80 || b >= 0xA0 {
        b as char
    } else if b == 0x80 {
        '\u{20AC}'
    } else if b == 0x81 {
        '\u{81}'
    } else if b == 0x82 {
        '\u{201A}'
    } else if b == 0x83 {
        '\u{192}'
    } else if b == 0x84 {
        '\u{201E}'
    } else if b == 0x85 {
        '\u{2026}'
    } else if b == 0x86 {
        '\u{2020}'
    } else if b == 0x87 {
        '\u{2021}'
    } else if b == 0x88 {
        '\u{2C6}'
    } else if b == 0x89 {
        '\u{2030}'
    } else if b == 0x8A {
        '\u{160}'
    } else if b == 0x8B {
        '\u{2039}'
    } else if b == 0x8C {
        '\u{152}'
    } else if b == 0x8D {
        '\u{8D}'
    } else if b == 0x8E {
        '\u{17D}'
    } else if b == 0x8F {
        '\u{8F}'
    } else if b == 0x90 {
        '\u{90}'
    } else if b == 0x91 {
        '\u{2018}'
    } else if b == 0x92 {
        '\u{2019}'
    } else if b == 0x93 {
        '"'
    } else if b == 0x94 {
        '"'
    } else if b == 0x95 {
        '\u{2022}'
    } else if b == 0x96 {
        '\u{2013}'
    } else if b == 0x97 {
        '\u{2014}'
    } else if b == 0x98 {
        '\u{2DC}'
    } else if b == 0x99 {
        '\u{2122}'
    } else if b == 0x9A {
        '\u{161}'
    } else if b == 0x9B {
        '\u{203A}'
    } else if b == 0x9C {
        '\u{153}'
    } else if b == 0x9D {
        '\u{9D}'
    } else if b == 0x9E {
        '\u{17E}'
    } else {
        '\u{178}'
    }
}

/// The Windows-1252 character of a byte.
pub fn cp1252_char(b: u8) -> (r: char)
    ensures
        r == cp1252(b),
{
    if b < 0x80 || b >= 0xA0 {
        b as char
    } else if b == 0x80 {
        '\u{20AC}'
    } else if b == 0x81 {
        '\u{81}'
    } else if b == 0x82 {
        '\u{201A}'
    } else if b == 0x83 {
        '\u{192}'
    } else if b == 0x84 {
        '\u{201E}'
    } else if b == 0x85 {
        '\u{2026}'
    } else if b == 0x86 {
        '\u{2020}'
    } else if b == 0x87 {
        '\u{2021}'
    } else if b == 0x88 {
        '\u{2C6}'
    } else if b == 0x89 {
        '\u{2030}'
    } else if b == 0x8A {
        '\u{160}'
    } else if b == 0x8B {
        '\u{2039}'
    } else if b == 0x8C {
        '\u{152}'
    } else if b == 0x8D {
        '\u{8D}'
    } else if b == 0x8E {
        '\u{17D}'
    } else if b == 0x8F {
        '\u{8F}'
    } else if b == 0x90 {
        '\u{90}'
    } else if b == 0x91 {
        '\u{2018}'
    } else if b == 0x92 {
        '\u{2019}'
    } else if b == 0x93 {
        '"'
    } else if b == 0x94 {
        '"'
    } else if b == 0x95 {
        '\u{2022}'
    } else if b == 0x96 {
        '\u{2013}'
    } else if b == 0x97 {
        '\u{2014}'
    } else if b == 0x98 {
        '\u{2DC}'
    } else if b == 0x99 {
        '\u{2122}'
    } else if b == 0x9A {
        '\u{161}'
    } else if b == 0x9B {
        '\u{203A}'
    } else if b == 0x9C {
        '\u{153}'
    } else if b == 0x9D {
        '\u{9D}'
    } else if b == 0x9E {
        '\u{17E}'
    } else {
        '\u{178}'
    }
}

/// The bytes decoded as Windows-1252.
pub open spec fn cp1252_text(d: Seq<u8>) -> Seq<char> {
    d.map_values(|b: u8| cp1252(b))
}

/// Decodes bytes as Windows-1252.
pub fn decode_cp1252(d: &[u8]) -> (r: Vec<char>)
    ensures
        r@ == cp1252_text(d@),
{
    let mut out: Vec<char> = Vec::new();
    let mut k: usize = 0;
    while k < d.len()
        invariant
            k <= d@.len(),
            out@ =~= cp1252_text(d@.take(k as int)),
        decreases d@.len() - k,
    {
        out.push(cp1252_char(d[k]));
        assert(cp1252_text(d@.take(k + 1)) =~= cp1252_text(d@.take(k as int)).push(cp1252(d@[k as int])));
        k += 1;
    }
    assert(d@.take(k as int) =~= d@);
    out
}

// ---------------------------------------------------------------------
// Runs of readable UTF-16 text
// ---------------------------------------------------------------------

/// The 16-bit unit at byte position `i`.
pub open spec fn unit_at(d: Seq<u8>, i: int) -> u16 {
    le16_spec(d[i], d[i + 1]) as u16
}

/// Punctuation accepted in a run; `extended` adds German letters.
pub open spec fn run_punct(c: char, extended: bool) -> bool {
    c == '.' || c == ',' || c == ';' || c == ':' || c == '!' || c == '?' || c == '(' || c == ')' || c
        == '-' || c == '"' || c == '\'' || (extended && (c == '\u{e4}' || c == '\u{f6}' || c
        == '\u{fc}' || c == '\u{c4}' || c == '\u{d6}' || c == '\u{dc}' || c == '\u{df}'))
}

/// A character that continues a run.
pub open spec fn run_char(c: char, extended: bool) -> bool {
    is_alnum(c) || is_ws(c) || run_punct(c, extended)
}

/// Reading a run from byte position `i` with `run` read so far: the run
/// and the position where it stopped.
pub open spec fn run_from(d: Seq<u8>, i: int, run: Seq<char>, extended: bool) -> (Seq<char>, int)
    decreases d.len() - i,
{
    if i < 0 || i + 1 >= d.len() {
        (run, i)
    } else {
        let cu = unit_at(d, i);
        if valid_scalar(cu as u32) {
            let c = (cu as u32) as char;
            if run_char(c, extended) {
                run_from(d, i + 2, run.push(c), extended)
            } else if cu == 0x0D || cu == 0x0A {
                run_from(d, i + 2, run.push('\n'), extended)
            } else {
                (run, i)
            }
        } else {
            (run, i)
        }
    }
}

pub proof fn lemma_run_from(d: Seq<u8>, i: int, run: Seq<char>, extended: bool)
    requires
        0 <= i <= d.len(),
    ensures
        i <= run_from(d, i, run, extended).1 <= d.len(),
    decreases d.len() - i,
{
    if i + 1 < d.len() {
        let cu = unit_at(d, i);
        if valid_scalar(cu as u32) {
            let c = (cu as u32) as char;
            if run_char(c, extended) {
                lemma_run_from(d, i + 2, run.push(c), extended);
            } else if cu == 0x0D || cu == 0x0A {
                lemma_run_from(d, i + 2, run.push('\n'), extended);
            }
        }
    }
}

/// `result` followed by a space unless it is empty or ends with a newline.
pub open spec fn with_separator(result: Seq<char>) -> Seq<char> {
    if result.len() > 0 && result.last() != '\n' {
        result.push(' ')
    } else {
        result
    }
}

/// The UTF-16 text runs with at least three letters, read from position
/// `i` on and appended to `result`.
pub open spec fn utf16_runs_from(d: Seq<u8>, i: int, result: Seq<char>) -> Seq<char>
    decreases d.len() + 2 - i,
{
    if i < 0 || i + 1 >= d.len() {
        result
    } else {
        let (run, j) = run_from(d, i, seq![], false);
        proof {
            lemma_run_from(d, i, seq![], false);
        }
        let res2 = if alpha_count(run) >= 3 {
            with_separator(result) + run
        } else {
            result
        };
        utf16_runs_from(d, j + 2, res2)
    }
}

/// Whether the character continues a run.
fn is_run_char(c: char, extended: bool) -> (r: bool)
    ensures
        r == run_char(c, extended),
{
    is_alphanumeric(c) || is_whitespace(c) || c == '.' || c == ',' || c == ';' || c == ':' || c
        == '!' || c == '?' || c == '(' || c == ')' || c == '-' || c == '"' || c == '\'' || (extended
        && (c == '\u{e4}' || c == '\u{f6}' || c == '\u{fc}' || c == '\u{c4}' || c == '\u{d6}' || c
        == '\u{dc}' || c == '\u{df}'))
}

/// Reads a run from byte position `i`.
pub fn read_run(d: &[u8], i: usize, extended: bool) -> (r: (Vec<char>, usize))
    ensures
        (r.0@, r.1 as int) == run_from(d@, i as int, seq![], extended),
        r.1 >= i,
{
    let n = d.len();
    let mut run: Vec<char> = Vec::new();
    let mut j: usize = i;
    let mut stop = false;
    while !stop && j < n && n - j > 1
        invariant
            n == d@.len(),
            i <= j,
            !stop ==> run_from(d@, i as int, seq![], extended) == run_from(d@, j as int, run@, extended),
            stop ==> run_from(d@, i as int, seq![], extended) == (run@, j as int),
        decreases n - j + (if stop {
            0int
        } else {
            1int
        }),
    {
        let cu = le16(d[j], d[j + 1]);
        assert(cu == unit_at(d@, j as int));
        match char_from_u32(cu as u32) {
            Some(c) => {
                if is_run_char(c, extended) {
                    run.push(c);
                    j = j + 2;
                } else if cu == 0x0D || cu == 0x0A {
                    run.push('\n');
                    j = j + 2;
                } else {
                    stop = true;
                }
            },
            None => {
                stop = true;
            },
        }
    }
    (run, j)
}

/// The UTF-16 runs of readable text in the data (runs of letters, digits,
/// whitespace and punctuation with at least three letters), separated by
/// spaces.
pub fn find_utf16_runs(d: &[u8]) -> (r: Vec<char>)
    ensures
        r@ == utf16_runs_from(d@, 0, seq![]),
{
    let n = d.len();
    let mut result: Vec<char> = Vec::new();
    let mut i: usize = 0;
    while i < n && n - i > 1
        invariant
            n == d@.len(),
            utf16_runs_from(d@, 0, seq![]) == utf16_runs_from(d@, i as int, result@),
        decreases n - i,
    {
        let (run, j) = read_run(d, i, false);
        if count_alphabetic(run.as_slice()) >= 3 {
            if result.len() > 0 && result[result.len() - 1] != '\n' {
                result.push(' ');
            }
            let mut k: usize = 0;
            let ghost r0 = result@;
            while k < run.len()
                invariant
                    k <= run@.len(),
                    result@ == r0 + run@.take(k as int),
                decreases run@.len() - k,
            {
                result.push(run[k]);
                k += 1;
                assert(result@ =~= r0 + run@.take(k as int));
            }
            assert(run@.take(k as int) =~= run@);
        }
        if j >= n || n - j < 2 {
            assert(utf16_runs_from(d@, j + 2, result@) == result@);
            return result;
        }
        i = j + 2;
    }
    result
}

// ---------------------------------------------------------------------
// Runs of readable single-byte text
// ---------------------------------------------------------------------

/// Characters accepted in a single-byte run besides letters, digits and
/// whitespace.
pub open spec fn ansi_punct(c: char) -> bool {
    run_punct(c, false) || c == '\u{e4}' || c == '\u{f6}' || c == '\u{fc}' || c == '\u{c4}' || c
        == '\u{d6}' || c == '\u{dc}' || c == '\u{df}' || c == '\u{e9}' || c == '\u{e8}' || c
        == '\u{ea}' || c == '\u{eb}' || c == '\u{e0}' || c == '\u{e2}' || c == '\u{e1}' || c
        == '\u{ed}' || c == '\u{ec}' || c == '\u{ee}' || c == '\u{ef}' || c == '\u{f3}' || c
        == '\u{f2}' || c == '\u{f4}' || c == '\u{f5}' || c == '\u{fa}' || c == '\u{f9}' || c
        == '\u{fb}' || c == '\u{f1}' || c == '\u{e7}' || c == '\u{d1}'
}

/// A run is kept when it has at least four letters.
pub open spec fn flush_run(result: Seq<char>, run: Seq<char>) -> Seq<char> {
    if alpha_count(run) >= 4 {
        with_separator(result) + run
    } else {
        result
    }
}

/// Scanning the bytes from `k` with the result and current run so far:
/// the result and the last run.
pub open spec fn ansi_scan(d: Seq<u8>, k: int, result: Seq<char>, run: Seq<char>) -> (Seq<char>, Seq<char>)
    decreases d.len() - k,
{
    if k < 0 || k >= d.len() {
        (result, run)
    } else {
        let b = d[k];
        let c = b as char;
        if is_alnum(c) || is_ws(c) || ansi_punct(c) {
            ansi_scan(d, k + 1, result, run.push(c))
        } else if b == 0x0D || b == 0x0A {
            ansi_scan(d, k + 1, result, run.push('\n'))
        } else {
            ansi_scan(d, k + 1, flush_run(result, run), seq![])
        }
    }
}

/// The single-byte text runs of the data, if more than 20 bytes of text
/// were found.
pub open spec fn ansi_runs(d: Seq<u8>) -> Option<Seq<char>> {
    let (result, run) = ansi_scan(d, 0, seq![], seq![]);
    let fin = if alpha_count(run) >= 4 {
        (if result.len() > 0 {
            result.push(' ')
        } else {
            result
        }) + run
    } else {
        result
    };
    if wsum(fin, true) > 20 {
        Some(fin)
    } else {
        None
    }
}

fn is_ansi_run_char(c: char) -> (r: bool)
    ensures
        r == (is_alnum(c) || is_ws(c) || ansi_punct(c)),
{
    is_alphanumeric(c) || is_whitespace(c) || is_run_char_plain(c) || c == '\u{e4}' || c == '\u{f6}'
        || c == '\u{fc}' || c == '\u{c4}' || c == '\u{d6}' || c == '\u{dc}' || c == '\u{df}' || c
        == '\u{e9}' || c == '\u{e8}' || c == '\u{ea}' || c == '\u{eb}' || c == '\u{e0}' || c
        == '\u{e2}' || c == '\u{e1}' || c == '\u{ed}' || c == '\u{ec}' || c == '\u{ee}' || c
        == '\u{ef}' || c == '\u{f3}' || c == '\u{f2}' || c == '\u{f4}' || c == '\u{f5}' || c
        == '\u{fa}' || c == '\u{f9}' || c == '\u{fb}' || c == '\u{f1}' || c == '\u{e7}' || c
        == '\u{d1}'
}

fn is_run_char_plain(c: char) -> (r: bool)
    ensures
        r == run_punct(c, false),
{
    c == '.' || c == ',' || c == ';' || c == ':' || c == '!' || c == '?' || c == '(' || c == ')' || c
        == '-' || c == '"' || c == '\''
}

fn append(result: &mut Vec<char>, s: &[char])
    ensures
        final(result)@ == old(result)@ + s@,
{
    crate::text::extend_chars(result, s);
}

/// The single-byte text runs of the data (runs with at least four
/// letters), if more than 20 bytes of text were found.
pub fn find_ansi_runs(d: &[u8]) -> (r: Option<Vec<char>>)
    ensures
        match r {
            Some(v) => ansi_runs(d@) == Some(v@),
            None => ansi_runs(d@) is None,
        },
{
    let mut result: Vec<char> = Vec::new();
    let mut run: Vec<char> = Vec::new();
    let mut k: usize = 0;
    while k < d.len()
        invariant
            k <= d@.len(),
            ansi_scan(d@, 0, seq![], seq![]) == ansi_scan(d@, k as int, result@, run@),
        decreases d@.len() - k,
    {
        let b = d[k];
        let c = b as char;
        if is_ansi_run_char(c) {
            run.push(c);
        } else if b == 0x0D || b == 0x0A {
            run.push('\n');
        } else {
            if count_alphabetic(run.as_slice()) >= 4 {
                if result.len() > 0 && result[result.len() - 1] != '\n' {
                    result.push(' ');
                }
                append(&mut result, run.as_slice());
            }
            run = Vec::new();
        }
        k += 1;
    }
    if count_alphabetic(run.as_slice()) >= 4 {
        if result.len() > 0 {
            result.push(' ');
        }
        append(&mut result, run.as_slice());
    }
    if byte_len(result.as_slice()) > 20 {
        Some(result)
    } else {
        None
    }
}

// ---------------------------------------------------------------------
// Word documents
// ---------------------------------------------------------------------

/// The characters of an optional text.
pub open spec fn opt_chars(r: Option<Vec<char>>) -> Option<Seq<char>> {
    match r {
        Some(v) => Some(v@),
        None => None,
    }
}

/// Text is kept when it is longer than 10 bytes (UTF-8).
pub open spec fn over_ten_bytes(s: Seq<char>) -> Option<Seq<char>> {
    if wsum(s, true) > 10 {
        Some(s)
    } else {
        None
    }
}

/// The text of UTF-16 data: decoded, control characters dropped, cleaned
/// up, kept if longer than 10 bytes.
pub open spec fn utf16_text(d: Seq<u8>) -> Option<Seq<char>> {
    if d.len() < 2 {
        None
    } else {
        over_ten_bytes(clean_text(keep_map(utf16_chars(utf16_units(d)))))
    }
}

/// The text of Windows-1252 data, treated as [`utf16_text`] treats UTF-16.
pub open spec fn cp1252_decoded(d: Seq<u8>) -> Option<Seq<char>> {
    over_ten_bytes(clean_text(keep_map(cp1252_text(d))))
}

/// The text recovered from binary data: the UTF-16 runs, replaced by the
/// single-byte runs when those are longer and the UTF-16 runs are under 50
/// bytes; then cleaned up and kept if longer than 10 bytes.
pub open spec fn mixed_text(d: Seq<u8>) -> Option<Seq<char>> {
    let u = utf16_runs_from(d, 0, seq![]);
    let all = if wsum(u, true) < 50 {
        match ansi_runs(d) {
            Some(a) => if wsum(a, true) > wsum(u, true) {
                a
            } else {
                u
            },
            None => u,
        }
    } else {
        u
    };
    over_ten_bytes(clean_text(all))
}

/// The text of a WordDocument stream. Without the Word 97-2003 or Word
/// 6.0/95 magic the text is recovered by scanning; with it, the text range
/// starts at `fcMin` (offset 0x18) and holds `ccpText` (offset 0x4C)
/// characters of one byte, or of two when flag bit 0x400 (offset 0xA) is
/// set; a range that is empty, too long or out of the data falls back to
/// scanning.
pub open spec fn word_text(d: Seq<u8>) -> Option<Seq<char>> {
    if d.len() < 68 {
        None
    } else {
        let w = le16_spec(d[0], d[1]);
        if w != 0xA5EC && w != 0xA5DC {
            mixed_text(d)
        } else if d.len() > 0x50 {
            let ccp = le32_spec(d[0x4C], d[0x4D], d[0x4E], d[0x4F]) as int;
            let fc = le32_spec(d[0x18], d[0x19], d[0x1A], d[0x1B]) as int;
            let uni = (le16_spec(d[0xA], d[0xB]) as u16 & 0x400u16) != 0;
            let end = if uni {
                fc + 2 * ccp
            } else {
                fc + ccp
            };
            if 0 < fc < d.len() && end <= d.len() && 0 < ccp < 10_000_000 {
                if uni {
                    utf16_text(d.subrange(fc, end))
                } else {
                    cp1252_decoded(d.subrange(fc, end))
                }
            } else {
                mixed_text(d)
            }
        } else {
            mixed_text(d)
        }
    }
}

fn keep_if_long(s: Vec<char>) -> (r: Option<Vec<char>>)
    ensures
        opt_chars(r) == over_ten_bytes(s@),
{
    if byte_len(s.as_slice()) > 10 {
        Some(s)
    } else {
        None
    }
}

impl DocConverter {
    /// Decodes UTF-16LE text: unpaired surrogates and control characters
    /// other than newline, carriage return and tab dropped, carriage returns
    /// made newlines, then cleaned up; `None` for less than two bytes or a
    /// result of at most 10 bytes.
    pub fn decode_utf16_text(data: &[u8]) -> (r: Option<Vec<char>>)
        ensures
            opt_chars(r) == utf16_text(data@),
    {
        if data.len() < 2 {
            return None;
        }
        let decoded = decode_utf16_units(data);
        let kept = keep_map_chars(decoded.as_slice());
        keep_if_long(clean_extracted_text(kept.as_slice()))
    }

    /// Decodes Windows-1252 text the same way.
    pub fn decode_cp1252_text(data: &[u8]) -> (r: Option<Vec<char>>)
        ensures
            opt_chars(r) == cp1252_decoded(data@),
    {
        let decoded = decode_cp1252(data);
        let kept = keep_map_chars(decoded.as_slice());
        keep_if_long(clean_extracted_text(kept.as_slice()))
    }

    /// Recovers text from binary data by scanning for UTF-16 and
    /// single-byte runs.
    pub fn extract_unicode_and_ansi_text(data: &[u8]) -> (r: Option<Vec<char>>)
        ensures
            opt_chars(r) == mixed_text(data@),
    {
        let mut all = find_utf16_runs(data);
        let ulen = byte_len(all.as_slice());
        if ulen < 50 {
            if let Some(ansi) = find_ansi_runs(data) {
                if byte_len(ansi.as_slice()) > ulen {
                    all = ansi;
                }
            }
        }
        keep_if_long(clean_extracted_text(all.as_slice()))
    }

    /// The UTF-16 runs of readable text in the data.
    pub fn find_utf16_text_runs(data: &[u8]) -> (r: Vec<char>)
        ensures
            r@ == utf16_runs_from(data@, 0, seq![]),
    {
        find_utf16_runs(data)
    }

    /// The single-byte runs of readable text in the data.
    pub fn find_ansi_text_runs(data: &[u8]) -> (r: Option<Vec<char>>)
        ensures
            opt_chars(r) == ansi_runs(data@),
    {
        find_ansi_runs(data)
    }

    /// Cleans up extracted text.
    pub fn clean_extracted_text(text: &[char]) -> (r: Vec<char>)
        ensures
            r@ == clean_text(text@),
    {
        clean_extracted_text(text)
    }

    /// The text of a WordDocument stream.
    pub fn extract_text_from_word_document(data: &[u8]) -> (r: Option<Vec<char>>)
        ensures
            opt_chars(r) == word_text(data@),
    {
        let n = data.len();
        if n < 68 {
            return None;
        }
        let w = le16(data[0], data[1]);
        if w != 0xA5EC && w != 0xA5DC {
            return Self::extract_unicode_and_ansi_text(data);
        }
        if n > 0x50 {
            let ccp = le32(data[0x4C], data[0x4D], data[0x4E], data[0x4F]) as u64;
            let fc = le32(data[0x18], data[0x19], data[0x1A], data[0x1B]) as u64;
            let flags = le16(data[0xA], data[0xB]);
            let uni = (flags & 0x0400) != 0;
            let end: u64 = if uni {
                fc + 2 * ccp
            } else {
                fc + ccp
            };
            if fc > 0 && fc < n as u64 && end <= n as u64 && ccp > 0 && ccp < 10_000_000 {
                let t = sub_vec(data, fc as usize, end as usize);
                assert(t@ =~= data@.subrange(fc as int, end as int));
                if uni {
                    return Self::decode_utf16_text(t.as_slice());
                } else {
                    return Self::decode_cp1252_text(t.as_slice());
                }
            }
        }
        Self::extract_unicode_and_ansi_text(data)
    }
}

} // verus!
