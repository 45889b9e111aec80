//! Cutting off output that repeats itself: a model stuck in a loop can
//! write the same phrase or line many times. The text is cut at the first
//! repeated sample (byte windows sampled across the text), else at a run
//! of identical lines, else shortened to its first words when it is very
//! long.
use vstd::prelude::*;
use vstd::string::StringSliceAdditionalSpecFns;
use vstd::utf8::{decode_utf8, encode_utf8, is_char_boundary, valid_utf8};
use crate::chars::to_string;
use crate::text::{chars_of, extend_chars, extend_str, is_ws, join, join_range, lines_of, split_lines, trim, trim_chars};

verus! {

broadcast use vstd::utf8::group_utf8_lib;

/// The note added where repeated content was cut.
pub open spec fn repetition_note() -> Seq<char> {
    "\n\n[Note: Repetitive content detected and truncated]"@
}

/// The note added where very long output was shortened.
pub open spec fn length_note() -> Seq<char> {
    "\n\n[Note: Output truncated due to excessive length - possible repetition]"@
}

/// The nearest character boundary at or before `pos` (the end where `pos`
/// is past it).
pub open spec fn boundary_before(b: Seq<u8>, pos: int) -> int
    decreases pos,
{
    if pos >= b.len() {
        b.len() as int
    } else if pos <= 0 {
        0
    } else if is_char_boundary(b, pos) {
        pos
    } else {
        boundary_before(b, pos - 1)
    }
}

/// The first position from `start` where `p` occurs in `s`.
pub open spec fn find_bytes(s: Seq<u8>, p: Seq<u8>, start: int) -> Option<int>
    decreases s.len() - start,
{
    if start < 0 || start + p.len() > s.len() {
        None
    } else if p.len() == 0 || s.subrange(start, start + p.len()) == p {
        Some(start)
    } else {
        find_bytes(s, p, start + 1)
    }
}

/// A match found by [`find_bytes`] lies within `start..`.
pub proof fn lemma_find_bytes_bound(s: Seq<u8>, p: Seq<u8>, start: int)
    ensures
        find_bytes(s, p, start) matches Some(i) ==> start <= i && i + p.len() <= s.len(),
    decreases s.len() - start,
{
    if start >= 0 && start + p.len() <= s.len() && !(p.len() == 0 || s.subrange(start, start + p.len()) == p) {
        lemma_find_bytes_bound(s, p, start + 1);
    }
}

/// The number of non-overlapping occurrences of the non-empty `p` in `s`
/// from `start` on, found from left to right (as `str::matches` counts).
pub open spec fn count_bytes(s: Seq<u8>, p: Seq<u8>, start: int) -> nat
    decreases s.len() - start,
{
    if p.len() == 0 || start < 0 || start > s.len() {
        0
    } else {
        match find_bytes(s, p, start) {
            Some(j) => {
                proof {
                    lemma_find_bytes_bound(s, p, start);
                }
                1 + count_bytes(s, p, j + p.len())
            },
            None => 0,
        }
    }
}

/// The number of characters that are not whitespace.
pub open spec fn non_ws_count(s: Seq<char>) -> nat
    decreases s.len(),
{
    if s.len() == 0 {
        0
    } else {
        non_ws_count(s.drop_last()) + if is_ws(s.last()) {
            0nat
        } else {
            1nat
        }
    }
}

/// The window sizes tried, in order.
pub open spec fn window_size(w: int) -> int {
    if w == 0 {
        30
    } else if w == 1 {
        50
    } else if w == 2 {
        80
    } else {
        100
    }
}

/// The number of samples taken with a window: at most ten.
pub open spec fn sample_count(len: int, ws: int) -> int {
    if len / ws < 10 {
        len / ws
    } else {
        10
    }
}

/// The cut point found by sample `i` with window `ws`, if any: the sample
/// runs from the boundary at or before an evenly spaced position over `ws`
/// bytes (to a boundary); a sample that is at least a third non-whitespace
/// and occurs three or more times gives the boundary at or before twice its
/// length past its first occurrence.
pub open spec fn try_sample(b: Seq<u8>, ws: int, i: int) -> Option<int> {
    let len = b.len() as int;
    let start = boundary_before(b, (len / sample_count(len, ws)) * i);
    let end = boundary_before(b, start + ws);
    if end <= len && start < end {
        let sample = b.subrange(start, end);
        if non_ws_count(decode_utf8(sample)) < (end - start) / 3 {
            None
        } else if count_bytes(b, sample, 0) >= 3 {
            match find_bytes(b, sample, 0) {
                Some(fp) => Some(boundary_before(b, if fp + 2 * (end - start) < len { fp + 2 * (end - start) } else { len })),
                None => None,
            }
        } else {
            None
        }
    } else {
        None
    }
}

/// The first cut point found by the samples, trying the windows in order
/// from the `w`-th and, for each window long enough for the text, its
/// samples in order from the `i`-th.
pub open spec fn sampled_cut(b: Seq<u8>, w: int, i: int) -> Option<int>
    decreases 4 - w, 10 - i,
{
    if w < 0 || w >= 4 || i < 0 {
        None
    } else {
        let ws = window_size(w);
        let len = b.len() as int;
        if len > ws * 4 && i < sample_count(len, ws) {
            match try_sample(b, ws, i) {
                Some(e) => Some(e),
                None => sampled_cut(b, w, i + 1),
            }
        } else {
            sampled_cut(b, w + 1, 0)
        }
    }
}

/// The length in bytes of the UTF-8 encoding of the text.
pub open spec fn byte_len(s: Seq<char>) -> int {
    encode_utf8(s).len() as int
}

/// Scanning lines from `i` for a run of identical lines (trimmed, at least
/// ten bytes long; shorter lines are passed over): `Some(Some(k))` when
/// the fourth repetition is reached and the lines before `k` are kept (none
/// where the run starts at the first lines), `None` where no run is found.
pub open spec fn repeated_lines(ls: Seq<Seq<char>>, i: int, seen: int, last: Seq<char>) -> Option<int>
    decreases ls.len() - i,
{
    if i < 0 || i >= ls.len() {
        None
    } else {
        let t = trim(ls[i]);
        if t.len() == 0 || byte_len(t) < 10 {
            repeated_lines(ls, i + 1, seen, last)
        } else if t == last {
            if seen + 1 >= 4 {
                if i >= seen + 1 {
                    Some(i - (seen + 1))
                } else {
                    Some(0)
                }
            } else {
                repeated_lines(ls, i + 1, seen + 1, last)
            }
        } else {
            repeated_lines(ls, i + 1, 1, t)
        }
    }
}

/// The words of a text: its maximal runs of non-whitespace characters, as
/// `str::split_whitespace` gives them; `cur` is the word being read.
pub open spec fn words_acc(s: Seq<char>, cur: Seq<char>) -> Seq<Seq<char>>
    decreases s.len(),
{
    if s.len() == 0 {
        if cur.len() > 0 {
            seq![cur]
        } else {
            seq![]
        }
    } else if is_ws(s[0]) {
        if cur.len() > 0 {
            seq![cur] + words_acc(s.drop_first(), seq![])
        } else {
            words_acc(s.drop_first(), seq![])
        }
    } else {
        words_acc(s.drop_first(), cur.push(s[0]))
    }
}

/// `str::split_whitespace`.
pub open spec fn words_of(s: Seq<char>) -> Seq<Seq<char>> {
    words_acc(s, seq![])
}

/// What the text becomes: short text (under 500 bytes) is kept; else it is
/// cut where a sample repeats, else before a run of identical lines, else
/// a text of more than 5000 words keeps its first 3000; otherwise it is
/// kept.
pub open spec fn truncated_text(text: Seq<char>) -> Seq<char> {
    let b = encode_utf8(text);
    if b.len() < 500 {
        text
    } else {
        match sampled_cut(b, 0, 0) {
            Some(e) => decode_utf8(b.take(e)) + repetition_note(),
            None => match repeated_lines(lines_of(text), 0, 0, Seq::empty()) {
                Some(k) => join(lines_of(text).take(k), "\n"@) + repetition_note(),
                None => {
                    let ws = words_of(text);
                    if ws.len() > 5000 {
                        join(ws.take(3000), " "@) + length_note()
                    } else {
                        text
                    }
                },
            },
        }
    }
}

/// The boundary at or before `pos`.
fn find_char_boundary(s: &str, pos: usize) -> (r: usize)
    ensures
        r == boundary_before(s.spec_bytes(), pos as int),
        r <= s.spec_bytes().len(),
        is_char_boundary(s.spec_bytes(), r as int),
{
    let ghost b = s.spec_bytes();
    proof {
        vstd::utf8::is_char_boundary_start_end_of_seq(b);
    }
    let n = s.as_bytes().len();
    assert(n == b.len());
    if pos >= n {
        return n;
    }
    let mut idx = pos;
    while idx > 0 && !s.is_char_boundary(idx)
        invariant
            idx <= pos < b.len(),
            b == s.spec_bytes(),
            valid_utf8(b),
            boundary_before(b, idx as int) == boundary_before(b, pos as int),
        decreases idx,
    {
        idx -= 1;
    }
    idx
}

/// The first position from `start` where `p` occurs in `s`.
fn find_bytes_exec(s: &[u8], p: &[u8], start: usize) -> (r: Option<usize>)
    requires
        start <= s@.len(),
    ensures
        match r {
            Some(i) => find_bytes(s@, p@, start as int) == Some(i as int) && i + p@.len() <= s@.len(),
            None => find_bytes(s@, p@, start as int) is None,
        },
{
    let n = s.len();
    let m = p.len();
    if m > n - start {
        return None;
    }
    let mut i = start;
    while i <= n - m
        invariant
            n == s@.len(),
            m == p@.len(),
            start <= i <= n - m + 1,
            m <= n,
            find_bytes(s@, p@, start as int) == find_bytes(s@, p@, i as int),
        decreases n - i,
    {
        let mut k: usize = 0;
        let mut same = true;
        while k < m
            invariant
                n == s@.len(),
                m == p@.len(),
                k <= m,
                i + m <= n,
                same <==> (forall|j: int| 0 <= j < k ==> s@[i + j] == p@[j]),
            decreases p@.len() - k,
        {
            if s[i + k] != p[k] {
                same = false;
            }
            k += 1;
        }
        if same {
            assert(s@.subrange(i as int, i + p@.len()) =~= p@);
            return Some(i);
        }
        proof {
            let j = choose|j: int| 0 <= j < p@.len() && s@[i + j] != p@[j];
            assert(s@.subrange(i as int, i + p@.len())[j] != p@[j]);
        }
        i += 1;
    }
    None
}

/// The number of non-overlapping occurrences of the non-empty `p` in `s`.
fn count_bytes_exec(s: &[u8], p: &[u8]) -> (r: usize)
    requires
        p@.len() > 0,
    ensures
        r == count_bytes(s@, p@, 0),
{
    let len = s.len();
    let mut pos: usize = 0;
    let mut n: usize = 0;
    loop
        invariant
            len == s@.len(),
            pos <= s@.len(),
            p@.len() > 0,
            n <= pos,
            count_bytes(s@, p@, 0) == n + count_bytes(s@, p@, pos as int),
        decreases s@.len() - pos,
    {
        match find_bytes_exec(s, p, pos) {
            Some(j) => {
                proof {
                    lemma_find_bytes_bound(s@, p@, pos as int);
                }
                n = n + 1;
                pos = j + p.len();
            },
            None => {
                return n;
            },
        }
    }
}

/// The number of characters that are not whitespace.
fn non_ws_count_exec(s: &[char]) -> (r: usize)
    ensures
        r == non_ws_count(s@),
{
    let mut n: usize = 0;
    let mut i: usize = 0;
    while i < s.len()
        invariant
            i <= s@.len(),
            n <= i,
            n == non_ws_count(s@.take(i as int)),
        decreases s@.len() - i,
    {
        assert(s@.take(i + 1).drop_last() =~= s@.take(i as int));
        if !crate::text::is_whitespace(s[i]) {
            n = n + 1;
        }
        i += 1;
    }
    assert(s@.take(i as int) =~= s@);
    n
}

/// A character boundary of a text is one of its suffix from an earlier
/// boundary, shifted.
proof fn lemma_boundary_in_suffix(b: Seq<u8>, start: int, end: int)
    requires
        valid_utf8(b),
        is_char_boundary(b, start),
        is_char_boundary(b, end),
        0 <= start <= end <= b.len(),
    ensures
        valid_utf8(b.subrange(start, b.len() as int)),
        is_char_boundary(b.subrange(start, b.len() as int), end - start),
{
    let t = b.subrange(start, b.len() as int);
    vstd::utf8::valid_utf8_split(b, start);
    vstd::utf8::is_char_boundary_start_end_of_seq(t);
    if end < b.len() {
        vstd::utf8::is_char_boundary_iff_not_is_continuation_byte(b, end);
        vstd::utf8::is_char_boundary_iff_not_is_continuation_byte(t, end - start);
        assert(t[end - start] == b[end]);
    } else {
        assert(end - start == t.len());
    }
}

/// The cut point found by sample `i` with window `ws`.
fn try_sample_exec(text: &str, ws: usize, i: usize) -> (r: Option<usize>)
    requires
        30 <= ws <= 100,
        text.spec_bytes().len() > ws * 4,
        0 <= i < sample_count(text.spec_bytes().len() as int, ws as int),
    ensures
        match r {
            Some(e) => try_sample(text.spec_bytes(), ws as int, i as int) == Some(e as int),
            None => try_sample(text.spec_bytes(), ws as int, i as int) is None,
        },
{
    let ghost b = text.spec_bytes();
    let bytes = text.as_bytes();
    let len = bytes.len();
    let per = len / ws;
    let count: usize = if per < 10 {
        per
    } else {
        10
    };
    assert(count == sample_count(len as int, ws as int));
    assert(count > 0) by (nonlinear_arith)
        requires
            len > ws * 4,
            ws > 0,
            per == len / ws,
            count == (if per < 10 { per } else { 10usize }),
    ;
    let step = len / count;
    assert(step * i <= len) by (nonlinear_arith)
        requires
            step == len / count,
            i < count,
            count > 0,
    ;
    let raw_start = step * i;
    let start = find_char_boundary(text, raw_start);
    let wide: u128 = start as u128 + ws as u128;
    let end_pos: usize = if wide < len as u128 {
        wide as usize
    } else {
        len
    };
    let end = find_char_boundary(text, end_pos);
    assert(end == boundary_before(b, start + ws));
    if !(end <= len && start < end) {
        return None;
    }
    proof {
        lemma_boundary_in_suffix(b, start as int, end as int);
    }
    let (_, tail) = text.split_at(start);
    let (sample, _) = tail.split_at(end - start);
    assert(sample.spec_bytes() =~= b.subrange(start as int, end as int));
    let sc = chars_of(sample);
    let nonws = non_ws_count_exec(sc.as_slice());
    if nonws < (end - start) / 3 {
        return None;
    }
    let sb = sample.as_bytes();
    let c = count_bytes_exec(bytes, sb);
    if c >= 3 {
        match find_bytes_exec(bytes, sb, 0) {
            Some(fp) => {
                let raw: u128 = fp as u128 + 2 * (sb.len() as u128);
                let capped: usize = if raw < len as u128 {
                    raw as usize
                } else {
                    len
                };
                Some(find_char_boundary(text, capped))
            },
            None => None,
        }
    } else {
        None
    }
}

/// The first cut point found by the samples (see [`sampled_cut`]).
fn sampled_cut_exec(text: &str) -> (r: Option<usize>)
    ensures
        match r {
            Some(e) => sampled_cut(text.spec_bytes(), 0, 0) == Some(e as int),
            None => sampled_cut(text.spec_bytes(), 0, 0) is None,
        },
{
    let ghost b = text.spec_bytes();
    let len = text.as_bytes().len();
    let sizes: [usize; 4] = [30, 50, 80, 100];
    let mut w: usize = 0;
    while w < 4
        invariant
            w <= 4,
            b == text.spec_bytes(),
            len == b.len(),
            sizes@ == seq![30usize, 50, 80, 100],
            sampled_cut(b, 0, 0) == sampled_cut(b, w as int, 0),
        decreases 4 - w,
    {
        let ws = sizes[w];
        assert(ws == window_size(w as int));
        if len > ws * 4 {
            let per = len / ws;
            let count: usize = if per < 10 {
                per
            } else {
                10
            };
            assert(count == sample_count(len as int, ws as int));
            let mut i: usize = 0;
            while i < count
                invariant
                    i <= count <= 10,
                    w < 4,
                    b == text.spec_bytes(),
                    len == b.len(),
                    ws == window_size(w as int),
                    len > ws * 4,
                    count == sample_count(len as int, ws as int),
                    sampled_cut(b, 0, 0) == sampled_cut(b, w as int, i as int),
                decreases count - i,
            {
                match try_sample_exec(text, ws, i) {
                    Some(e) => {
                        return Some(e);
                    },
                    None => {},
                }
                i += 1;
            }
        }
        w += 1;
    }
    None
}

/// The words of a text (`str::split_whitespace`).
fn split_words(s: &[char]) -> (r: Vec<Vec<char>>)
    ensures
        r.deep_view() == words_of(s@),
{
    let mut out: Vec<Vec<char>> = Vec::new();
    let mut cur: Vec<char> = Vec::new();
    let mut i: usize = 0;
    assert(s@.skip(0) =~= s@);
    while i < s.len()
        invariant
            i <= s@.len(),
            out.deep_view() + words_acc(s@.skip(i as int), cur@) == words_of(s@),
        decreases s@.len() - i,
    {
        let ghost rest = s@.skip(i as int);
        assert(rest.drop_first() =~= s@.skip(i + 1));
        assert(rest[0] == s@[i as int]);
        let ghost c0 = cur@;
        if crate::text::is_whitespace(s[i]) {
            if cur.len() > 0 {
                let ghost before = out.deep_view();
                let ghost c = cur@;
                out.push(cur);
                proof {
                    crate::text::lemma_push_line(before, out@, out@.last());
                    assert(out.deep_view() =~= before.push(c));
                    assert(out.deep_view() + words_acc(s@.skip(i + 1), seq![]) =~= before + (seq![c] + words_acc(
                        s@.skip(i + 1),
                        seq![],
                    )));
                }
                cur = Vec::new();
            } else {
                assert(words_acc(rest, c0) == words_acc(rest.drop_first(), seq![]));
                assert(cur@ =~= Seq::<char>::empty());
            }
        } else {
            cur.push(s[i]);
            assert(words_acc(rest, c0) == words_acc(rest.drop_first(), c0.push(rest[0])));
        }
        i += 1;
    }
    assert(s@.skip(i as int) =~= Seq::<char>::empty());
    if cur.len() > 0 {
        let ghost before = out.deep_view();
        let ghost c = cur@;
        out.push(cur);
        proof {
            crate::text::lemma_push_line(before, out@, out@.last());
            assert(out.deep_view() =~= before.push(c));
        }
    } else {
        assert(out.deep_view() + Seq::<Seq<char>>::empty() =~= out.deep_view());
    }
    out
}

/// The text with what repeats cut off (see [`truncated_text`]).
pub fn detect_and_truncate_repetition(text: &str) -> (r: String)
    ensures
        r@ == truncated_text(text@),
{
    let ghost b = text.spec_bytes();
    assert(b == encode_utf8(text@));
    let total = text.as_bytes().len();
    if total < 500 {
        return String::from_str(text);
    }
    match sampled_cut_exec(text) {
        Some(e) => {
            proof {
                assert(is_char_boundary(b, e as int)) by {
                    lemma_cut_is_boundary(b, 0, 0);
                }
            }
            let (head, _) = text.split_at(e);
            let mut out = chars_of(head);
            proof {
                assert(head.spec_bytes() =~= b.take(e as int));
            }
            extend_str(&mut out, "\n\n[Note: Repetitive content detected and truncated]");
            return to_string(out.as_slice());
        },
        None => {},
    }
    let tc = chars_of(text);
    let lines = split_lines(tc.as_slice());
    let ghost lv = lines.deep_view();
    let mut seen: usize = 0;
    let mut last: Vec<char> = Vec::new();
    let mut i: usize = 0;
    while i < lines.len()
        invariant
            i <= lines@.len(),
            lv == lines.deep_view(),
            lv == lines_of(text@),
            seen <= i,
            sampled_cut(b, 0, 0) is None,
            b == encode_utf8(text@),
            b.len() >= 500,
            repeated_lines(lv, 0, 0, Seq::empty()) == repeated_lines(lv, i as int, seen as int, last@),
        decreases lines@.len() - i,
    {
        proof {
            crate::text::lemma_chars_deep_view(lines@[i as int]);
        }
        let t = trim_chars(lines[i].as_slice());
        let ts = to_string(t.as_slice());
        let tlen = ts.as_str().as_bytes().len();
        proof {
            assert(t@ == trim(lv[i as int]));
            assert(tlen == byte_len(t@));
        }
        if t.len() == 0 || tlen < 10 {
            i += 1;
        } else if crate::text::chars_eq(t.as_slice(), last.as_slice()) {
            if seen + 1 >= 4 {
                let k = if i >= seen + 1 {
                    i - (seen + 1)
                } else {
                    0
                };
                let nl = chars_of("\n");
                let mut out = join_range(&lines, 0, k, nl.as_slice());
                proof {
                    assert(lv.subrange(0, k as int) =~= lv.take(k as int));
                }
                extend_str(&mut out, "\n\n[Note: Repetitive content detected and truncated]");
                return to_string(out.as_slice());
            }
            seen = seen + 1;
            i += 1;
        } else {
            seen = 1;
            last = t;
            i += 1;
        }
    }
    let words = split_words(tc.as_slice());
    if words.len() > 5000 {
        let sp = chars_of(" ");
        let mut out = join_range(&words, 0, 3000, sp.as_slice());
        proof {
            assert(words.deep_view().subrange(0, 3000) =~= words.deep_view().take(3000));
        }
        extend_str(&mut out, "\n\n[Note: Output truncated due to excessive length - possible repetition]");
        return to_string(out.as_slice());
    }
    String::from_str(text)
}

/// A cut point found by the samples is a character boundary.
proof fn lemma_cut_is_boundary(b: Seq<u8>, w: int, i: int)
    requires
        valid_utf8(b),
    ensures
        sampled_cut(b, w, i) matches Some(e) ==> is_char_boundary(b, e) && 0 <= e <= b.len(),
    decreases 4 - w, 10 - i,
{
    vstd::utf8::is_char_boundary_start_end_of_seq(b);
    if w < 0 || w >= 4 || i < 0 {
    } else {
        let ws = window_size(w);
        let len = b.len() as int;
        if len > ws * 4 && i < sample_count(len, ws) {
            match try_sample(b, ws, i) {
                Some(e) => {
                    let start = boundary_before(b, (len / sample_count(len, ws)) * i);
                    let end = boundary_before(b, start + ws);
                    let sample = b.subrange(start, end);
                    match find_bytes(b, sample, 0) {
                        Some(fp) => {
                            lemma_boundary_before(b, if fp + 2 * (end - start) < len { fp + 2 * (end - start) } else { len });
                        },
                        None => {},
                    }
                },
                None => {
                    lemma_cut_is_boundary(b, w, i + 1);
                },
            }
        } else {
            lemma_cut_is_boundary(b, w + 1, 0);
        }
    }
}

/// [`boundary_before`] gives a character boundary within the text.
proof fn lemma_boundary_before(b: Seq<u8>, pos: int)
    requires
        valid_utf8(b),
    ensures
        is_char_boundary(b, boundary_before(b, pos)),
        0 <= boundary_before(b, pos) <= b.len(),
    decreases pos,
{
    vstd::utf8::is_char_boundary_start_end_of_seq(b);
    if pos >= b.len() {
    } else if pos <= 0 {
    } else if is_char_boundary(b, pos) {
    } else {
        lemma_boundary_before(b, pos - 1);
    }
}

} // verus!
