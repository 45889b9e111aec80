//! PDF pages: how the quality of extracted text is judged, which pages a
//! model is asked to read, how extracted text is spread over the pages,
//! and how the document is put together. Parsing, text extraction and
//! rendering are done outside the library, which is handed their results.
//!
//! The quality thresholds are ratios; they are compared exactly, by cross
//! multiplication of the counts that define them.
use vstd::prelude::*;
use crate::chars::{is_alnum, is_alphanumeric, to_string};
use crate::office_text::{alpha_count, count_alphabetic};
use crate::error::{is_parse_error, parse_error, MarkitdownError};
use crate::llm::{split_chars, split_on};
use crate::model::{ext_views, opt_str, BlockView, ContentBlock, ConversionOptions, DocPageView, Document, DocumentConverter, DocumentView, Page};
use crate::pdf_text::{break_point, find_text_break_point};
use crate::table_merge::{byte_len, strings_of, wsum};
use crate::text::{
    chars_eq_str, chars_of, extend_chars, extend_str, is_whitespace, is_ws, join, join_chars, lines_of, split_lines, sub_vec, trim, trim_bounds,
    trim_chars, trim_start,
};

verus! {

// ---------------------------------------------------------------------
// Words
// ---------------------------------------------------------------------

/// The words of `s` found so far (`str::split_whitespace`) and the word
/// being read.
pub open spec fn ws_split(s: Seq<char>) -> (Seq<Seq<char>>, Seq<char>)
    decreases s.len(),
{
    if s.len() == 0 {
        (Seq::empty(), Seq::empty())
    } else {
        let (ws, cur) = ws_split(s.drop_last());
        if is_ws(s.last()) {
            if cur.len() > 0 {
                (ws.push(cur), Seq::empty())
            } else {
                (ws, Seq::empty())
            }
        } else {
            (ws, cur.push(s.last()))
        }
    }
}

/// The words of `s`: its maximal runs of non-whitespace characters.
pub open spec fn words(s: Seq<char>) -> Seq<Seq<char>> {
    let (ws, cur) = ws_split(s);
    if cur.len() > 0 {
        ws.push(cur)
    } else {
        ws
    }
}

/// The words of `s`.
fn split_words(s: &[char]) -> (r: Vec<Vec<char>>)
    ensures
        r.deep_view() == words(s@),
{
    let mut out: Vec<Vec<char>> = Vec::new();
    let mut cur: Vec<char> = Vec::new();
    let mut i: usize = 0;
    while i < s.len()
        invariant
            i <= s@.len(),
            (out.deep_view(), cur@) == ws_split(s@.take(i as int)),
        decreases s@.len() - i,
    {
        proof {
            assert(s@.take(i + 1).drop_last() =~= s@.take(i as int));
        }
        let c = s[i];
        if is_whitespace(c) {
            if cur.len() > 0 {
                let ghost before = out.deep_view();
                let w = cur;
                cur = Vec::new();
                out.push(w);
                proof {
                    crate::text::lemma_push_line(before, out@, w);
                }
            }
        } else {
            cur.push(c);
        }
        i += 1;
    }
    assert(s@.take(i as int) =~= s@);
    if cur.len() > 0 {
        let ghost before = out.deep_view();
        let w = cur;
        out.push(w);
        proof {
            crate::text::lemma_push_line(before, out@, w);
        }
    }
    out
}

/// A word of 2 to 20 bytes of which more than half the characters are
/// alphabetic.
pub open spec fn valid_word(w: Seq<char>) -> bool {
    2 <= wsum(w, true) <= 20 && 2 * alpha_count(w) > wsum(w, true)
}

/// The number of valid words.
pub open spec fn valid_count(ws: Seq<Seq<char>>) -> nat
    decreases ws.len(),
{
    if ws.len() == 0 {
        0
    } else {
        valid_count(ws.drop_last()) + if valid_word(ws.last()) {
            1nat
        } else {
            0nat
        }
    }
}

/// The total byte length of the words.
pub open spec fn words_bytes(ws: Seq<Seq<char>>) -> nat
    decreases ws.len(),
{
    if ws.len() == 0 {
        0
    } else {
        words_bytes(ws.drop_last()) + wsum(ws.last(), true)
    }
}

/// The number of alphanumeric characters.
pub open spec fn alnum_count(s: Seq<char>) -> nat
    decreases s.len(),
{
    if s.len() == 0 {
        0
    } else {
        alnum_count(s.drop_last()) + if is_alnum(s.last()) {
            1nat
        } else {
            0nat
        }
    }
}

/// Punctuation that is not counted as special.
pub open spec fn plain_punct(c: char) -> bool {
    c == '.' || c == ',' || c == ':' || c == ';' || c == '!' || c == '?' || c == '\'' || c == '-' || c == '"'
        || c == '(' || c == ')' || c == '[' || c == ']' || c == '{' || c == '}'
}

/// A character that is neither alphanumeric, whitespace nor plain
/// punctuation.
pub open spec fn special_char(c: char) -> bool {
    !is_alnum(c) && !is_ws(c) && !plain_punct(c)
}

/// The number of special characters.
pub open spec fn special_count(s: Seq<char>) -> nat
    decreases s.len(),
{
    if s.len() == 0 {
        0
    } else {
        special_count(s.drop_last()) + if special_char(s.last()) {
            1nat
        } else {
            0nat
        }
    }
}

// ---------------------------------------------------------------------
// Page metrics
// ---------------------------------------------------------------------

/// Fewer words than this on a page with significant images lets a model
/// read the page, so that it sees the images with their context.
pub const LOW_TEXT_WORD_THRESHOLD: usize = 350;

/// Several significant images: at least this many.
pub const MIN_SIGNIFICANT_XOBJECTS: usize = 2;

/// What is measured of a page's extracted text. The ratios of the original
/// measurements are kept as their numerators and denominators.
pub struct PageMetrics {
    /// The extracted text, trimmed.
    pub text: String,
    /// Its number of characters.
    pub char_count: usize,
    /// Its number of words.
    pub word_count: usize,
    /// Its number of alphanumeric characters.
    pub alnum_count: usize,
    /// More than three lines and more than ten words.
    pub is_structured: bool,
    /// The number of significant images and forms on the page.
    pub xobject_count: usize,
    /// The number of valid words.
    pub valid_word_count: usize,
    /// The total byte length of the words.
    pub word_bytes: u128,
    /// The number of special characters.
    pub special_count: usize,
}

/// The mathematical content of a [`PageMetrics`].
pub struct MetricsView {
    pub text: Seq<char>,
    pub char_count: nat,
    pub word_count: nat,
    pub alnum_count: nat,
    pub is_structured: bool,
    pub xobject_count: nat,
    pub valid_word_count: nat,
    pub word_bytes: nat,
    pub special_count: nat,
}

impl View for PageMetrics {
    type V = MetricsView;

    open spec fn view(&self) -> MetricsView {
        MetricsView {
            text: self.text@,
            char_count: self.char_count as nat,
            word_count: self.word_count as nat,
            alnum_count: self.alnum_count as nat,
            is_structured: self.is_structured,
            xobject_count: self.xobject_count as nat,
            valid_word_count: self.valid_word_count as nat,
            word_bytes: self.word_bytes as nat,
            special_count: self.special_count as nat,
        }
    }
}

/// The metrics of a page's text and number of significant images.
pub open spec fn metrics_of(text: Seq<char>, xobjects: nat) -> MetricsView {
    let t = trim(text);
    let ws = words(t);
    MetricsView {
        text: t,
        char_count: t.len(),
        word_count: ws.len(),
        alnum_count: alnum_count(t),
        is_structured: lines_of(t).len() > 3 && ws.len() > 10,
        xobject_count: xobjects,
        valid_word_count: valid_count(ws),
        word_bytes: words_bytes(ws),
        special_count: special_count(t),
    }
}

/// The ratio `num / den` (zero where `den` is zero) is below `p / q`.
pub open spec fn ratio_below(num: nat, den: nat, p: nat, q: nat) -> bool {
    if den == 0 {
        0 < p
    } else {
        q * num < p * den
    }
}

/// The ratio `num / den` (zero where `den` is zero) is above `p / q`.
pub open spec fn ratio_above(num: nat, den: nat, p: nat, q: nat) -> bool {
    den != 0 && q * num > p * den
}

/// Text of high quality: at least ten words, at least 0.6 of the
/// characters alphanumeric, at least 0.6 of the words valid, words of 2.5
/// bytes or more on average, and at most 0.3 of the characters special.
pub open spec fn high_quality(m: MetricsView) -> bool {
    &&& m.word_count >= 10
    &&& !ratio_below(m.alnum_count, m.char_count, 3, 5)
    &&& !ratio_below(m.valid_word_count, m.word_count, 3, 5)
    &&& !ratio_below(m.word_bytes, m.word_count, 5, 2)
    &&& !ratio_above(m.special_count, m.char_count, 3, 10)
}

/// A page that a model should read: little text; under half of it
/// alphanumeric; short and unstructured; many invalid or short words;
/// many special characters; significant images and fewer than 350 words;
/// or many significant images with poor text.
pub open spec fn needs_model(m: MetricsView) -> bool {
    ||| m.word_count < 10
    ||| ratio_below(m.alnum_count, m.char_count, 1, 2)
    ||| (m.char_count < 50 && !m.is_structured)
    ||| (ratio_below(m.valid_word_count, m.word_count, 3, 5) && m.word_count > 20)
    ||| (ratio_below(m.word_bytes, m.word_count, 5, 2) && m.word_count > 10)
    ||| ratio_above(m.special_count, m.char_count, 3, 10)
    ||| (m.xobject_count >= 2 && m.word_count < 350)
    ||| (m.xobject_count >= 5 && !high_quality(m))
}

/// `num / den` (zero where `den` is zero) is below `p / q`.
fn below(num: u128, den: u128, p: u128, q: u128) -> (r: bool)
    requires
        num <= 0x1_0000_0000_0000_0000_0000,
        den <= 0x1_0000_0000_0000_0000_0000,
        p <= 10,
        q <= 10,
    ensures
        r == ratio_below(num as nat, den as nat, p as nat, q as nat),
{
    if den == 0 {
        0 < p
    } else {
        proof {
            assert(q * num <= 10 * 0x1_0000_0000_0000_0000_0000) by (nonlinear_arith)
                requires
                    q <= 10,
                    num <= 0x1_0000_0000_0000_0000_0000,
            ;
            assert(p * den <= 10 * 0x1_0000_0000_0000_0000_0000) by (nonlinear_arith)
                requires
                    p <= 10,
                    den <= 0x1_0000_0000_0000_0000_0000,
            ;
        }
        q * num < p * den
    }
}

/// `num / den` (zero where `den` is zero) is above `p / q`.
fn above(num: u128, den: u128, p: u128, q: u128) -> (r: bool)
    requires
        num <= 0x1_0000_0000_0000_0000_0000,
        den <= 0x1_0000_0000_0000_0000_0000,
        p <= 10,
        q <= 10,
    ensures
        r == ratio_above(num as nat, den as nat, p as nat, q as nat),
{
    if den == 0 {
        false
    } else {
        proof {
            assert(q * num <= 10 * 0x1_0000_0000_0000_0000_0000) by (nonlinear_arith)
                requires
                    q <= 10,
                    num <= 0x1_0000_0000_0000_0000_0000,
            ;
            assert(p * den <= 10 * 0x1_0000_0000_0000_0000_0000) by (nonlinear_arith)
                requires
                    p <= 10,
                    den <= 0x1_0000_0000_0000_0000_0000,
            ;
        }
        q * num > p * den
    }
}

/// The total length of the words.
pub open spec fn words_len(ws: Seq<Seq<char>>) -> nat
    decreases ws.len(),
{
    if ws.len() == 0 {
        0
    } else {
        words_len(ws.drop_last()) + ws.last().len()
    }
}

proof fn lemma_split_len(s: Seq<char>)
    ensures
        words_len(ws_split(s).0) + ws_split(s).1.len() <= s.len(),
    decreases s.len(),
{
    if s.len() > 0 {
        lemma_split_len(s.drop_last());
        let (ws, cur) = ws_split(s.drop_last());
        if is_ws(s.last()) && cur.len() > 0 {
            assert(ws.push(cur).drop_last() =~= ws);
        }
    }
}

proof fn lemma_words_len(s: Seq<char>)
    ensures
        words_len(words(s)) <= s.len(),
{
    lemma_split_len(s);
    let (ws, cur) = ws_split(s);
    if cur.len() > 0 {
        assert(ws.push(cur).drop_last() =~= ws);
    }
}

proof fn lemma_words_len_prefix(ws: Seq<Seq<char>>, k: int)
    requires
        0 <= k <= ws.len(),
    ensures
        words_len(ws.take(k)) <= words_len(ws),
    decreases ws.len() - k,
{
    if k < ws.len() {
        lemma_words_len_prefix(ws, k + 1);
        assert(ws.take(k + 1).drop_last() =~= ws.take(k));
    } else {
        assert(ws.take(k) =~= ws);
    }
}

/// The number of alphanumeric characters of `s`.
fn count_alnum(s: &[char]) -> (r: usize)
    ensures
        r == alnum_count(s@),
        r <= s@.len(),
{
    let mut n: usize = 0;
    let mut k: usize = 0;
    while k < s.len()
        invariant
            k <= s@.len(),
            n == alnum_count(s@.take(k as int)),
            n <= k,
        decreases s@.len() - k,
    {
        proof {
            assert(s@.take(k + 1).drop_last() =~= s@.take(k as int));
        }
        if is_alphanumeric(s[k]) {
            n += 1;
        }
        k += 1;
    }
    assert(s@.take(k as int) =~= s@);
    n
}

/// Whether the character is plain punctuation.
fn is_plain_punct(c: char) -> (r: bool)
    ensures
        r == plain_punct(c),
{
    c == '.' || c == ',' || c == ':' || c == ';' || c == '!' || c == '?' || c == '\'' || c == '-' || c == '"'
        || c == '(' || c == ')' || c == '[' || c == ']' || c == '{' || c == '}'
}

/// The number of special characters of `s`.
fn count_special(s: &[char]) -> (r: usize)
    ensures
        r == special_count(s@),
        r <= s@.len(),
{
    let mut n: usize = 0;
    let mut k: usize = 0;
    while k < s.len()
        invariant
            k <= s@.len(),
            n == special_count(s@.take(k as int)),
            n <= k,
        decreases s@.len() - k,
    {
        proof {
            assert(s@.take(k + 1).drop_last() =~= s@.take(k as int));
        }
        let c = s[k];
        if !is_alphanumeric(c) && !is_whitespace(c) && !is_plain_punct(c) {
            n += 1;
        }
        k += 1;
    }
    assert(s@.take(k as int) =~= s@);
    n
}

impl PageMetrics {
    /// Measures a page's text, which is trimmed first.
    pub fn from_text_with_xobjects(text: &str, xobject_count: usize) -> (r: Self)
        ensures
            r@ == metrics_of(text@, xobject_count as nat),
            r.word_bytes <= 4 * r.char_count,
    {
        let c = chars_of(text);
        let t = trim_chars(c.as_slice());
        let ws = split_words(t.as_slice());
        let ghost wv = ws.deep_view();
        let word_count = ws.len();
        let alnum = count_alnum(t.as_slice());
        let lines = split_lines(t.as_slice());
        let is_structured = lines.len() > 3 && word_count > 10;
        proof {
            lemma_words_len(t@);
        }
        let tl = t.len();
        assert(tl == t@.len());
        let mut valid: usize = 0;
        let mut bytes: u128 = 0;
        let mut k: usize = 0;
        while k < ws.len()
            invariant
                k <= wv.len(),
                wv == ws.deep_view(),
                wv == words(t@),
                words_len(wv) <= t@.len(),
                t@.len() == tl,
                valid == valid_count(wv.take(k as int)),
                valid <= k,
                bytes == words_bytes(wv.take(k as int)),
                bytes <= 4 * words_len(wv.take(k as int)),
            decreases wv.len() - k,
        {
            proof {
                assert(wv.take(k + 1).drop_last() =~= wv.take(k as int));
                crate::text::lemma_chars_deep_view(ws@[k as int]);
                lemma_words_len_prefix(wv, k + 1);
            }
            let w = ws[k].as_slice();
            let b = byte_len(w);
            let a = count_alphabetic(w);
            if 2 <= b && b <= 20 && 2 * (a as u128) > b {
                valid += 1;
            }
            proof {
                assert(wv[k as int] == w@);
                assert(words_len(wv.take(k + 1)) == words_len(wv.take(k as int)) + w@.len());
                assert(words_len(wv.take(k + 1)) <= t@.len());
            }
            bytes = bytes + b;
            k += 1;
        }
        assert(wv.take(k as int) =~= wv);
        proof {
            lemma_words_len_prefix(wv, k as int);
        }
        let special = count_special(t.as_slice());
        let ghost tv = t@;
        PageMetrics {
            text: to_string(t.as_slice()),
            char_count: t.len(),
            word_count,
            alnum_count: alnum,
            is_structured,
            xobject_count,
            valid_word_count: valid,
            word_bytes: bytes,
            special_count: special,
        }
    }

    /// Whether the text is of high quality (see [`high_quality`]).
    pub fn is_high_quality(&self) -> (r: bool)
        requires
            self.word_bytes <= 0x1_0000_0000_0000_0000_0000,
        ensures
            r == high_quality(self@),
    {
        self.word_count >= 10 && !below(self.alnum_count as u128, self.char_count as u128, 3, 5) && !below(
            self.valid_word_count as u128,
            self.word_count as u128,
            3,
            5,
        ) && !below(self.word_bytes, self.word_count as u128, 5, 2) && !above(
            self.special_count as u128,
            self.char_count as u128,
            3,
            10,
        )
    }

    /// Whether a model should read the page (see [`needs_model`]).
    pub fn should_use_llm(&self) -> (r: bool)
        requires
            self.word_bytes <= 0x1_0000_0000_0000_0000_0000,
        ensures
            r == needs_model(self@),
    {
        if self.word_count < 10 {
            return true;
        }
        if below(self.alnum_count as u128, self.char_count as u128, 1, 2) {
            return true;
        }
        if self.char_count < 50 && !self.is_structured {
            return true;
        }
        if below(self.valid_word_count as u128, self.word_count as u128, 3, 5) && self.word_count > 20 {
            return true;
        }
        if below(self.word_bytes, self.word_count as u128, 5, 2) && self.word_count > 10 {
            return true;
        }
        if above(self.special_count as u128, self.char_count as u128, 3, 10) {
            return true;
        }
        if self.xobject_count >= MIN_SIGNIFICANT_XOBJECTS && self.word_count < LOW_TEXT_WORD_THRESHOLD {
            return true;
        }
        if self.xobject_count >= 5 && !self.is_high_quality() {
            return true;
        }
        false
    }
}

// ---------------------------------------------------------------------
// Text spread over pages
// ---------------------------------------------------------------------

/// The pages of extracted text: the text split at form feeds.
pub open spec fn split_ff(t: Seq<char>) -> Seq<Seq<char>> {
    split_on(t, seq!['\x0c'])
}

/// Text spread over `k` pages of about `cpp` characters: each page but the
/// last ends at the break point near its share (or the end of the text),
/// trimmed, and the next starts after it, leading whitespace removed; the
/// last page takes the rest.
pub open spec fn spread(rem: Seq<char>, cpp: int, k: nat) -> Seq<Seq<char>>
    decreases k,
{
    if k == 0 {
        Seq::empty()
    } else if k == 1 {
        seq![rem]
    } else {
        let target = if cpp < rem.len() {
            cpp
        } else {
            rem.len() as int
        };
        let bp = break_point(rem, target);
        let cut = if bp < rem.len() {
            bp
        } else {
            rem.len() as int
        };
        seq![trim(rem.take(cut))] + spread(trim_start(rem.skip(cut)), cpp, (k - 1) as nat)
    }
}

/// The extracted pages made to match the `n` pages of the PDF: as they are
/// where the counts agree; empty pages where there is no text or no page;
/// all text on the first page where it is under 100 bytes once trimmed;
/// else the text, joined by blank lines, spread evenly.
pub open spec fn aligned_texts(extracted: Seq<Seq<char>>, n: nat) -> Seq<Seq<char>> {
    if extracted.len() == n {
        extracted
    } else if extracted.len() == 0 || n == 0 {
        Seq::new(n, |i: int| Seq::<char>::empty())
    } else {
        let total = join(extracted, "\n\n"@);
        if wsum(trim(total), true) < 100 {
            Seq::new(
                n,
                |i: int|
                    if i == 0 {
                        total
                    } else {
                        Seq::<char>::empty()
                    },
            )
        } else {
            let q = total.len() / n;
            spread(total, if q >= 1 { q as int } else { 1 }, n)
        }
    }
}

/// The strings as character vectors.
fn char_vecs(v: &Vec<String>) -> (r: Vec<Vec<char>>)
    ensures
        r.deep_view() == v.deep_view(),
{
    let mut out: Vec<Vec<char>> = Vec::new();
    let mut k: usize = 0;
    while k < v.len()
        invariant
            k <= v@.len(),
            out.deep_view() =~= v.deep_view().take(k as int),
        decreases v@.len() - k,
    {
        let c = chars_of(v[k].as_str());
        let ghost before = out.deep_view();
        out.push(c);
        proof {
            crate::text::lemma_push_line(before, out@, c);
            assert(v.deep_view().take(k + 1) =~= v.deep_view().take(k as int).push(v@[k as int]@));
        }
        k += 1;
    }
    assert(v.deep_view().take(k as int) =~= v.deep_view());
    out
}

/// `n` empty strings, the first replaced by `first` where given.
fn blank_pages(n: usize, first: Option<Vec<char>>) -> (r: Vec<String>)
    requires
        n > 0 || first is None,
    ensures
        r.deep_view() == Seq::new(
            n as nat,
            |i: int|
                if i == 0 && first is Some {
                    first->0@
                } else {
                    Seq::<char>::empty()
                },
        ),
{
    let mut out: Vec<String> = Vec::new();
    let mut k: usize = 0;
    while k < n
        invariant
            k <= n,
            n > 0 || first is None,
            out.deep_view() =~= Seq::new(
                k as nat,
                |i: int|
                    if i == 0 && first is Some {
                        first->0@
                    } else {
                        Seq::<char>::empty()
                    },
            ),
        decreases n - k,
    {
        let s = if k == 0 {
            match &first {
                Some(f) => to_string(f.as_slice()),
                None => String::new(),
            }
        } else {
            String::new()
        };
        let ghost before = out.deep_view();
        assert(s@ == (if k == 0 && first is Some {
            first->0@
        } else {
            Seq::<char>::empty()
        }));
        out.push(s);
        assert(out.deep_view() =~= before.push(s@));
        k += 1;
    }
    out
}

/// The text spread over `k` pages (see [`spread`]).
fn spread_pages(total: &Vec<char>, cpp: usize, k: usize) -> (r: Vec<String>)
    requires
        k >= 1,
    ensures
        r.deep_view() == spread(total@, cpp as int, k as nat),
{
    let mut result: Vec<String> = Vec::new();
    let mut rem: Vec<char> = crate::text::sub_vec(total.as_slice(), 0, total.len());
    assert(rem@ =~= total@);
    let mut i: usize = 0;
    while i < k
        invariant
            i <= k,
            i < k ==> result.deep_view() + spread(rem@, cpp as int, (k - i) as nat) == spread(total@, cpp as int, k as nat),
            i == k ==> result.deep_view() == spread(total@, cpp as int, k as nat),
        decreases k - i,
    {
        let ghost before = result.deep_view();
        let ghost r0 = rem@;
        if i == k - 1 {
            result.push(to_string(rem.as_slice()));
            assert(spread(r0, cpp as int, 1) =~= seq![r0]);
            assert(result.deep_view() =~= before + seq![r0]);
        } else {
            let n = rem.len();
            let target = if cpp < n {
                cpp
            } else {
                n
            };
            let rs = to_string(rem.as_slice());
            let bp = find_text_break_point(rs.as_str(), target);
            let cut = if bp < n {
                bp
            } else {
                n
            };
            let page = trim_chars(sub_vec(rem.as_slice(), 0, cut).as_slice());
            result.push(to_string(page.as_slice()));
            let rest = sub_vec(rem.as_slice(), cut, n);
            let (lo, _hi) = trim_bounds(rest.as_slice());
            rem = sub_vec(rest.as_slice(), lo, rest.len());
            proof {
                assert(r0.take(cut as int) =~= r0.subrange(0, cut as int));
                assert(r0.skip(cut as int) =~= rest@);
                assert(result.deep_view() =~= before.push(trim(r0.take(cut as int))));
                assert(spread(r0, cpp as int, (k - i) as nat) == seq![trim(r0.take(cut as int))] + spread(
                    rem@,
                    cpp as int,
                    (k - i - 1) as nat,
                ));
                assert(result.deep_view() + spread(rem@, cpp as int, (k - (i + 1)) as nat) =~= before + spread(
                    r0,
                    cpp as int,
                    (k - i) as nat,
                ));
            }
        }
        i += 1;
    }
    result
}

/// PDF converter.
pub struct PdfConverter;

impl PdfConverter {
    /// The extracted pages made to match the PDF's `actual_page_count`
    /// pages (see [`aligned_texts`]).
    pub fn extract_text_aligned_to_pages(extracted: Vec<String>, actual_page_count: usize) -> (r: Vec<String>)
        ensures
            r.deep_view() == aligned_texts(extracted.deep_view(), actual_page_count as nat),
    {
        if extracted.len() == actual_page_count {
            return extracted;
        }
        if extracted.len() == 0 || actual_page_count == 0 {
            let r = blank_pages(actual_page_count, None);
            assert(r.deep_view() =~= Seq::new(actual_page_count as nat, |i: int| Seq::<char>::empty()));
            return r;
        }
        let parts = char_vecs(&extracted);
        let sep = chars_of("\n\n");
        let total = join_chars(&parts, sep.as_slice());
        let (lo, hi) = trim_bounds(total.as_slice());
        let tb = byte_len(sub_vec(total.as_slice(), lo, hi).as_slice());
        if tb < 100 {
            let ghost tv = total@;
            let r = blank_pages(actual_page_count, Some(total));
            assert(r.deep_view() =~= Seq::new(
                actual_page_count as nat,
                |i: int|
                    if i == 0 {
                        tv
                    } else {
                        Seq::<char>::empty()
                    },
            ));
            return r;
        }
        let q = total.len() / actual_page_count;
        let cpp = if q >= 1 {
            q
        } else {
            1
        };
        spread_pages(&total, cpp, actual_page_count)
    }
}

// ---------------------------------------------------------------------
// The document without a model
// ---------------------------------------------------------------------

/// A page holding one text block.
pub open spec fn text_page(number: u32, t: Seq<char>) -> DocPageView {
    DocPageView { page_number: number, content: seq![BlockView::Text(t)], rendered_image: None }
}

/// The pages of the first `k` texts: each text that is not blank, trimmed,
/// on the page of its position (from 1).
pub open spec fn text_pages(texts: Seq<Seq<char>>, k: nat) -> Seq<DocPageView>
    decreases k,
{
    if k == 0 {
        Seq::empty()
    } else {
        text_pages(texts, (k - 1) as nat) + if trim(texts[k - 1]).len() > 0 {
            seq![text_page(k as u32, trim(texts[k - 1]))]
        } else {
            Seq::empty()
        }
    }
}

/// A page saying that its content could not be extracted, for each of the
/// `n` pages.
pub open spec fn placeholder_pages(n: nat) -> Seq<DocPageView> {
    Seq::new(n, |i: int| text_page((i + 1) as u32, "[Page content could not be extracted]"@))
}

/// The extracted pages, none where extraction failed.
pub open spec fn extracted_pages(extracted: Result<Seq<char>, Seq<char>>) -> Seq<Seq<char>> {
    match extracted {
        Ok(t) => split_ff(t),
        Err(_) => Seq::empty(),
    }
}

/// The page texts of a PDF of `page_count` pages (zero where it could not
/// be parsed) whose text extraction gave `extracted`.
pub open spec fn page_texts(page_count: nat, extracted: Result<Seq<char>, Seq<char>>) -> Seq<Seq<char>> {
    if page_count > 0 {
        aligned_texts(extracted_pages(extracted), page_count)
    } else {
        extracted_pages(extracted)
    }
}

/// The pages without a model: the pages with text; else a placeholder for
/// each page of the PDF; else one page of all the text, or a note that
/// nothing could be extracted.
pub open spec fn basic_pages(page_count: nat, extracted: Result<Seq<char>, Seq<char>>) -> Seq<DocPageView> {
    let texts = page_texts(page_count, extracted);
    let pages = text_pages(texts, texts.len());
    if pages.len() > 0 {
        pages
    } else if page_count > 0 {
        placeholder_pages(page_count)
    } else {
        let t = match extracted {
            Ok(x) => trim(x),
            Err(_) => Seq::empty(),
        };
        seq![
            text_page(
                1,
                if t.len() == 0 {
                    "[PDF content could not be extracted]"@
                } else {
                    t
                },
            ),
        ]
    }
}

/// The result without a model: a parse error where the PDF could not be
/// parsed and its text not extracted; else the document of
/// [`basic_pages`].
pub open spec fn basic_result(page_count: nat, extracted: Result<Seq<char>, Seq<char>>, r: Result<Document, MarkitdownError>) -> bool {
    match extracted {
        Err(m) => if page_count == 0 {
            r matches Err(e) && is_parse_error(e, "Failed to extract text from PDF: "@ + m)
        } else {
            r matches Ok(d) && d@ == (DocumentView { title: None, pages: basic_pages(page_count, extracted), metadata: Seq::empty() })
        },
        Ok(_) => r matches Ok(d) && d@ == (DocumentView { title: None, pages: basic_pages(page_count, extracted), metadata: Seq::empty() }),
    }
}

/// The view of an extraction result.
pub open spec fn text_result(r: Result<String, String>) -> Result<Seq<char>, Seq<char>> {
    match r {
        Ok(t) => Ok(t@),
        Err(m) => Err(m@),
    }
}

/// The pages split at form feeds.
fn split_form_feeds(t: &str) -> (r: Vec<String>)
    ensures
        r.deep_view() == split_ff(t@),
{
    let c = chars_of(t);
    proof {
        reveal_strlit("\x0c");
    }
    assert("\x0c"@ =~= seq!['\x0c']);
    let parts = split_chars(c.as_slice(), "\x0c");
    strings_of(&parts)
}

/// Adds a page of one text block.
fn add_text_page(doc: &mut Document, number: u32, t: String)
    ensures
        final(doc)@ == (DocumentView { pages: old(doc)@.pages.push(text_page(number, t@)), ..old(doc)@ }),
{
    let ghost tv = t@;
    let mut page = Page::new(number);
    page.add_content(ContentBlock::Text(t));
    assert(page@.content =~= seq![BlockView::Text(tv)]);
    let ghost before = doc@.pages;
    doc.add_page(page);
    assert(doc@.pages =~= before.push(text_page(number, tv)));
}

impl PdfConverter {
    /// Converts a PDF without a model, from its number of pages (zero
    /// where it could not be parsed) and what text extraction gave (see
    /// [`basic_result`]).
    pub fn convert_basic(&self, page_count: usize, extracted: Result<String, String>) -> (r: Result<Document, MarkitdownError>)
        ensures
            basic_result(page_count as nat, text_result(extracted), r),
    {
        let ghost ev = text_result(extracted);
        let texts: Vec<String> = match &extracted {
            Ok(t) => split_form_feeds(t.as_str()),
            Err(m) => {
                if page_count == 0 {
                    let mc = chars_of(m.as_str());
                    return Err(parse_error("Failed to extract text from PDF: ", mc.as_slice()));
                }
                Vec::new()
            },
        };
        assert(texts.deep_view() =~= extracted_pages(ev));
        let texts = if page_count > 0 {
            Self::extract_text_aligned_to_pages(texts, page_count)
        } else {
            texts
        };
        let ghost tv = texts.deep_view();
        assert(tv == page_texts(page_count as nat, ev));
        let mut doc = Document::new();
        let mut idx: usize = 0;
        while idx < texts.len()
            invariant
                idx <= tv.len(),
                tv == texts.deep_view(),
                doc.title is None,
                doc@.metadata.len() == 0,
                doc@.pages == text_pages(tv, idx as nat),
            decreases tv.len() - idx,
        {
            let c = chars_of(texts[idx].as_str());
            let t = trim_chars(c.as_slice());
            if t.len() > 0 {
                add_text_page(&mut doc, (idx + 1) as u32, to_string(t.as_slice()));
            }
            assert(doc@.pages =~= text_pages(tv, (idx + 1) as nat));
            idx += 1;
        }
        if doc.pages.len() == 0 {
            if page_count > 0 {
                let mut k: usize = 0;
                while k < page_count
                    invariant
                        k <= page_count,
                        doc.title is None,
                        doc@.metadata.len() == 0,
                        doc@.pages =~= placeholder_pages(k as nat),
                    decreases page_count - k,
                {
                    add_text_page(&mut doc, (k + 1) as u32, String::from_str("[Page content could not be extracted]"));
                    k += 1;
                }
            } else {
                let t: Vec<char> = match &extracted {
                    Ok(x) => {
                        let c = chars_of(x.as_str());
                        trim_chars(c.as_slice())
                    },
                    Err(_) => Vec::new(),
                };
                if t.len() == 0 {
                    add_text_page(&mut doc, 1, String::from_str("[PDF content could not be extracted]"));
                } else {
                    add_text_page(&mut doc, 1, to_string(t.as_slice()));
                }
            }
        }
        assert(doc@.pages =~= basic_pages(page_count as nat, ev));
        assert(doc@.metadata =~= Seq::<(Seq<char>, Seq<char>)>::empty());
        Ok(doc)
    }
}

// ---------------------------------------------------------------------
// The document with a model
// ---------------------------------------------------------------------

/// The number of pages when a model may be used: those of the PDF, or,
/// where it could not be parsed, those of the extracted text.
pub open spec fn llm_page_count(actual: nat, extracted: Result<Seq<char>, Seq<char>>) -> nat {
    if actual > 0 {
        actual
    } else {
        extracted_pages(extracted).len()
    }
}

/// The metrics of each page: its text (empty past the texts) and its
/// number of significant images (zero past the counts).
pub open spec fn pages_metrics(texts: Seq<Seq<char>>, xobjects: Seq<usize>, n: nat) -> Seq<MetricsView> {
    Seq::new(
        n,
        |i: int|
            metrics_of(
                if i < texts.len() {
                    texts[i]
                } else {
                    Seq::empty()
                },
                if i < xobjects.len() {
                    xobjects[i] as nat
                } else {
                    0
                },
            ),
    )
}

/// The pages, among the first `k`, that a model is asked to read: all of
/// them when forced, else those that need one; none without a model or a
/// parsed PDF.
pub open spec fn chosen_pages(ms: Seq<MetricsView>, k: nat, force: bool, usable: bool) -> Seq<usize>
    decreases k,
{
    if k == 0 {
        Seq::empty()
    } else {
        chosen_pages(ms, (k - 1) as nat, force, usable) + if usable && (force || needs_model(ms[k - 1])) {
            seq![(k - 1) as usize]
        } else {
            Seq::empty()
        }
    }
}

/// The views of page metrics.
pub open spec fn metrics_views(v: Seq<PageMetrics>) -> Seq<MetricsView> {
    v.map_values(|m: PageMetrics| m@)
}

/// The metrics' byte counts are within reach of exact ratio arithmetic.
pub open spec fn metrics_bounded(v: Seq<PageMetrics>) -> bool {
    forall|i: int| 0 <= i < v.len() ==> #[trigger] v[i].word_bytes <= 4 * v[i].char_count
}

/// The quality note put before text of poor quality.
pub open spec fn quality_note() -> Seq<char> {
    "[Note: Text extraction quality may be poor]\n\n"@
}

/// The content of a page: the model's Markdown where it gave some; else
/// the page's text, after a note where its quality is not high and no model
/// is at hand; nothing where there is no text.
pub open spec fn llm_page_content(m: MetricsView, res: Option<Seq<char>>, has_llm: bool) -> Seq<BlockView> {
    match res {
        Some(md) => seq![BlockView::Markdown(md)],
        None => if m.text.len() > 0 {
            if !high_quality(m) && !has_llm {
                seq![BlockView::Text(quality_note() + m.text)]
            } else {
                seq![BlockView::Text(m.text)]
            }
        } else {
            Seq::empty()
        },
    }
}

/// The model's answer for page `i`, where there is one.
pub open spec fn answer(results: Seq<Option<Seq<char>>>, i: int) -> Option<Seq<char>> {
    if 0 <= i < results.len() {
        results[i]
    } else {
        None
    }
}

/// The pages, among the first `k`, that have content.
pub open spec fn llm_pages(ms: Seq<MetricsView>, results: Seq<Option<Seq<char>>>, has_llm: bool, k: nat) -> Seq<DocPageView>
    decreases k,
{
    if k == 0 {
        Seq::empty()
    } else {
        let c = llm_page_content(ms[k - 1], answer(results, k - 1), has_llm);
        llm_pages(ms, results, has_llm, (k - 1) as nat) + if c.len() > 0 {
            seq![DocPageView { page_number: k as u32, content: c, rendered_image: None }]
        } else {
            Seq::empty()
        }
    }
}

/// The pages, among the first `k`, for which the model gave Markdown.
pub open spec fn answer_pages(results: Seq<Option<Seq<char>>>, k: nat) -> Seq<DocPageView>
    decreases k,
{
    if k == 0 {
        Seq::empty()
    } else {
        answer_pages(results, (k - 1) as nat) + match answer(results, k - 1) {
            Some(md) => seq![DocPageView { page_number: k as u32, content: seq![BlockView::Markdown(md)], rendered_image: None }],
            None => Seq::empty(),
        }
    }
}

/// The page added when nothing could be extracted.
pub open spec fn fallback_page() -> DocPageView {
    text_page(
        1,
        "[PDF content could not be extracted. The document may be scanned, protected, or use unsupported encoding.]"@,
    )
}

/// The views of the model's answers.
pub open spec fn answers_view(v: Seq<Option<String>>) -> Seq<Option<Seq<char>>> {
    v.map_values(|a: Option<String>| opt_str(a))
}

impl PdfConverter {
    /// Measures each page and chooses those that a model is asked to read
    /// (see [`chosen_pages`]). `actual_page_count` is the PDF's number of
    /// pages (zero where it could not be parsed), `extracted` what text
    /// extraction gave, and `xobjects` the number of significant images of
    /// each page.
    pub fn analyze_pages(
        actual_page_count: usize,
        extracted: Result<String, String>,
        xobjects: &Vec<usize>,
        force_llm: bool,
        has_llm: bool,
        pdf_parsed: bool,
    ) -> (r: (Vec<PageMetrics>, Vec<usize>))
        ensures
            metrics_views(r.0@) == pages_metrics(
                page_texts(actual_page_count as nat, text_result(extracted)),
                xobjects@,
                llm_page_count(actual_page_count as nat, text_result(extracted)),
            ),
            metrics_bounded(r.0@),
            r.1@ == chosen_pages(metrics_views(r.0@), r.0@.len(), force_llm, has_llm && pdf_parsed),
    {
        let ghost ev = text_result(extracted);
        let texts: Vec<String> = match &extracted {
            Ok(t) => split_form_feeds(t.as_str()),
            Err(_) => Vec::new(),
        };
        assert(texts.deep_view() =~= extracted_pages(ev));
        let n = if actual_page_count > 0 {
            actual_page_count
        } else {
            texts.len()
        };
        let texts = if actual_page_count > 0 {
            Self::extract_text_aligned_to_pages(texts, actual_page_count)
        } else {
            texts
        };
        let ghost tv = texts.deep_view();
        let ghost target = pages_metrics(tv, xobjects@, n as nat);
        let mut metrics: Vec<PageMetrics> = Vec::new();
        let mut chosen: Vec<usize> = Vec::new();
        let usable = has_llm && pdf_parsed;
        let mut idx: usize = 0;
        while idx < n
            invariant
                idx <= n,
                tv == texts.deep_view(),
                target == pages_metrics(tv, xobjects@, n as nat),
                metrics@.len() == idx,
                metrics_views(metrics@) =~= target.take(idx as int),
                metrics_bounded(metrics@),
                chosen@ == chosen_pages(metrics_views(metrics@), idx as nat, force_llm, usable),
            decreases n - idx,
        {
            let text: String = if idx < texts.len() {
                let c = chars_of(texts[idx].as_str());
                to_string(c.as_slice())
            } else {
                String::new()
            };
            let x: usize = if idx < xobjects.len() {
                xobjects[idx]
            } else {
                0
            };
            let m = PageMetrics::from_text_with_xobjects(text.as_str(), x);
            proof {
                assert(m@ == target[idx as int]);
            }
            let needs = (force_llm || m.should_use_llm()) && usable;
            let ghost before = metrics@;
            metrics.push(m);
            proof {
                assert(metrics_views(metrics@) =~= metrics_views(before).push(m@));
                assert(metrics_views(metrics@).take(idx as int) =~= metrics_views(before));
                lemma_chosen_prefix(metrics_views(metrics@), idx as nat, force_llm, usable);
            }
            if needs {
                chosen.push(idx);
            }
            idx += 1;
        }
        assert(target.take(n as int) =~= target);
        (metrics, chosen)
    }
}

proof fn lemma_chosen_prefix(ms: Seq<MetricsView>, k: nat, force: bool, usable: bool)
    requires
        k < ms.len(),
    ensures
        chosen_pages(ms, k, force, usable) == chosen_pages(ms.take(k as int), k, force, usable),
    decreases k,
{
    if k > 0 {
        lemma_chosen_prefix(ms, (k - 1) as nat, force, usable);
        lemma_chosen_prefix_take(ms, k as int, (k - 1) as nat, force, usable);
    }
}

proof fn lemma_chosen_prefix_take(ms: Seq<MetricsView>, j: int, k: nat, force: bool, usable: bool)
    requires
        k < j <= ms.len(),
    ensures
        chosen_pages(ms.take(j), k, force, usable) == chosen_pages(ms, k, force, usable),
    decreases k,
{
    if k > 0 {
        lemma_chosen_prefix_take(ms, j, (k - 1) as nat, force, usable);
        assert(ms.take(j)[k - 1] == ms[k - 1]);
    }
}

impl PdfConverter {
    /// The document from the pages' metrics and the model's answers
    /// (`results[i]` for page `i`, where it was asked and answered): each
    /// page with content (see [`llm_page_content`]), numbered from 1.
    pub fn assemble_llm_document(metrics: &Vec<PageMetrics>, results: &Vec<Option<String>>, has_llm: bool) -> (r: Document)
        requires
            metrics_bounded(metrics@),
        ensures
            r@ == (DocumentView {
                title: None,
                pages: llm_pages(metrics_views(metrics@), answers_view(results@), has_llm, metrics@.len()),
                metadata: Seq::empty(),
            }),
    {
        let ghost ms = metrics_views(metrics@);
        let ghost rs = answers_view(results@);
        let mut doc = Document::new();
        let mut idx: usize = 0;
        while idx < metrics.len()
            invariant
                idx <= metrics@.len(),
                ms == metrics_views(metrics@),
                rs == answers_view(results@),
                metrics_bounded(metrics@),
                doc.title is None,
                doc@.metadata.len() == 0,
                doc@.pages == llm_pages(ms, rs, has_llm, idx as nat),
            decreases metrics@.len() - idx,
        {
            let m = &metrics[idx];
            let mut page = Page::new((idx + 1) as u32);
            let ghost a = answer(rs, idx as int);
            let answered: Option<String> = if idx < results.len() {
                match &results[idx] {
                    Some(md) => Some(md.clone()),
                    None => None,
                }
            } else {
                None
            };
            assert(opt_str(answered) == a);
            match answered {
                Some(md) => {
                    page.add_content(ContentBlock::Markdown(md));
                },
                None => {
                    if !m.text.as_str().is_empty() {
                        if !m.is_high_quality() && !has_llm {
                            let mut t: Vec<char> = Vec::new();
                            crate::text::extend_str(&mut t, "[Note: Text extraction quality may be poor]\n\n");
                            crate::text::extend_str(&mut t, m.text.as_str());
                            page.add_content(ContentBlock::Text(to_string(t.as_slice())));
                        } else {
                            let c = chars_of(m.text.as_str());
                            page.add_content(ContentBlock::Text(to_string(c.as_slice())));
                        }
                    }
                },
            }
            let ghost c = llm_page_content(ms[idx as int], a, has_llm);
            assert(page@.content =~= c);
            let ghost before = doc@.pages;
            if page.content.len() > 0 {
                let ghost pv = page@;
                doc.add_page(page);
                assert(doc@.pages =~= before.push(pv));
            }
            assert(doc@.pages =~= llm_pages(ms, rs, has_llm, (idx + 1) as nat));
            idx += 1;
        }
        assert(doc@.metadata =~= Seq::<(Seq<char>, Seq<char>)>::empty());
        doc
    }

    /// Whether the model should be asked to read every page: the document
    /// came out empty, the PDF has pages, and a model and the parsed PDF are
    /// at hand.
    pub fn needs_full_retry(document: &Document, page_count: usize, has_llm: bool, pdf_parsed: bool) -> (r: bool)
        ensures
            r == (document@.pages.len() == 0 && page_count > 0 && has_llm && pdf_parsed),
    {
        document.pages.len() == 0 && page_count > 0 && has_llm && pdf_parsed
    }

    /// Adds a page of the model's Markdown for each of the `page_count`
    /// pages that it answered (see [`answer_pages`]).
    pub fn try_llm_fallback_for_all_pages(document: &mut Document, page_count: usize, results: &Vec<Option<String>>)
        ensures
            final(document)@ == (DocumentView {
                pages: old(document)@.pages + answer_pages(answers_view(results@), page_count as nat),
                ..old(document)@
            }),
    {
        let ghost start = document@.pages;
        let ghost rs = answers_view(results@);
        let mut idx: usize = 0;
        while idx < page_count
            invariant
                idx <= page_count,
                rs == answers_view(results@),
                document.title == old(document).title,
                document.metadata == old(document).metadata,
                start == old(document)@.pages,
                document@.pages == start + answer_pages(rs, idx as nat),
            decreases page_count - idx,
        {
            let ghost before = document@.pages;
            if idx < results.len() {
                assert(answer(rs, idx as int) == opt_str(results@[idx as int]));
                match &results[idx] {
                    Some(md) => {
                        let mut page = Page::new((idx + 1) as u32);
                        let mdc = md.clone();
                        assert(mdc@ == md@);
                        page.add_content(ContentBlock::Markdown(mdc));
                        let ghost pv = page@;
                        assert(pv.content =~= seq![BlockView::Markdown(md@)]);
                        document.add_page(page);
                        assert(document@.pages =~= before.push(pv));
                    },
                    None => {},
                }
            }
            assert(document@.pages =~= start + answer_pages(rs, (idx + 1) as nat));
            idx += 1;
        }
    }

    /// Adds the page saying that nothing could be extracted.
    pub fn add_fallback_page(document: &mut Document)
        ensures
            final(document)@ == (DocumentView { pages: old(document)@.pages.push(fallback_page()), ..old(document)@ }),
    {
        add_text_page(
            document,
            1,
            String::from_str(
                "[PDF content could not be extracted. The document may be scanned, protected, or use unsupported encoding.]",
            ),
        );
    }
}

impl PdfConverter {
    /// Converts a PDF without a model (see [`basic_result`]); an extension
    /// hint other than `.pdf` is an invalid file.
    pub fn convert_bytes(
        &self,
        page_count: usize,
        extracted: Result<String, String>,
        options: Option<&ConversionOptions>,
    ) -> (r: Result<Document, MarkitdownError>)
        ensures
            match options {
                Some(o) => match opt_str(o.file_extension) {
                    Some(e) => if e == ".pdf"@ {
                        basic_result(page_count as nat, text_result(extracted), r)
                    } else {
                        r matches Err(MarkitdownError::InvalidFile(m)) && m@ == "Expected .pdf file, got "@ + e
                    },
                    None => basic_result(page_count as nat, text_result(extracted), r),
                },
                None => basic_result(page_count as nat, text_result(extracted), r),
            },
    {
        match options {
            Some(o) => match &o.file_extension {
                Some(e) => {
                    let c = chars_of(e.as_str());
                    if !chars_eq_str(c.as_slice(), ".pdf") {
                        let mut m: Vec<char> = Vec::new();
                        extend_str(&mut m, "Expected .pdf file, got ");
                        extend_chars(&mut m, c.as_slice());
                        return Err(MarkitdownError::InvalidFile(to_string(m.as_slice())));
                    }
                },
                None => {},
            },
            None => {},
        }
        self.convert_basic(page_count, extracted)
    }
}

impl DocumentConverter for PdfConverter {
    open spec fn extensions(&self) -> Seq<Seq<char>> {
        seq![".pdf"@]
    }

    fn supported_extensions(&self) -> (r: Vec<&'static str>) {
        let r = vec![".pdf"];
        assert(ext_views(r@) =~= self.extensions());
        r
    }
}

} // verus!
