//! Text of PowerPoint Document streams: text atoms grouped by slide, and a
//! scan for readable UTF-16 text when no atom is found.
use vstd::prelude::*;
use crate::legacy_office::{le16, le16_spec, le32, le32_spec, PptConverter};
use crate::office_text::{
    alpha_count, count_alphabetic, decode_utf16_units, keep_map, keep_map_chars, lemma_run_from,
    opt_chars, read_run, run_from, utf16_chars, utf16_units,
};
use crate::table_merge::{byte_len, wsum};
use crate::text::{
    chars_eq, chars_of, decimal, extend_chars, extend_str, is_whitespace, is_ws, join, join_chars,
    lemma_chars_deep_view, lemma_push_line, push_decimal, sub_vec, trim, trim_chars,
};

verus! {

// ---------------------------------------------------------------------
// Decoding text atoms
// ---------------------------------------------------------------------

/// The text of a UTF-16 atom: decoded, control characters other than
/// newline, carriage return and tab dropped, carriage returns made newlines,
/// trimmed; kept if at least 2 bytes long.
pub open spec fn ppt_utf16(d: Seq<u8>) -> Option<Seq<char>> {
    if d.len() < 2 {
        None
    } else {
        let t = trim(keep_map(utf16_chars(utf16_units(d))));
        if wsum(t, true) >= 2 {
            Some(t)
        } else {
            None
        }
    }
}

/// The character of a byte of a single-byte atom: printable ASCII and bytes
/// from 0xA0 map to their code point, CR and LF to a newline, anything else
/// to a space.
pub open spec fn ansi_char(b: u8) -> char {
    if (0x20 <= b && b < 0x7F) || b >= 0xA0 {
        b as char
    } else if b == 0x0D || b == 0x0A {
        '\n'
    } else {
        ' '
    }
}

/// The characters of the bytes before the first zero byte.
pub open spec fn ansi_chars(d: Seq<u8>) -> Seq<char>
    decreases d.len(),
{
    if d.len() == 0 || d[0] == 0 {
        seq![]
    } else {
        seq![ansi_char(d[0])] + ansi_chars(d.drop_first())
    }
}

/// The text of a single-byte atom, trimmed; kept if at least 2 bytes long.
pub open spec fn ppt_ansi(d: Seq<u8>) -> Option<Seq<char>> {
    let t = trim(ansi_chars(d));
    if wsum(t, true) >= 2 {
        Some(t)
    } else {
        None
    }
}

// ---------------------------------------------------------------------
// Meaningful text
// ---------------------------------------------------------------------

/// `p` occurs in `s` at position `i`.
pub open spec fn occurs_at(s: Seq<char>, p: Seq<char>, i: int) -> bool {
    0 <= i && i + p.len() <= s.len() && s.subrange(i, i + p.len()) == p
}

/// `p` occurs in `s`.
pub open spec fn has_substring(s: Seq<char>, p: Seq<char>) -> bool {
    exists|i: int| occurs_at(s, p, i)
}

/// A printable ASCII character other than space.
pub open spec fn ascii_graphic(c: char) -> bool {
    '!' <= c && c <= '~'
}

/// Number of characters that are neither printable ASCII nor whitespace.
pub open spec fn odd_count(s: Seq<char>) -> nat
    decreases s.len(),
{
    if s.len() == 0 {
        0
    } else {
        odd_count(s.drop_last()) + (if !ascii_graphic(s.last()) && !is_ws(s.last()) {
            1nat
        } else {
            0nat
        })
    }
}

/// Text that is not binary garbage: more than 30% of its characters and at
/// least two are alphabetic, it holds no NUL and no `[Content_Types]`, and at
/// most a quarter of its characters (rounded down) are neither printable
/// ASCII nor whitespace.
pub open spec fn meaningful(s: Seq<char>) -> bool {
    &&& s.len() > 0
    &&& 10 * alpha_count(s) > 3 * s.len()
    &&& !s.contains('\0')
    &&& !has_substring(s, "[Content_Types]"@)
    &&& odd_count(s) <= s.len() / 4
    &&& alpha_count(s) >= 2
}

/// Whether `p` occurs in `s` at position `i`.
fn matches_at(s: &[char], p: &[char], i: usize) -> (r: bool)
    requires
        i + p@.len() <= s@.len(),
    ensures
        r == occurs_at(s@, p@, i as int),
{
    let len = s.len();
    let mut k: usize = 0;
    while k < p.len()
        invariant
            len == s@.len(),
            i + p@.len() <= s@.len(),
            k <= p@.len(),
            forall|m: int| 0 <= m < k ==> s@[i + m] == p@[m],
        decreases p@.len() - k,
    {
        assert(i + k < s@.len());
        if s[i + k] != p[k] {
            assert(s@.subrange(i as int, i + p@.len())[k as int] != p@[k as int]);
            return false;
        }
        k += 1;
    }
    assert(s@.subrange(i as int, i + p@.len()) =~= p@);
    true
}

/// Whether `p` occurs in `s`.
pub(crate) fn find_substring(s: &[char], p: &[char]) -> (r: bool)
    ensures
        r == has_substring(s@, p@),
{
    if p.len() > s.len() {
        return false;
    }
    if p.len() == 0 {
        assert(s@.subrange(0, 0) =~= p@);
        assert(occurs_at(s@, p@, 0));
        return true;
    }
    let len = s.len();
    let last = len - p.len();
    let mut i: usize = 0;
    while i <= last
        invariant
            len == s@.len(),
            last == s@.len() - p@.len(),
            last < s@.len(),
            i <= last + 1,
            forall|j: int| 0 <= j < i ==> !occurs_at(s@, p@, j),
        decreases last + 1 - i,
    {
        if matches_at(s, p, i) {
            return true;
        }
        i += 1;
    }
    assert forall|j: int| !occurs_at(s@, p@, j) by {
        if 0 <= j < i {
        }
    }
    false
}

/// Counts the characters that are neither printable ASCII nor whitespace,
/// and tells whether a NUL occurs.
fn odd_and_nul(s: &[char]) -> (r: (usize, bool))
    ensures
        r.0 == odd_count(s@),
        r.1 == s@.contains('\0'),
{
    let mut n: usize = 0;
    let mut nul = false;
    let mut k: usize = 0;
    while k < s.len()
        invariant
            k <= s@.len(),
            n == odd_count(s@.take(k as int)),
            n <= k,
            nul == s@.take(k as int).contains('\0'),
        decreases s@.len() - k,
    {
        assert(s@.take(k + 1).drop_last() =~= s@.take(k as int));
        let c = s[k];
        if !('!' <= c && c <= '~') && !is_whitespace(c) {
            n += 1;
        }
        if c == '\0' {
            nul = true;
            assert(s@.take(k + 1)[k as int] == '\0');
        }
        proof {
            let t0 = s@.take(k as int);
            let t1 = s@.take(k + 1);
            assert(t1 =~= t0.push(c));
            if !nul {
                assert forall|m: int| 0 <= m < k + 1 implies #[trigger] t1[m] != '\0' by {
                    if m < k {
                        assert(t0[m] == t1[m]);
                    }
                }
            } else if c != '\0' {
                let m = choose|m: int| 0 <= m < t0.len() && t0[m] == '\0';
                assert(t1[m] == '\0');
            }
        }
        k += 1;
    }
    assert(s@.take(k as int) =~= s@);
    (n, nul)
}

// ---------------------------------------------------------------------
// Records of the Document stream
// ---------------------------------------------------------------------

/// The text of an atom, if kept: trimmed, non-empty and meaningful.
pub open spec fn atom_text(t: Option<Seq<char>>) -> Option<Seq<char>> {
    match t {
        Some(x) => if trim(x).len() > 0 && meaningful(trim(x)) {
            Some(trim(x))
        } else {
            None
        },
        None => None,
    }
}

/// Reading the records from `pos` with the texts found so far, the slides
/// closed so far and the texts of the open slide: each record has an 8-byte
/// header (version and instance, type, length); a record whose length runs
/// past the end is skipped by one byte; a slide record (0x03EE, 0x03F3)
/// closes the open slide if it has texts; a text atom (UTF-16: 0x0FA0,
/// 0x0FBA; single-byte: 0x0FA8) adds its text; any other record of version
/// 0xF is a container, whose content is read next; other records are
/// skipped.
pub open spec fn ppt_records(
    d: Seq<u8>,
    pos: int,
    texts: Seq<Seq<char>>,
    slides: Seq<Seq<Seq<char>>>,
    cur: Seq<Seq<char>>,
) -> (Seq<Seq<char>>, Seq<Seq<Seq<char>>>, Seq<Seq<char>>)
    decreases d.len() + 1 - pos,
{
    if pos < 0 || pos + 8 > d.len() {
        (texts, slides, cur)
    } else {
        let vi = le16_spec(d[pos], d[pos + 1]);
        let rt = le16_spec(d[pos + 2], d[pos + 3]);
        let rl = le32_spec(d[pos + 4], d[pos + 5], d[pos + 6], d[pos + 7]) as int;
        let p = pos + 8;
        if rl > d.len() - p {
            ppt_records(d, p + 1, texts, slides, cur)
        } else {
            let rec = d.subrange(p, p + rl);
            if rt == 0x03EE || rt == 0x03F3 {
                if cur.len() > 0 {
                    ppt_records(d, p + rl, texts, slides.push(cur), seq![])
                } else {
                    ppt_records(d, p + rl, texts, slides, cur)
                }
            } else if rt == 0x0FA0 || rt == 0x0FBA || rt == 0x0FA8 {
                let t = if rt == 0x0FA8 {
                    atom_text(ppt_ansi(rec))
                } else {
                    atom_text(ppt_utf16(rec))
                };
                match t {
                    Some(c) => ppt_records(d, p + rl, texts.push(c), slides, cur.push(c)),
                    None => ppt_records(d, p + rl, texts, slides, cur),
                }
            } else if vi % 16 == 15 {
                ppt_records(d, p, texts, slides, cur)
            } else {
                ppt_records(d, p + rl, texts, slides, cur)
            }
        }
    }
}

/// Two newlines.
pub open spec fn blank_line() -> Seq<char> {
    seq!['\n', '\n']
}

/// The texts of a slide, each followed by a blank line.
pub open spec fn slide_body(slide: Seq<Seq<char>>) -> Seq<char>
    decreases slide.len(),
{
    if slide.len() == 0 {
        seq![]
    } else {
        slide_body(slide.drop_last()) + slide.last() + blank_line()
    }
}

/// The Markdown of slide number `n`.
pub open spec fn slide_block(n: nat, slide: Seq<Seq<char>>) -> Seq<char> {
    "## Slide "@ + decimal(n) + blank_line() + slide_body(slide)
}

/// The Markdown of the slides, numbered from 1; slides without text are
/// left out.
pub open spec fn slides_md(slides: Seq<Seq<Seq<char>>>) -> Seq<char>
    decreases slides.len(),
{
    if slides.len() == 0 {
        seq![]
    } else {
        slides_md(slides.drop_last()) + (if slides.last().len() > 0 {
            slide_block(slides.len(), slides.last())
        } else {
            seq![]
        })
    }
}

/// The texts in order with repeats left out, and (for `min_bytes`) texts
/// shorter than `min_bytes` bytes.
pub open spec fn dedup_kept(s: Seq<Seq<char>>, min_bytes: nat) -> Seq<Seq<char>>
    decreases s.len(),
{
    if s.len() == 0 {
        seq![]
    } else {
        let d = dedup_kept(s.drop_last(), min_bytes);
        if wsum(s.last(), true) >= min_bytes && !d.contains(s.last()) {
            d.push(s.last())
        } else {
            d
        }
    }
}

/// The meaningful UTF-16 runs (at least 4 bytes after trimming) that start
/// at every even position from `i` on.
pub open spec fn patterns_from(d: Seq<u8>, i: int, texts: Seq<Seq<char>>) -> Seq<Seq<char>>
    decreases d.len() + 2 - i,
{
    if i < 0 || i + 1 >= d.len() {
        texts
    } else {
        let t = trim(run_from(d, i, seq![], true).0);
        patterns_from(
            d,
            i + 2,
            if wsum(t, true) >= 4 && meaningful(t) {
                texts.push(t)
            } else {
                texts
            },
        )
    }
}

/// The text found by scanning: the distinct runs of [`patterns_from`]
/// joined by blank lines, if any.
pub open spec fn text_patterns(d: Seq<u8>) -> Option<Seq<char>> {
    let texts = patterns_from(d, 0, seq![]);
    if texts.len() == 0 {
        None
    } else {
        let u = dedup_kept(texts, 3);
        if u.len() == 0 {
            None
        } else {
            Some(join(u, blank_line()))
        }
    }
}

/// The text of a Document stream: the slides with their texts as Markdown
/// sections; else the distinct texts joined by blank lines; else the text
/// found by scanning.
pub open spec fn ppt_text(d: Seq<u8>) -> Option<Seq<char>> {
    let (texts, slides, cur) = ppt_records(d, 0, seq![], seq![], seq![]);
    let all = if cur.len() > 0 {
        slides.push(cur)
    } else {
        slides
    };
    let md = slides_md(all);
    if all.len() > 0 && md.len() > 0 {
        Some(md)
    } else if texts.len() > 0 {
        Some(join(dedup_kept(texts, 0), blank_line()))
    } else {
        text_patterns(d)
    }
}

/// Appends a text to a list of texts.
fn push_text(v: &mut Vec<Vec<char>>, t: Vec<char>)
    ensures
        final(v).deep_view() == old(v).deep_view().push(t@),
{
    let ghost before = v.deep_view();
    v.push(t);
    proof {
        lemma_push_line(before, v@, t);
    }
}

/// Whether the list holds the text.
fn contains_text(v: &Vec<Vec<char>>, t: &[char]) -> (r: bool)
    ensures
        r == v.deep_view().contains(t@),
{
    let mut i: usize = 0;
    while i < v.len()
        invariant
            i <= v@.len(),
            forall|j: int| 0 <= j < i ==> v.deep_view()[j] != t@,
        decreases v@.len() - i,
    {
        proof {
            lemma_chars_deep_view(v@[i as int]);
        }
        if chars_eq(v[i].as_slice(), t) {
            assert(v.deep_view()[i as int] == t@);
            return true;
        }
        i += 1;
    }
    false
}

/// The texts with repeats, and texts shorter than `min_bytes` bytes, left
/// out.
fn dedup_texts(texts: &Vec<Vec<char>>, min_bytes: u128) -> (r: Vec<Vec<char>>)
    ensures
        r.deep_view() == dedup_kept(texts.deep_view(), min_bytes as nat),
{
    let ghost tv = texts.deep_view();
    let mut out: Vec<Vec<char>> = Vec::new();
    let mut k: usize = 0;
    while k < texts.len()
        invariant
            k <= texts@.len(),
            tv == texts.deep_view(),
            out.deep_view() == dedup_kept(tv.take(k as int), min_bytes as nat),
        decreases texts@.len() - k,
    {
        assert(tv.take(k + 1).drop_last() =~= tv.take(k as int));
        proof {
            lemma_chars_deep_view(texts@[k as int]);
        }
        assert(tv.take(k + 1).last() == texts@[k as int]@);
        let t = texts[k].as_slice();
        if byte_len(t) >= min_bytes && !contains_text(&out, t) {
            push_text(&mut out, sub_vec(t, 0, t.len()));
            assert(t@.subrange(0, t@.len() as int) =~= t@);
        }
        k += 1;
    }
    assert(tv.take(k as int) =~= tv);
    out
}

/// Appends the Markdown of slide number `number`.
fn push_slide(md: &mut Vec<char>, number: usize, slide: &Vec<Vec<char>>)
    ensures
        final(md)@ == old(md)@ + slide_block(number as nat, slide.deep_view()),
{
    let ghost sv = slide.deep_view();
    extend_str(md, "## Slide ");
    push_decimal(md, number);
    md.push('\n');
    md.push('\n');
    let ghost head = md@;
    assert(head == old(md)@ + "## Slide "@ + decimal(number as nat) + blank_line());
    let mut k: usize = 0;
    while k < slide.len()
        invariant
            k <= slide@.len(),
            sv == slide.deep_view(),
            md@ == head + slide_body(sv.take(k as int)),
        decreases slide@.len() - k,
    {
        assert(sv.take(k + 1).drop_last() =~= sv.take(k as int));
        proof {
            lemma_chars_deep_view(slide@[k as int]);
        }
        assert(sv.take(k + 1).last() == slide@[k as int]@);
        extend_chars(md, slide[k].as_slice());
        md.push('\n');
        md.push('\n');
        assert(md@ =~= head + slide_body(sv.take(k + 1)));
        k += 1;
    }
    assert(sv.take(k as int) =~= sv);
    assert(md@ =~= old(md)@ + slide_block(number as nat, sv));
}

impl PptConverter {
    /// Decodes the text of a UTF-16 atom.
    pub fn decode_utf16_text(data: &[u8]) -> (r: Option<Vec<char>>)
        ensures
            opt_chars(r) == ppt_utf16(data@),
    {
        if data.len() < 2 {
            return None;
        }
        let decoded = decode_utf16_units(data);
        let kept = keep_map_chars(decoded.as_slice());
        let t = trim_chars(kept.as_slice());
        if byte_len(t.as_slice()) >= 2 {
            Some(t)
        } else {
            None
        }
    }

    /// Decodes the text of a single-byte atom.
    pub fn decode_ansi_text(data: &[u8]) -> (r: Option<Vec<char>>)
        ensures
            opt_chars(r) == ppt_ansi(data@),
    {
        let mut out: Vec<char> = Vec::new();
        let mut k: usize = 0;
        assert(data@.skip(0) =~= data@);
        while k < data.len() && data[k] != 0
            invariant
                k <= data@.len(),
                ansi_chars(data@) == out@ + ansi_chars(data@.skip(k as int)),
            decreases data@.len() - k,
        {
            assert(data@.skip(k as int).drop_first() =~= data@.skip(k + 1));
            let b = data[k];
            let c = if (0x20 <= b && b < 0x7F) || b >= 0xA0 {
                b as char
            } else if b == 0x0D || b == 0x0A {
                '\n'
            } else {
                ' '
            };
            let ghost o = out@;
            out.push(c);
            assert(o + (seq![c] + ansi_chars(data@.skip(k + 1))) =~= out@ + ansi_chars(data@.skip(k + 1)));
            k += 1;
        }
        assert(ansi_chars(data@.skip(k as int)) =~= Seq::<char>::empty());
        let t = trim_chars(out.as_slice());
        if byte_len(t.as_slice()) >= 2 {
            Some(t)
        } else {
            None
        }
    }

    /// Whether the text looks like real text rather than binary garbage.
    pub fn is_meaningful_text(text: &[char]) -> (r: bool)
        ensures
            r == meaningful(text@),
    {
        let total = text.len();
        if total == 0 {
            return false;
        }
        let alpha = count_alphabetic(text);
        let (odd, nul) = odd_and_nul(text);
        let marker = chars_of("[Content_Types]");
        let garbage = nul || find_substring(text, marker.as_slice()) || odd > total / 4;
        (alpha as u128) * 10 > (total as u128) * 3 && !garbage && alpha >= 2
    }

    /// Scans for meaningful UTF-16 runs starting at every even position;
    /// the distinct ones, joined by blank lines.
    pub fn find_text_patterns(data: &[u8]) -> (r: Option<Vec<char>>)
        ensures
            opt_chars(r) == text_patterns(data@),
    {
        let n = data.len();
        let mut texts: Vec<Vec<char>> = Vec::new();
        assert(texts.deep_view() =~= Seq::<Seq<char>>::empty());
        let mut i: usize = 0;
        while i < n && n - i > 1
            invariant
                n == data@.len(),
                i <= n,
                patterns_from(data@, 0, seq![]) == patterns_from(data@, i as int, texts.deep_view()),
            decreases n - i,
        {
            let (run, _end) = read_run(data, i, true);
            let t = trim_chars(run.as_slice());
            if byte_len(t.as_slice()) >= 4 && Self::is_meaningful_text(t.as_slice()) {
                push_text(&mut texts, t);
            }
            if n - i < 4 {
                assert(patterns_from(data@, i + 2, texts.deep_view()) == texts.deep_view());
                i = n;
            } else {
                i = i + 2;
            }
        }
        if texts.len() == 0 {
            return None;
        }
        let unique = dedup_texts(&texts, 3);
        if unique.len() == 0 {
            None
        } else {
            let sep = vec!['\n', '\n'];
            assert(sep@ =~= blank_line());
            Some(join_chars(&unique, sep.as_slice()))
        }
    }

    /// The text of a PowerPoint Document stream.
    pub fn extract_text_from_ppt_stream(data: &[u8]) -> (r: Option<Vec<char>>)
        ensures
            opt_chars(r) == ppt_text(data@),
    {
        let n = data.len();
        let mut texts: Vec<Vec<char>> = Vec::new();
        let mut cur: Vec<Vec<char>> = Vec::new();
        let mut md: Vec<char> = Vec::new();
        let mut nslides: usize = 0;
        let ghost mut slides: Seq<Seq<Seq<char>>> = seq![];
        let mut pos: usize = 0;
        assert(texts.deep_view() =~= Seq::<Seq<char>>::empty());
        assert(cur.deep_view() =~= Seq::<Seq<char>>::empty());
        while pos < n && n - pos >= 8
            invariant
                n == data@.len(),
                pos <= n,
                nslides == slides.len(),
                8 * nslides <= pos,
                md@ == slides_md(slides),
                ppt_records(data@, 0, seq![], seq![], seq![]) == ppt_records(
                    data@,
                    pos as int,
                    texts.deep_view(),
                    slides,
                    cur.deep_view(),
                ),
            decreases n + 1 - pos,
        {
            let vi = le16(data[pos], data[pos + 1]);
            let rt = le16(data[pos + 2], data[pos + 3]);
            let rl = le32(data[pos + 4], data[pos + 5], data[pos + 6], data[pos + 7]) as usize;
            pos = pos + 8;
            if rl > n - pos {
                if pos < n {
                    pos = pos + 1;
                } else {
                    assert(ppt_records(data@, pos + 1, texts.deep_view(), slides, cur.deep_view())
                        == ppt_records(data@, pos as int, texts.deep_view(), slides, cur.deep_view()));
                }
                continue;
            }
            if rt == 0x03EE || rt == 0x03F3 {
                if cur.len() > 0 {
                    let ghost cv = cur.deep_view();
                    let ghost old_slides = slides;
                    nslides = nslides + 1;
                    push_slide(&mut md, nslides, &cur);
                    proof {
                        slides = slides.push(cv);
                        assert(slides.drop_last() =~= old_slides);
                        assert(cv.len() > 0);
                    }
                    cur = Vec::new();
                    assert(cur.deep_view() =~= Seq::<Seq<char>>::empty());
                }
            } else if rt == 0x0FA0 || rt == 0x0FBA || rt == 0x0FA8 {
                let rec = sub_vec(data, pos, pos + rl);
                let t = if rt == 0x0FA8 {
                    Self::decode_ansi_text(rec.as_slice())
                } else {
                    Self::decode_utf16_text(rec.as_slice())
                };
                if let Some(x) = t {
                    let c = trim_chars(x.as_slice());
                    if c.len() > 0 && Self::is_meaningful_text(c.as_slice()) {
                        push_text(&mut cur, sub_vec(c.as_slice(), 0, c.len()));
                        assert(c@.subrange(0, c@.len() as int) =~= c@);
                        push_text(&mut texts, c);
                    }
                }
            } else if (vi & 0x0F) == 0x0F {
                assert((vi & 0x0Fu16) == vi % 16) by (bit_vector);
                continue;
            } else {
                assert((vi & 0x0Fu16) == vi % 16) by (bit_vector);
            }
            pos = pos + rl;
        }
        if cur.len() > 0 {
            let ghost cv = cur.deep_view();
            let ghost old_slides = slides;
            nslides = nslides + 1;
            push_slide(&mut md, nslides, &cur);
            proof {
                slides = slides.push(cv);
                assert(slides.drop_last() =~= old_slides);
                assert(cv.len() > 0);
            }
        }
        if nslides > 0 && md.len() > 0 {
            return Some(md);
        }
        if texts.len() > 0 {
            let unique = dedup_texts(&texts, 0);
            let sep = vec!['\n', '\n'];
            assert(sep@ =~= blank_line());
            return Some(join_chars(&unique, sep.as_slice()));
        }
        Self::find_text_patterns(data)
    }
}

} // verus!
