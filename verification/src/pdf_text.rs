//! Where to break long text into chunks: at a paragraph break, else a
//! sentence end, else a space, near a target position (in characters).
use vstd::prelude::*;
use crate::text::chars_of;

verus! {

/// The first position `i` in `start..` where `p` occurs with
/// `i + p.len() <= hi`.
pub open spec fn first_match(s: Seq<char>, p: Seq<char>, start: int, hi: int) -> Option<int>
    decreases hi - start,
{
    if start < 0 || start + p.len() > hi {
        None
    } else if p.len() == 0 || s.subrange(start, start + p.len()) == p {
        Some(start)
    } else {
        first_match(s, p, start + 1, hi)
    }
}

/// The position just after the first occurrence of `p` in the window
/// `lo..hi`.
pub open spec fn after_match(s: Seq<char>, p: Seq<char>, lo: int, hi: int) -> Option<int> {
    match first_match(s, p, lo, hi) {
        Some(i) => Some(i + p.len()),
        None => None,
    }
}

/// The sentence ends looked for, in order.
pub open spec fn sentence_ends() -> Seq<Seq<char>> {
    seq![". "@, ".\n"@, "! "@, "!\n"@, "? "@, "?\n"@]
}

/// The position after the first sentence end found, trying the ends in
/// order from the `k`-th.
pub open spec fn sentence_break(s: Seq<char>, k: int, lo: int, hi: int) -> Option<int>
    decreases 6 - k,
{
    if k < 0 || k >= 6 {
        None
    } else {
        match after_match(s, sentence_ends()[k], lo, hi) {
            Some(i) => Some(i),
            None => sentence_break(s, k + 1, lo, hi),
        }
    }
}

/// The break point for a chunk of `t` characters of `s`: the end where `t`
/// reaches it; else, in the window from 4/5 of `t` to 6/5 of `t` (at most
/// the end), just after the first paragraph break, else after the first
/// sentence end (the ends tried in order); else just after the first space
/// from `t` to the window's end; else `t`.
pub open spec fn break_point(s: Seq<char>, t: int) -> int {
    let n = s.len() as int;
    if t >= n {
        n
    } else {
        let lo = t * 4 / 5;
        let hi = if t * 6 / 5 < n {
            t * 6 / 5
        } else {
            n
        };
        match after_match(s, "\n\n"@, lo, hi) {
            Some(i) => i,
            None => match sentence_break(s, 0, lo, hi) {
                Some(i) => i,
                None => match after_match(s, " "@, t, hi) {
                    Some(i) => i,
                    None => t,
                },
            },
        }
    }
}

/// The first position from `lo` where `p` occurs within `..hi`.
pub(crate) fn first_match_exec(s: &[char], p: &[char], lo: usize, hi: usize) -> (r: Option<usize>)
    requires
        lo <= hi <= s@.len(),
    ensures
        match r {
            Some(i) => first_match(s@, p@, lo as int, hi as int) == Some(i as int),
            None => first_match(s@, p@, lo as int, hi as int) is None,
        },
{
    if p.len() > hi - lo {
        return None;
    }
    let mut i: usize = lo;
    while i <= hi - p.len()
        invariant
            lo <= i <= hi,
            hi <= s@.len(),
            p@.len() <= hi,
            first_match(s@, p@, lo as int, hi as int) == first_match(s@, p@, i as int, hi as int),
        decreases hi - i,
    {
        let mut k: usize = 0;
        let mut same = true;
        while k < p.len()
            invariant
                k <= p@.len(),
                i + p@.len() <= hi <= s@.len(),
                same <==> (forall|j: int| 0 <= j < k ==> s@[i + j] == p@[j]),
            decreases p@.len() - k,
        {
            if s[i + k] != p[k] {
                same = false;
            }
            k += 1;
        }
        if same {
            assert(s@.subrange(i as int, i + p@.len()) =~= p@);
            return Some(i);
        }
        proof {
            if p@.len() > 0 {
                let j = choose|j: int| 0 <= j < p@.len() && s@[i + j] != p@[j];
                assert(s@.subrange(i as int, i + p@.len())[j] != p@[j]);
            }
        }
        i += 1;
    }
    None
}

/// The position just after the first occurrence of `p` in `lo..hi`.
fn after_match_exec(s: &[char], p: &str, lo: usize, hi: usize) -> (r: Option<usize>)
    requires
        lo <= hi <= s@.len(),
    ensures
        match r {
            Some(i) => after_match(s@, p@, lo as int, hi as int) == Some(i as int),
            None => after_match(s@, p@, lo as int, hi as int) is None,
        },
{
    let pc = chars_of(p);
    match first_match_exec(s, pc.as_slice(), lo, hi) {
        Some(i) => {
            proof {
                assert(first_match(s@, p@, lo as int, hi as int) == Some(i as int));
                assert(i + p@.len() <= hi) by {
                    lemma_first_match_bound(s@, p@, lo as int, hi as int);
                }
            }
            Some(i + pc.len())
        },
        None => None,
    }
}

/// A match found by [`first_match`] ends within the window.
pub proof fn lemma_first_match_bound(s: Seq<char>, p: Seq<char>, start: int, hi: int)
    ensures
        first_match(s, p, start, hi) matches Some(i) ==> start <= i && i + p.len() <= hi,
    decreases hi - start,
{
    if start >= 0 && start + p.len() <= hi && !(p.len() == 0 || s.subrange(start, start + p.len()) == p) {
        lemma_first_match_bound(s, p, start + 1, hi);
    }
}

proof fn lemma_sentence_break_bound(s: Seq<char>, k: int, lo: int, hi: int)
    ensures
        sentence_break(s, k, lo, hi) matches Some(i) ==> lo < i <= hi,
    decreases 6 - k,
{
    if 0 <= k < 6 {
        reveal_strlit(". ");
        reveal_strlit(".\n");
        reveal_strlit("! ");
        reveal_strlit("!\n");
        reveal_strlit("? ");
        reveal_strlit("?\n");
        lemma_first_match_bound(s, sentence_ends()[k], lo, hi);
        assert(sentence_ends()[k].len() == 2);
        lemma_sentence_break_bound(s, k + 1, lo, hi);
    }
}

/// The break point of a text for a chunk of about `t` characters: the
/// whole text when it is no longer than `t`; otherwise a position from
/// four fifths of `t` to six fifths of `t`, within the text.
pub proof fn break_point_in_window(s: Seq<char>, t: int)
    requires
        t >= 0,
    ensures
        t >= s.len() ==> break_point(s, t) == s.len(),
        t < s.len() ==> t * 4 / 5 <= break_point(s, t) <= s.len(),
        t < s.len() ==> break_point(s, t) <= t * 6 / 5,
{
    if t < s.len() {
        let n = s.len() as int;
        let lo = t * 4 / 5;
        let hi = if t * 6 / 5 < n {
            t * 6 / 5
        } else {
            n
        };
        assert(lo <= t) by (nonlinear_arith)
            requires
                t >= 0,
                lo == t * 4 / 5,
        ;
        assert(t <= t * 6 / 5) by (nonlinear_arith)
            requires
                t >= 0,
        ;
        reveal_strlit("\n\n");
        reveal_strlit(" ");
        lemma_first_match_bound(s, "\n\n"@, lo, hi);
        lemma_sentence_break_bound(s, 0, lo, hi);
        lemma_first_match_bound(s, " "@, t, hi);
    }
}

/// Finds where to break `text` for a chunk of about `target_chars`
/// characters, as [`break_point`] says; the result counts characters.
pub fn find_text_break_point(text: &str, target_chars: usize) -> (r: usize)
    ensures
        r == break_point(text@, target_chars as int),
{
    let c = chars_of(text);
    let s = c.as_slice();
    let n = s.len();
    if target_chars >= n {
        return n;
    }
    let lo = ((target_chars as u128) * 4 / 5) as usize;
    let wide = (target_chars as u128) * 6 / 5;
    let hi: usize = if wide < n as u128 {
        wide as usize
    } else {
        n
    };
    assert(lo <= target_chars <= hi <= n);
    match after_match_exec(s, "\n\n", lo, hi) {
        Some(i) => {
            return i;
        },
        None => {},
    }
    let ends = [". ", ".\n", "! ", "!\n", "? ", "?\n"];
    let mut k: usize = 0;
    while k < 6
        invariant
            lo <= hi <= s@.len(),
            k <= 6,
            ends@.len() == 6,
            forall|j: int| 0 <= j < 6 ==> ends@[j]@ == #[trigger] sentence_ends()[j],
            sentence_break(s@, 0, lo as int, hi as int) == sentence_break(s@, k as int, lo as int, hi as int),
            after_match(s@, "\n\n"@, lo as int, hi as int) is None,
            s@ == text@,
            target_chars < s@.len(),
            lo == target_chars * 4 / 5,
            hi == (if target_chars * 6 / 5 < s@.len() { target_chars * 6 / 5 } else { s@.len() as int }),
        decreases 6 - k,
    {
        assert(ends[k as int]@ == sentence_ends()[k as int]);
        match after_match_exec(s, ends[k], lo, hi) {
            Some(i) => {
                assert(sentence_break(s@, k as int, lo as int, hi as int) == Some(i as int));
                return i;
            },
            None => {},
        }
        k += 1;
    }
    match after_match_exec(s, " ", target_chars, hi) {
        Some(i) => i,
        None => target_chars,
    }
}

} // verus!
