//! Describing images with a model: the images go out in groups of a set
//! size (a group of one as a single image), each image of a group with its
//! context, and the model's answer for a group is split into one
//! description per image, by `## Image` headers or by `---` separators, and
//! fitted to the number of images.
use vstd::prelude::*;
use crate::chars::to_string;
use crate::html::{find_char, index_of_char};
use crate::model::{opt_str, strs, ExtractedImage, ImageView};
use crate::pdf_text::{first_match, first_match_exec, lemma_first_match_bound};
use crate::text::{
    chars_of, decimal, extend_str, has_prefix, push_decimal, starts_with_str, sub_vec, trim, trim_chars,
};

verus! {

/// The pieces of `s` from `start` on between the occurrences of the
/// non-empty `p`, as `str::split` gives them.
pub open spec fn split_from(s: Seq<char>, p: Seq<char>, start: int) -> Seq<Seq<char>>
    decreases s.len() - start,
{
    if p.len() == 0 || start < 0 || start > s.len() {
        Seq::empty()
    } else {
        match first_match(s, p, start, s.len() as int) {
            Some(i) => {
                proof {
                    lemma_first_match_bound(s, p, start, s.len() as int);
                }
                seq![s.subrange(start, i)] + split_from(s, p, i + p.len())
            },
            None => seq![s.subrange(start, s.len() as int)],
        }
    }
}

/// `str::split` of `s` on the non-empty `p`.
pub open spec fn split_on(s: Seq<char>, p: Seq<char>) -> Seq<Seq<char>> {
    split_from(s, p, 0)
}

/// The description in a piece after an `## Image` header: the piece
/// trimmed, without its first line where it has more than one, trimmed.
pub open spec fn header_piece_text(piece: Seq<char>) -> Seq<char> {
    let t = trim(piece);
    trim(
        match index_of_char(t, '\n') {
            Some(k) => t.skip(k + 1),
            None => t,
        },
    )
}

/// The non-empty descriptions of the pieces, in order.
pub open spec fn header_texts(pieces: Seq<Seq<char>>) -> Seq<Seq<char>>
    decreases pieces.len(),
{
    if pieces.len() == 0 {
        Seq::empty()
    } else {
        header_texts(pieces.drop_last()) + {
            let t = header_piece_text(pieces.last());
            if t.len() > 0 {
                seq![t]
            } else {
                Seq::empty()
            }
        }
    }
}

/// The descriptions after `## Image` headers, where there is at least one
/// header and one non-empty description.
pub open spec fn with_headers(response: Seq<char>) -> Option<Seq<Seq<char>>> {
    let parts = split_on(response, "## Image"@);
    if parts.len() <= 1 {
        None
    } else {
        let d = header_texts(parts.skip(1));
        if d.len() == 0 {
            None
        } else {
            Some(d)
        }
    }
}

/// The pieces between `---` separators, trimmed, without the empty ones and
/// those that begin with `Image`.
pub open spec fn separator_texts(pieces: Seq<Seq<char>>) -> Seq<Seq<char>>
    decreases pieces.len(),
{
    if pieces.len() == 0 {
        Seq::empty()
    } else {
        separator_texts(pieces.drop_last()) + {
            let t = trim(pieces.last());
            if t.len() > 0 && !has_prefix(t, "Image"@) {
                seq![t]
            } else {
                Seq::empty()
            }
        }
    }
}

/// The descriptions between `---` separators, where there is one.
pub open spec fn with_separators(response: Seq<char>) -> Option<Seq<Seq<char>>> {
    let d = separator_texts(split_on(response, "---"@));
    if d.len() == 0 {
        None
    } else {
        Some(d)
    }
}

/// `n` copies of the whole response.
pub open spec fn whole_response(response: Seq<char>, n: nat) -> Seq<Seq<char>> {
    Seq::new(n, |i: int| response)
}

/// The descriptions fitted to `n` images: too few give the whole response
/// for every image, too many are cut to the first `n`.
pub open spec fn normalized(d: Seq<Seq<char>>, response: Seq<char>, n: nat) -> Seq<Seq<char>> {
    if d.len() < n {
        whole_response(response, n)
    } else {
        d.take(n as int)
    }
}

/// The descriptions of `n` images in a response: by headers, else by
/// separators, else the whole response for each; then fitted to `n`.
pub open spec fn batch_descriptions(response: Seq<char>, n: nat) -> Seq<Seq<char>> {
    let d = match with_headers(response) {
        Some(d) => d,
        None => match with_separators(response) {
            Some(d) => d,
            None => whole_response(response, n),
        },
    };
    normalized(d, response, n)
}

/// The pieces of `s` between the occurrences of the non-empty `p`.
pub(crate) fn split_chars(s: &[char], p: &str) -> (r: Vec<Vec<char>>)
    requires
        p@.len() > 0,
    ensures
        r.deep_view() == split_on(s@, p@),
{
    let pc = chars_of(p);
    let n = s.len();
    let mut out: Vec<Vec<char>> = Vec::new();
    let mut start: usize = 0;
    loop
        invariant
            start <= n == s@.len(),
            pc@ == p@,
            p@.len() > 0,
            out.deep_view() + split_from(s@, p@, start as int) == split_on(s@, p@),
        decreases n - start,
    {
        let ghost before = out.deep_view();
        match first_match_exec(s, pc.as_slice(), start, n) {
            Some(i) => {
                proof {
                    lemma_first_match_bound(s@, p@, start as int, n as int);
                }
                let piece = sub_vec(s, start, i);
                out.push(piece);
                proof {
                    crate::text::lemma_push_line(before, out@, piece);
                    assert(out.deep_view() =~= before.push(piece@));
                    assert(split_from(s@, p@, start as int) == seq![s@.subrange(start as int, i as int)] + split_from(
                        s@,
                        p@,
                        i + p@.len(),
                    ));
                    assert(out.deep_view() + split_from(s@, p@, i + p@.len()) =~= before + split_from(
                        s@,
                        p@,
                        start as int,
                    ));
                }
                start = i + pc.len();
            },
            None => {
                let piece = sub_vec(s, start, n);
                out.push(piece);
                proof {
                    crate::text::lemma_push_line(before, out@, piece);
                    assert(out.deep_view() =~= before.push(piece@));
                    assert(out.deep_view() =~= before + split_from(s@, p@, start as int));
                }
                return out;
            },
        }
    }
}

/// The descriptions after `## Image` headers (see [`with_headers`]).
pub fn parse_batch_response_with_headers(response: &str, expected_count: usize) -> (r: Option<Vec<String>>)
    ensures
        match r {
            Some(v) => with_headers(response@) == Some(strs(v@)),
            None => with_headers(response@) is None,
        },
{
    let rc = chars_of(response);
    proof {
        reveal_strlit("## Image");
    }
    let parts = split_chars(rc.as_slice(), "## Image");
    let ghost pv = parts.deep_view();
    if parts.len() <= 1 {
        return None;
    }
    let ghost rest = pv.skip(1);
    let mut out: Vec<String> = Vec::new();
    let mut k: usize = 1;
    while k < parts.len()
        invariant
            1 <= k <= parts@.len(),
            pv == parts.deep_view(),
            rest == pv.skip(1),
            strs(out@) == header_texts(rest.take(k - 1)),
        decreases parts@.len() - k,
    {
        let t = trim_chars(parts[k].as_slice());
        let body = match find_char(t.as_slice(), '\n') {
            Some(j) => {
                assert(j < t@.len());
                assert(t@.len() == t.len());
                sub_vec(t.as_slice(), j + 1, t.len())
            },
            None => t,
        };
        let d = trim_chars(body.as_slice());
        proof {
            assert(parts@[k as int].deep_view() == pv[k as int]);
            crate::text::lemma_chars_deep_view(parts@[k as int]);
            assert(rest.take(k as int).drop_last() =~= rest.take(k - 1));
            assert(rest.take(k as int).last() == pv[k as int]);
            assert(d@ == header_piece_text(pv[k as int]));
        }
        let ghost before = strs(out@);
        if d.len() > 0 {
            out.push(to_string(d.as_slice()));
            assert(strs(out@) =~= before.push(d@));
        }
        k += 1;
    }
    assert(rest.take(k - 1) =~= rest);
    if out.len() == 0 {
        None
    } else {
        Some(out)
    }
}

/// The descriptions between `---` separators (see [`with_separators`]).
pub fn parse_batch_response_with_separators(response: &str, expected_count: usize) -> (r: Option<Vec<String>>)
    ensures
        match r {
            Some(v) => with_separators(response@) == Some(strs(v@)),
            None => with_separators(response@) is None,
        },
{
    let rc = chars_of(response);
    proof {
        reveal_strlit("---");
    }
    let parts = split_chars(rc.as_slice(), "---");
    let ghost pv = parts.deep_view();
    let mut out: Vec<String> = Vec::new();
    let mut k: usize = 0;
    while k < parts.len()
        invariant
            k <= parts@.len(),
            pv == parts.deep_view(),
            strs(out@) == separator_texts(pv.take(k as int)),
        decreases parts@.len() - k,
    {
        let t = trim_chars(parts[k].as_slice());
        proof {
            assert(parts@[k as int].deep_view() == pv[k as int]);
            crate::text::lemma_chars_deep_view(parts@[k as int]);
            assert(pv.take(k + 1).drop_last() =~= pv.take(k as int));
            assert(pv.take(k + 1).last() == pv[k as int]);
        }
        let ghost before = strs(out@);
        if t.len() > 0 && !starts_with_str(t.as_slice(), "Image") {
            out.push(to_string(t.as_slice()));
            assert(strs(out@) =~= before.push(t@));
        }
        k += 1;
    }
    assert(pv.take(k as int) =~= pv);
    if out.len() == 0 {
        None
    } else {
        Some(out)
    }
}

/// `n` copies of the response.
fn copies(response: &str, n: usize) -> (r: Vec<String>)
    ensures
        strs(r@) == whole_response(response@, n as nat),
{
    let mut out: Vec<String> = Vec::new();
    let mut i: usize = 0;
    while i < n
        invariant
            i <= n,
            strs(out@) =~= whole_response(response@, i as nat),
        decreases n - i,
    {
        let ghost before = strs(out@);
        let x = String::from_str(response);
        out.push(x);
        assert(strs(out@) =~= before.push(x@));
        i += 1;
    }
    out
}

/// Fits the descriptions to `expected_count` images (see [`normalized`]).
pub fn normalize_batch_descriptions(descriptions: Vec<String>, response: &str, expected_count: usize) -> (r: Vec<String>)
    ensures
        strs(r@) == normalized(strs(descriptions@), response@, expected_count as nat),
{
    if descriptions.len() < expected_count {
        return copies(response, expected_count);
    }
    let mut d = descriptions;
    if d.len() > expected_count {
        d.truncate(expected_count);
    }
    assert(strs(d@) =~= strs(descriptions@).take(expected_count as int));
    d
}

/// The descriptions of `expected_count` images in a response (see
/// [`batch_descriptions`]).
pub fn parse_batch_response(response: &str, expected_count: usize) -> (r: Vec<String>)
    ensures
        strs(r@) == batch_descriptions(response@, expected_count as nat),
{
    let descriptions = match parse_batch_response_with_headers(response, expected_count) {
        Some(d) => d,
        None => match parse_batch_response_with_separators(response, expected_count) {
            Some(d) => d,
            None => copies(response, expected_count),
        },
    };
    normalize_batch_descriptions(descriptions, response, expected_count)
}


// ---------------------------------------------------------------------
// Groups of images
// ---------------------------------------------------------------------

/// The next request of a run that describes `n` images: one image alone,
/// a group of images, or none left.
pub enum DescribeStep {
    Single(usize),
    Batch { start: usize, count: usize },
    Finished,
}

/// The size of the group that starts after `done` of `n` images, at most
/// `per` to a request.
pub open spec fn group_len(n: nat, per: nat, done: nat) -> nat {
    if n - done < per {
        (n - done) as nat
    } else {
        per
    }
}

/// The sizes of the groups from image `done` on.
pub open spec fn group_sizes(n: nat, per: nat, done: nat) -> Seq<nat>
    decreases n - done,
{
    if done >= n || per == 0 {
        Seq::empty()
    } else {
        seq![group_len(n, per, done)] + group_sizes(n, per, done + group_len(n, per, done))
    }
}

/// The sum of the sizes.
pub open spec fn total(s: Seq<nat>) -> nat
    decreases s.len(),
{
    if s.len() == 0 {
        0
    } else {
        s[0] + total(s.drop_first())
    }
}

/// The request after the first `done` of `n` images, `per_message` to a
/// request: none when all are done; a group of one goes as a single image.
pub fn next_step(n: usize, per_message: usize, done: usize) -> (r: DescribeStep)
    requires
        per_message >= 1,
        done <= n,
    ensures
        done == n ==> r is Finished,
        done < n && group_len(n as nat, per_message as nat, done as nat) == 1 ==> r == DescribeStep::Single(done),
        done < n && group_len(n as nat, per_message as nat, done as nat) > 1 ==> r == (DescribeStep::Batch {
            start: done,
            count: group_len(n as nat, per_message as nat, done as nat) as usize,
        }),
{
    if done == n {
        return DescribeStep::Finished;
    }
    let count = if n - done < per_message {
        n - done
    } else {
        per_message
    };
    if count == 1 {
        DescribeStep::Single(done)
    } else {
        DescribeStep::Batch { start: done, count }
    }
}

/// The descriptions that a reply gives for a request: a single image's
/// reply is its description; a group's reply is split into one description
/// per image of the group.
pub open spec fn step_descriptions(step: DescribeStep, reply: Seq<char>) -> Seq<Seq<char>> {
    match step {
        DescribeStep::Single(_) => seq![reply],
        DescribeStep::Batch { count, .. } => batch_descriptions(reply, count as nat),
        DescribeStep::Finished => Seq::empty(),
    }
}

/// Adds the descriptions that the reply to the request gives.
pub fn add_reply(descriptions: &mut Vec<String>, step: &DescribeStep, reply: &str)
    ensures
        strs(final(descriptions)@) == strs(old(descriptions)@) + step_descriptions(*step, reply@),
{
    let ghost before = strs(descriptions@);
    match step {
        DescribeStep::Single(_) => {
            descriptions.push(String::from_str(reply));
            assert(strs(descriptions@) =~= before + seq![reply@]);
        },
        DescribeStep::Batch { count, .. } => {
            let mut parts = parse_batch_response(reply, *count);
            let ghost pv = strs(parts@);
            descriptions.append(&mut parts);
            assert(strs(descriptions@) =~= before + pv);
        },
        DescribeStep::Finished => {
            assert(strs(descriptions@) =~= before + Seq::<Seq<char>>::empty());
        },
    }
}

/// The context sent with image `i` (from 0) of a group: its number, and
/// its alt text, dimensions, page and source path where known.
pub open spec fn image_context_spec(img: ImageView, i: nat) -> Seq<char> {
    "\n--- Image "@ + decimal(i + 1) + " ---"@ + labelled("\nExisting alt text: "@, img.alt_text) + dims_md(
        img.width,
        img.height,
    ) + match img.page_number {
        Some(p) => "\nFrom page: "@ + decimal(p as nat),
        None => Seq::empty(),
    } + labelled("\nSource path hint: "@, img.source_path)
}

/// The dimensions part of an image's context.
pub open spec fn dims_md(w: Option<u32>, h: Option<u32>) -> Seq<char> {
    match (w, h) {
        (Some(w), Some(h)) => "\nDimensions: "@ + decimal(w as nat) + "x"@ + decimal(h as nat) + " pixels"@,
        _ => Seq::empty(),
    }
}

/// A labelled optional text part of an image's context.
pub open spec fn labelled(label: Seq<char>, v: Option<Seq<char>>) -> Seq<char> {
    match v {
        Some(x) => label + x,
        None => Seq::empty(),
    }
}

fn push_labelled(out: &mut Vec<char>, label: &str, v: &Option<String>)
    ensures
        final(out)@ == old(out)@ + labelled(label@, opt_str(*v)),
{
    match v {
        Some(x) => {
            extend_str(out, label);
            extend_str(out, x.as_str());
        },
        None => {},
    }
}

fn push_dims(out: &mut Vec<char>, w: Option<u32>, h: Option<u32>)
    ensures
        final(out)@ == old(out)@ + dims_md(w, h),
{
    let ghost start = out@;
    match (w, h) {
        (Some(w), Some(h)) => {
            extend_str(out, "\nDimensions: ");
            push_decimal(out, w as usize);
            extend_str(out, "x");
            push_decimal(out, h as usize);
            extend_str(out, " pixels");
            assert(out@ =~= start + dims_md(Some(w), Some(h)));
        },
        _ => {
            assert(out@ =~= start + dims_md(w, h));
        },
    }
}

fn push_page(out: &mut Vec<char>, p: Option<u32>)
    ensures
        final(out)@ == old(out)@ + match p {
            Some(p) => "\nFrom page: "@ + decimal(p as nat),
            None => Seq::<char>::empty(),
        },
{
    let ghost start = out@;
    match p {
        Some(p) => {
            extend_str(out, "\nFrom page: ");
            push_decimal(out, p as usize);
        },
        None => {
            assert(out@ =~= start + Seq::<char>::empty());
        },
    }
}

/// The context sent with image `i` (from 0) of a group.
pub fn image_context(img: &ExtractedImage, i: usize) -> (r: String)
    requires
        i < usize::MAX,
    ensures
        r@ == image_context_spec(img@, i as nat),
{
    let ghost v = img@;
    let mut out: Vec<char> = Vec::new();
    extend_str(&mut out, "\n--- Image ");
    push_decimal(&mut out, i + 1);
    extend_str(&mut out, " ---");
    push_labelled(&mut out, "\nExisting alt text: ", &img.alt_text);
    push_dims(&mut out, img.width, img.height);
    push_page(&mut out, img.page_number);
    push_labelled(&mut out, "\nSource path hint: ", &img.source_path);
    assert(out@ =~= image_context_spec(v, i as nat));
    to_string(out.as_slice())
}

/// A run over `n` images, `per` to a request, goes in groups of `per`
/// images but the last, which holds the rest; each group holds at least one
/// image, and together they hold each image once.
pub proof fn groups_cover_every_image(n: nat, per: nat, done: nat)
    requires
        per >= 1,
        done <= n,
    ensures
        total(group_sizes(n, per, done)) == n - done,
        forall|k: int| 0 <= k < group_sizes(n, per, done).len() ==> 1 <= #[trigger] group_sizes(n, per, done)[k]
            <= per,
        forall|k: int| 0 <= k < group_sizes(n, per, done).len() - 1 ==> #[trigger] group_sizes(n, per, done)[k]
            == per,
    decreases n - done,
{
    if done < n {
        let g = group_len(n, per, done);
        groups_cover_every_image(n, per, done + g);
        let rest = group_sizes(n, per, done + g);
        let all = group_sizes(n, per, done);
        assert(all == seq![g] + rest);
        assert(all.drop_first() =~= rest);
        assert forall|k: int| 0 <= k < all.len() implies 1 <= #[trigger] all[k] <= per by {
            if k > 0 {
                assert(all[k] == rest[k - 1]);
            }
        }
        assert forall|k: int| 0 <= k < all.len() - 1 implies #[trigger] all[k] == per by {
            if k > 0 {
                assert(all[k] == rest[k - 1]);
            } else {
                if g < per {
                    assert(done + g == n);
                    assert(rest.len() == 0);
                }
            }
        }
    }
}

} // verus!
