//! Properties that hold of the converters for every input.
use vstd::prelude::*;
use crate::archive::{process_spec, ArchiveView};
use crate::log_file::{analysis_of, LogView, MAX_LISTED};
use crate::model::{doc_images, images_of, text_only_page, BlockView, DocPageView};
use crate::table_merge::{
    ends_nl, fragment_at, fragments_from, fragments_in, initial_pages, lemma_fragment_ranges, lemma_fragment_span, lemma_run_end,
    merge_pages_from, row_flags, run_end, sep_flags, PageView,
};
use crate::office_text::{clean_keep, clean_text, collapse, cp1252_decoded, mixed_text, utf16_text, word_text};
use crate::table_merge::wsum;
use crate::data::{language_table, lookup_language, CodeConverter};
use crate::model::DocumentConverter;
use crate::text::{all_ascii, ascii_lower, eq_ignore_case, is_ws, lines_of, trim, trim_end, trim_start};

verus! {

/// The blocks of a page made text-only hold no image.
proof fn lemma_text_only_blocks(c: Seq<BlockView>)
    ensures
        images_of(c.map_values(|b: BlockView| crate::model::text_only_block(b))) == Seq::<crate::model::ImageView>::empty(),
    decreases c.len(),
{
    let m = c.map_values(|b: BlockView| crate::model::text_only_block(b));
    if c.len() > 0 {
        lemma_text_only_blocks(c.drop_last());
        assert(m.drop_last() =~= c.drop_last().map_values(|b: BlockView| crate::model::text_only_block(b)));
        assert(images_of(m) =~= Seq::<crate::model::ImageView>::empty());
    } else {
        assert(m.len() == 0);
    }
}

/// The pages of a document made text-only.
pub open spec fn text_only_pages(pages: Seq<DocPageView>) -> Seq<DocPageView> {
    pages.map_values(|p: DocPageView| text_only_page(p))
}

/// A document made text-only has no images, the same number of pages, and
/// on each page the same number of blocks, in which each image became a
/// text block.
pub proof fn text_only_has_no_images(pages: Seq<DocPageView>)
    ensures
        doc_images(text_only_pages(pages)) == Seq::<crate::model::ImageView>::empty(),
        text_only_pages(pages).len() == pages.len(),
        forall|i: int| 0 <= i < pages.len() ==> (#[trigger] text_only_pages(pages)[i]).content.len() == pages[i].content.len(),
    decreases pages.len(),
{
    let m = text_only_pages(pages);
    if pages.len() > 0 {
        text_only_has_no_images(pages.drop_last());
        assert(m.drop_last() =~= text_only_pages(pages.drop_last()));
        lemma_text_only_blocks(pages.last().content);
        assert(doc_images(m) =~= Seq::<crate::model::ImageView>::empty());
    } else {
        assert(m.len() == 0);
    }
}

/// Merging tables across pages, from page `i` on (taking rows from page
/// `j`), keeps the number of pages and the number of each page.
pub proof fn merge_keeps_pages_from(res: Seq<PageView>, i: int, j: int)
    ensures
        merge_pages_from(res, i, j).len() == res.len(),
        forall|k: int| 0 <= k < res.len() ==> #[trigger] merge_pages_from(res, i, j)[k].page_number == res[k].page_number,
    decreases res.len() - i, res.len() - j, (if 0 <= j < res.len() {
        res[j].content.len()
    } else {
        0
    }),
{
    if i < 0 || j <= i || j >= res.len() {
    } else {
        let ci = res[i].content;
        let cn = res[j].content;
        let cur = fragments_in(ci);
        let nxt = fragments_in(cn);
        if cur.len() > 0 && cur.last().0.at_content_end && nxt.len() > 0 && crate::table_merge::can_merge(
            cur.last().0,
            nxt[0].0,
        ) {
            let last = cur.last();
            let first = nxt[0];
            let m = crate::table_merge::merge_spec(last.0, first.0);
            let s1 = crate::table_merge::offset(crate::text::lines_of(ci), last.1, crate::table_merge::ends_nl(ci), false) as int;
            let e1 = crate::table_merge::offset(crate::text::lines_of(ci), last.2, crate::table_merge::ends_nl(ci), false) as int;
            let s2 = crate::table_merge::offset(crate::text::lines_of(cn), first.1, crate::table_merge::ends_nl(cn), false) as int;
            let e2 = crate::table_merge::offset(crate::text::lines_of(cn), first.2, crate::table_merge::ends_nl(cn), false) as int;
            let pi = PageView {
                page_number: res[i].page_number,
                content: ci.take(s1) + m.content + ci.skip(e1),
                merged_from_next: true,
                merged_into_previous: res[i].merged_into_previous,
            };
            let pn = PageView {
                page_number: res[j].page_number,
                content: cn.take(s2) + cn.skip(e2),
                merged_from_next: res[j].merged_from_next,
                merged_into_previous: true,
            };
            lemma_fragment_span(cn, 0);
            let res2 = res.update(i, pi).update(j, pn);
            let j2 = if crate::text::trim(pn.content).len() == 0 {
                j + 1
            } else {
                j
            };
            merge_keeps_pages_from(res2, i, j2);
            assert(merge_pages_from(res, i, j) == merge_pages_from(res2, i, j2));
            assert forall|k: int| 0 <= k < res.len() implies #[trigger] merge_pages_from(res, i, j)[k].page_number
                == res[k].page_number by {
                assert(res2[k].page_number == res[k].page_number);
            }
        } else {
            merge_keeps_pages_from(res, i + 1, i + 2);
        }
    }
}

/// `merge_tables_across_pages` gives one page for each page it is given,
/// with the same page numbers in the same order.
pub proof fn merge_keeps_page_numbers(pages: Seq<(u32, String)>)
    ensures
        merge_pages_from(initial_pages(pages), 0, 1).len() == pages.len(),
        forall|k: int|
            0 <= k < pages.len() ==> #[trigger] merge_pages_from(initial_pages(pages), 0, 1)[k].page_number == pages[k].0,
{
    merge_keeps_pages_from(initial_pages(pages), 0, 1);
    assert forall|k: int| 0 <= k < pages.len() implies #[trigger] merge_pages_from(initial_pages(pages), 0, 1)[k].page_number
        == pages[k].0 by {
        assert(initial_pages(pages)[k].page_number == pages[k].0);
    }
}

/// Each file handed to `process_file` ends up either among the converted
/// documents or among the skipped files: their combined number grows by
/// exactly one, and the total count is not touched.
pub proof fn process_file_counts_once(r: ArchiveView, path: Seq<char>, contents: Seq<u8>)
    ensures
        process_spec(r, path, contents).documents.len() + process_spec(r, path, contents).skipped.len()
            == r.documents.len() + r.skipped.len() + 1,
        process_spec(r, path, contents).total == r.total,
        process_spec(r, path, contents).documents.len() >= r.documents.len(),
        process_spec(r, path, contents).skipped.len() >= r.skipped.len(),
{
}

/// In the analysis of a log, the error, warning and info lines together
/// are at most all lines, and exactly the first 50 (or all, if fewer)
/// error and warning lines are listed, in order of their line numbers.
pub proof fn log_analysis_counts(lines: Seq<Seq<char>>)
    ensures
        ({
            let a = analysis_of(lines);
            &&& a.total == lines.len()
            &&& a.errors + a.warnings + a.infos <= a.total
            &&& a.error_lines.len() == if a.errors < MAX_LISTED { a.errors } else { MAX_LISTED as nat }
            &&& a.warning_lines.len() == if a.warnings < MAX_LISTED { a.warnings } else { MAX_LISTED as nat }
            &&& forall|k: int| 0 <= k < a.error_lines.len() ==> 1 <= #[trigger] a.error_lines[k].0 <= a.total
            &&& forall|k: int, l: int| 0 <= k < l < a.error_lines.len() ==> a.error_lines[k].0 < a.error_lines[l].0
        }),
    decreases lines.len(),
{
    if lines.len() > 0 {
        log_analysis_counts(lines.drop_last());
    }
}

/// The tables found from line `i` on come in the order of their lines and
/// do not overlap.
proof fn fragments_from_ordered(ls: Seq<Seq<char>>, row: Seq<bool>, sep: Seq<bool>, nl: bool, i: int)
    requires
        0 <= i,
    ensures
        forall|j: int, k: int|
            0 <= j < k < fragments_from(ls, row, sep, nl, i).len() ==> #[trigger] fragments_from(ls, row, sep, nl, i)[j].2
                <= #[trigger] fragments_from(ls, row, sep, nl, i)[k].1,
    decreases row.len() - i,
{
    if i < row.len() {
        if row[i] {
            let e = run_end(row, i);
            lemma_run_end(row, i);
            fragments_from_ordered(ls, row, sep, nl, e);
            lemma_fragment_ranges(ls, row, sep, nl, e);
            let f = fragments_from(ls, row, sep, nl, i);
            let rest = fragments_from(ls, row, sep, nl, e);
            assert(f == seq![(fragment_at(ls, sep, nl, i, e), i, e)] + rest);
            assert forall|j: int, k: int| 0 <= j < k < f.len() implies #[trigger] f[j].2 <= #[trigger] f[k].1 by {
                assert(f[k] == rest[k - 1]);
                if j > 0 {
                    assert(f[j] == rest[j - 1]);
                }
            }
        } else {
            fragments_from_ordered(ls, row, sep, nl, i + 1);
            assert(fragments_from(ls, row, sep, nl, i) == fragments_from(ls, row, sep, nl, i + 1));
        }
    }
}

/// The tables that `detect_table_fragments` finds in a text each span at
/// least one line, come in the order of their lines, and do not overlap.
pub proof fn tables_in_order(c: Seq<char>)
    ensures
        forall|j: int| 0 <= j < fragments_in(c).len() ==> #[trigger] fragments_in(c)[j].1 < fragments_in(c)[j].2,
        forall|j: int, k: int|
            0 <= j < k < fragments_in(c).len() ==> #[trigger] fragments_in(c)[j].2 <= #[trigger] fragments_in(c)[k].1,
{
    let ls = lines_of(c);
    lemma_fragment_ranges(ls, row_flags(ls), sep_flags(ls), ends_nl(c), 0);
    fragments_from_ordered(ls, row_flags(ls), sep_flags(ls), ends_nl(c), 0);
}

// ---------------------------------------------------------------------
// Cleaned-up text
// ---------------------------------------------------------------------

/// A character that cleaned-up text may hold: a newline, a space, or a
/// printable character that is not whitespace.
pub open spec fn clean_char(c: char) -> bool {
    c == '\n' || c == ' ' || (clean_keep(c) && !is_ws(c))
}

/// Two characters that cleaned-up text never holds side by side: two
/// spaces, two newlines, or a newline and then a space.
pub open spec fn bad_pair(a: char, b: char) -> bool {
    (a == ' ' && b == ' ') || (a == '\n' && (b == '\n' || b == ' '))
}

/// Text as the clean-up leaves it.
pub open spec fn is_clean(s: Seq<char>) -> bool {
    &&& forall|i: int| 0 <= i < s.len() ==> clean_char(#[trigger] s[i])
    &&& forall|i: int| 0 <= i < s.len() - 1 ==> !bad_pair(#[trigger] s[i], s[i + 1])
}

proof fn lemma_clean_cons(c: char, r: Seq<char>)
    requires
        clean_char(c),
        is_clean(r),
        r.len() > 0 ==> !bad_pair(c, r[0]),
    ensures
        is_clean(seq![c] + r),
{
    let t = seq![c] + r;
    assert forall|i: int| 0 <= i < t.len() implies clean_char(#[trigger] t[i]) by {
        if i > 0 {
            assert(t[i] == r[i - 1]);
        }
    }
    assert forall|i: int| 0 <= i < t.len() - 1 implies !bad_pair(#[trigger] t[i], t[i + 1]) by {
        if i > 0 {
            assert(t[i] == r[i - 1] && t[i + 1] == r[i]);
        }
    }
}

proof fn lemma_collapse_clean(s: Seq<char>, ps: bool, pn: bool)
    requires
        !(ps && pn),
    ensures
        is_clean(collapse(s, ps, pn)),
        collapse(s, ps, pn).len() > 0 && pn ==> collapse(s, ps, pn)[0] != '\n' && collapse(s, ps, pn)[0] != ' ',
        collapse(s, ps, pn).len() > 0 && ps ==> collapse(s, ps, pn)[0] != ' ',
    decreases s.len(),
{
    if s.len() > 0 {
        let c = s[0];
        let t = s.drop_first();
        if !clean_keep(c) {
            lemma_collapse_clean(t, ps, pn);
        } else if c == '\n' {
            lemma_collapse_clean(t, false, true);
            if !pn {
                lemma_clean_cons('\n', collapse(t, false, true));
            }
        } else if is_ws(c) {
            if !ps && !pn {
                lemma_collapse_clean(t, true, pn);
                lemma_clean_cons(' ', collapse(t, true, pn));
            } else {
                lemma_collapse_clean(t, ps, pn);
            }
        } else {
            lemma_collapse_clean(t, false, false);
            lemma_clean_cons(c, collapse(t, false, false));
        }
    } else {
        assert(is_clean(collapse(s, ps, pn)));
    }
}

proof fn lemma_collapse_fixed(s: Seq<char>, ps: bool, pn: bool)
    requires
        is_clean(s),
        s.len() > 0 && pn ==> s[0] != '\n' && s[0] != ' ',
        s.len() > 0 && ps ==> s[0] != ' ',
    ensures
        collapse(s, ps, pn) == s,
    decreases s.len(),
{
    if s.len() > 0 {
        let c = s[0];
        let t = s.drop_first();
        assert(clean_char(c));
        assert(is_clean(t)) by {
            assert forall|i: int| 0 <= i < t.len() implies clean_char(#[trigger] t[i]) by {
                assert(t[i] == s[i + 1]);
            }
            assert forall|i: int| 0 <= i < t.len() - 1 implies !bad_pair(#[trigger] t[i], t[i + 1]) by {
                assert(t[i] == s[i + 1] && t[i + 1] == s[i + 2]);
            }
        }
        if t.len() > 0 {
            assert(!bad_pair(s[0], s[1]));
            assert(t[0] == s[1]);
        }
        if c == '\n' {
            lemma_collapse_fixed(t, false, true);
        } else if c == ' ' {
            lemma_collapse_fixed(t, true, pn);
        } else {
            lemma_collapse_fixed(t, false, false);
        }
        assert(seq![c] + t =~= s);
    }
}

proof fn lemma_clean_drop_first(s: Seq<char>)
    requires
        is_clean(s),
        s.len() > 0,
    ensures
        is_clean(s.drop_first()),
{
    let t = s.drop_first();
    assert forall|i: int| 0 <= i < t.len() implies clean_char(#[trigger] t[i]) by {
        assert(t[i] == s[i + 1]);
    }
    assert forall|i: int| 0 <= i < t.len() - 1 implies !bad_pair(#[trigger] t[i], t[i + 1]) by {
        assert(t[i] == s[i + 1] && t[i + 1] == s[i + 2]);
    }
}

proof fn lemma_clean_drop_last(s: Seq<char>)
    requires
        is_clean(s),
        s.len() > 0,
    ensures
        is_clean(s.drop_last()),
{
    let t = s.drop_last();
    assert forall|i: int| 0 <= i < t.len() implies clean_char(#[trigger] t[i]) by {
        assert(t[i] == s[i]);
    }
    assert forall|i: int| 0 <= i < t.len() - 1 implies !bad_pair(#[trigger] t[i], t[i + 1]) by {
        assert(t[i] == s[i] && t[i + 1] == s[i + 1]);
    }
}

proof fn lemma_trim_start_clean(s: Seq<char>)
    requires
        is_clean(s),
    ensures
        is_clean(trim_start(s)),
        trim_start(s).len() > 0 ==> !is_ws(trim_start(s)[0]),
    decreases s.len(),
{
    if s.len() > 0 && is_ws(s[0]) {
        lemma_clean_drop_first(s);
        lemma_trim_start_clean(s.drop_first());
    }
}

proof fn lemma_trim_end_clean(s: Seq<char>)
    requires
        is_clean(s),
    ensures
        is_clean(trim_end(s)),
        trim_end(s).len() > 0 ==> !is_ws(trim_end(s).last()),
        trim_end(s).len() <= s.len(),
        forall|i: int| 0 <= i < trim_end(s).len() ==> trim_end(s)[i] == s[i],
    decreases s.len(),
{
    if s.len() > 0 && is_ws(s.last()) {
        lemma_clean_drop_last(s);
        lemma_trim_end_clean(s.drop_last());
        assert forall|i: int| 0 <= i < trim_end(s).len() implies trim_end(s)[i] == s[i] by {
            assert(trim_end(s) == trim_end(s.drop_last()));
            assert(s.drop_last()[i] == s[i]);
        }
    }
}

proof fn lemma_trim_idem(s: Seq<char>)
    requires
        is_clean(s),
    ensures
        is_clean(trim(s)),
        trim(trim(s)) == trim(s),
{
    lemma_trim_start_clean(s);
    let y = trim_start(s);
    lemma_trim_end_clean(y);
    let z = trim_end(y);
    if z.len() > 0 {
        assert(z[0] == y[0]);
        assert(trim_start(z) == z);
        assert(trim_end(z) == z);
    } else {
        assert(trim_start(z) == z);
        assert(trim_end(z) == z);
    }
}

/// The clean-up of extracted Word text leaves clean text: no control
/// characters, no whitespace but single spaces and newlines, no space
/// after a newline, nothing to trim; and cleaning it again changes nothing.
pub proof fn cleaned_text_is_clean(t: Seq<char>)
    ensures
        is_clean(clean_text(t)),
        trim(clean_text(t)) == clean_text(t),
        clean_text(clean_text(t)) == clean_text(t),
{
    lemma_collapse_clean(t, false, false);
    lemma_trim_idem(collapse(t, false, false));
    let r = clean_text(t);
    lemma_collapse_fixed(r, false, false);
}

/// Text that a Word document's UTF-16 or Windows-1252 data gives is clean
/// (see [`is_clean`]) and longer than ten bytes.
pub proof fn decoded_word_text_is_clean(d: Seq<u8>)
    ensures
        utf16_text(d) matches Some(t) ==> is_clean(t) && wsum(t, true) > 10,
        cp1252_decoded(d) matches Some(t) ==> is_clean(t) && wsum(t, true) > 10,
{
    if d.len() >= 2 {
        cleaned_text_is_clean(crate::office_text::keep_map(crate::office_text::utf16_chars(crate::office_text::utf16_units(d))));
    }
    cleaned_text_is_clean(crate::office_text::keep_map(crate::office_text::cp1252_text(d)));
}

/// Text recovered from binary data by scanning is clean and longer than ten
/// bytes, and cleaning it again changes nothing.
pub proof fn mixed_text_is_clean(d: Seq<u8>)
    ensures
        mixed_text(d) matches Some(t) ==> is_clean(t) && wsum(t, true) > 10 && clean_text(t) == t,
{
    let u = crate::office_text::utf16_runs_from(d, 0, seq![]);
    let all = if wsum(u, true) < 50 {
        match crate::office_text::ansi_runs(d) {
            Some(a) => if wsum(a, true) > wsum(u, true) {
                a
            } else {
                u
            },
            None => u,
        }
    } else {
        u
    };
    cleaned_text_is_clean(all);
}

/// The text of a WordDocument stream: none for data under 68 bytes, and
/// otherwise, whichever way it was found, clean text longer than ten bytes
/// that cleaning again leaves as it is.
pub proof fn word_text_is_clean(d: Seq<u8>)
    ensures
        d.len() < 68 ==> word_text(d) is None,
        word_text(d) matches Some(t) ==> is_clean(t) && wsum(t, true) > 10 && clean_text(t) == t,
{
    mixed_text_is_clean(d);
    if d.len() >= 68 && d.len() > 0x50 {
        let ccp = crate::legacy_office::le32_spec(d[0x4C], d[0x4D], d[0x4E], d[0x4F]) as int;
        let fc = crate::legacy_office::le32_spec(d[0x18], d[0x19], d[0x1A], d[0x1B]) as int;
        let uni = (crate::legacy_office::le16_spec(d[0xA], d[0xB]) as u16 & 0x400u16) != 0;
        let end = if uni {
            fc + 2 * ccp
        } else {
            fc + ccp
        };
        if 0 < fc < d.len() && end <= d.len() && 0 < ccp < 10_000_000 {
            let sub = d.subrange(fc, end);
            decoded_word_text_is_clean(sub);
            if sub.len() >= 2 {
                cleaned_text_is_clean(
                    crate::office_text::keep_map(
                        crate::office_text::utf16_chars(crate::office_text::utf16_units(sub)),
                    ),
                );
            }
            cleaned_text_is_clean(crate::office_text::keep_map(crate::office_text::cp1252_text(sub)));
        }
    }
}

proof fn lemma_lookup_found(t: Seq<(Seq<char>, Seq<char>)>, i: int)
    requires
        0 <= i < t.len(),
        forall|j: int| 0 <= j < t.len() ==> (#[trigger] t[j]).1.len() > 0,
    ensures
        lookup_language(t, t[i].0).len() > 0,
    decreases i,
{
    if t[0].0 != t[i].0 {
        let r = t.drop_first();
        assert(r[i - 1] == t[i]);
        assert forall|j: int| 0 <= j < r.len() implies (#[trigger] r[j]).1.len() > 0 by {
            assert(r[j] == t[j + 1]);
        }
        lemma_lookup_found(r, i - 1);
    }
}

/// Every extension that the code converter supports has a language (looked
/// up as `get_language` looks up an extension after lowering its case).
pub proof fn code_extensions_have_languages(e: Seq<char>)
    requires
        CodeConverter.extensions().contains(e),
    ensures
        lookup_language(language_table(), e).len() > 0,
{
    reveal_strlit("bash");
    reveal_strlit("c");
    reveal_strlit("clojure");
    reveal_strlit("cpp");
    reveal_strlit("csharp");
    reveal_strlit("css");
    reveal_strlit("dockerfile");
    reveal_strlit("elixir");
    reveal_strlit("erlang");
    reveal_strlit("fsharp");
    reveal_strlit("go");
    reveal_strlit("graphql");
    reveal_strlit("haskell");
    reveal_strlit("java");
    reveal_strlit("javascript");
    reveal_strlit("jsx");
    reveal_strlit("kotlin");
    reveal_strlit("less");
    reveal_strlit("lua");
    reveal_strlit("ocaml");
    reveal_strlit("perl");
    reveal_strlit("php");
    reveal_strlit("powershell");
    reveal_strlit("protobuf");
    reveal_strlit("python");
    reveal_strlit("r");
    reveal_strlit("ruby");
    reveal_strlit("rust");
    reveal_strlit("scala");
    reveal_strlit("scss");
    reveal_strlit("sql");
    reveal_strlit("svelte");
    reveal_strlit("swift");
    reveal_strlit("terraform");
    reveal_strlit("tsx");
    reveal_strlit("typescript");
    reveal_strlit("vim");
    reveal_strlit("vue");
    reveal_strlit("zsh");
    let t = language_table();
    assert forall|j: int| 0 <= j < t.len() implies (#[trigger] t[j]).1.len() > 0 by {
        assert(t[j].1.len() > 0);
    }
    let k = choose|k: int| 0 <= k < CodeConverter.extensions().len() && CodeConverter.extensions()[k] == e;
    assert(CodeConverter.extensions()[k] == t[k].0);
    lemma_lookup_found(t, k);
}


/// A key of the language table is its own ASCII lowercase.
proof fn lemma_table_keys_lowercase(k: int)
    requires
        0 <= k < language_table().len(),
    ensures
        language_table()[k].0.map_values(|c: char| ascii_lower(c)) == language_table()[k].0,
{
    reveal_strlit(".rs");
    reveal_strlit(".py");
    reveal_strlit(".js");
    reveal_strlit(".ts");
    reveal_strlit(".jsx");
    reveal_strlit(".tsx");
    reveal_strlit(".go");
    reveal_strlit(".java");
    reveal_strlit(".c");
    reveal_strlit(".cpp");
    reveal_strlit(".cc");
    reveal_strlit(".cxx");
    reveal_strlit(".h");
    reveal_strlit(".hpp");
    reveal_strlit(".cs");
    reveal_strlit(".rb");
    reveal_strlit(".php");
    reveal_strlit(".swift");
    reveal_strlit(".kt");
    reveal_strlit(".kts");
    reveal_strlit(".scala");
    reveal_strlit(".sh");
    reveal_strlit(".bash");
    reveal_strlit(".zsh");
    reveal_strlit(".ps1");
    reveal_strlit(".sql");
    reveal_strlit(".r");
    reveal_strlit(".lua");
    reveal_strlit(".pl");
    reveal_strlit(".ex");
    reveal_strlit(".exs");
    reveal_strlit(".erl");
    reveal_strlit(".hs");
    reveal_strlit(".ml");
    reveal_strlit(".mli");
    reveal_strlit(".fs");
    reveal_strlit(".fsx");
    reveal_strlit(".clj");
    reveal_strlit(".cljs");
    reveal_strlit(".vim");
    reveal_strlit(".dockerfile");
    reveal_strlit(".tf");
    reveal_strlit(".proto");
    reveal_strlit(".graphql");
    reveal_strlit(".gql");
    reveal_strlit(".css");
    reveal_strlit(".scss");
    reveal_strlit(".sass");
    reveal_strlit(".less");
    reveal_strlit(".vue");
    reveal_strlit(".svelte");
    let key = language_table()[k].0;
    assert forall|i: int| 0 <= i < key.len() implies ascii_lower(#[trigger] key[i]) == key[i] by {
        assert(!('A' <= key[i] && key[i] <= 'Z'));
    }
    assert(key.map_values(|c: char| ascii_lower(c)) =~= key);
}

/// The language lookup ignores ASCII case: an ASCII extension that equals a
/// supported extension up to case has that extension's language, which is
/// not empty.
pub proof fn code_languages_ignore_case(e: Seq<char>, u: Seq<char>)
    requires
        CodeConverter.extensions().contains(e),
        all_ascii(u),
        eq_ignore_case(u, e),
    ensures
        lookup_language(language_table(), u.map_values(|c: char| ascii_lower(c))) == lookup_language(
            language_table(),
            e,
        ),
        lookup_language(language_table(), e).len() > 0,
{
    code_extensions_have_languages(e);
    let t = language_table();
    let k = choose|k: int| 0 <= k < CodeConverter.extensions().len() && CodeConverter.extensions()[k] == e;
    assert(CodeConverter.extensions()[k] == t[k].0);
    lemma_table_keys_lowercase(k);
    assert(u.map_values(|c: char| ascii_lower(c)) =~= e.map_values(|c: char| ascii_lower(c)));
}

} // verus!
