//! EPUB books: a page of the title and first author, then one page per
//! readable section, its XHTML turned into Markdown. Books are read by the
//! `rbook` crate.
use vstd::prelude::*;
use rbook::prelude::{Ebook, MetaEntry, Metadata, Reader, ReaderContent};
use crate::chars::to_string;
use crate::error::{is_parse_error, parse_error, MarkitdownError};
use crate::html::{html_to_markdown, parse_html};
use crate::model::{ext_views, opt_str, BlockView, ContentBlock, ConversionOptions, DocPageView, Document, DocumentConverter, DocumentView, Page};
use crate::text::{chars_eq_str, chars_of, extend_chars, extend_str, join, join_chars, lines_of, split_lines, trim, trim_chars, trim_end};

verus! {

/// EPUB converter.
pub struct EpubConverter;

/// The book that `Epub::options().strict(false).read` opens from the
/// bytes: its title and first creator, where given; or the `Debug` text of
/// the error.
pub uninterp spec fn epub_book(data: Seq<u8>) -> Result<(Option<Seq<char>>, Option<Seq<char>>), Seq<char>>;

/// The sections that the book's reader yields, in order: the content of
/// each, or none for a section that could not be read.
pub uninterp spec fn epub_sections(data: Seq<u8>) -> Seq<Option<Seq<char>>>;

/// Opens the book and gives its title and first creator.
#[verifier::external_body]
fn open_book(data: &[u8]) -> (r: Result<(Option<String>, Option<String>), String>)
    ensures
        match r {
            Ok((t, a)) => epub_book(data@) == Ok::<(Option<Seq<char>>, Option<Seq<char>>), Seq<char>>((opt_str(t), opt_str(a))),
            Err(m) => epub_book(data@) == Err::<(Option<Seq<char>>, Option<Seq<char>>), Seq<char>>(m@),
        },
{
    match rbook::Epub::options().strict(false).read(std::io::Cursor::new(data.to_vec())) {
        Ok(epub) => {
            let m = epub.metadata();
            Ok((m.title().map(|t| t.value().to_string()), m.creators().next().map(|c| c.value().to_string())))
        },
        Err(e) => Err(format!("{:?}", e)),
    }
}

/// Opens the book and gives the content of each section its reader yields
/// (`read_next`), none for a section that fails.
#[verifier::external_body]
fn book_sections(data: &[u8]) -> (r: Vec<Option<String>>)
    ensures
        r@.map_values(|s: Option<String>| opt_str(s)) == epub_sections(data@),
{
    let mut out = Vec::new();
    if let Ok(epub) = rbook::Epub::options().strict(false).read(std::io::Cursor::new(data.to_vec())) {
        let mut reader = epub.reader();
        while let Some(item) = reader.read_next() {
            out.push(item.ok().map(|d| d.content().to_string()));
        }
    }
    out
}

/// Markdown with the end of each line trimmed, then trimmed.
pub open spec fn clean_markdown(md: Seq<char>) -> Seq<char> {
    trim(join(lines_of(md).map_values(|l: Seq<char>| trim_end(l)), "\n"@))
}

/// The pages of the sections from `k` on (numbered from `next`): each
/// section whose cleaned Markdown is not empty.
pub open spec fn section_pages(secs: Seq<Option<Seq<char>>>, k: nat) -> Seq<DocPageView>
    decreases k,
{
    if k == 0 {
        Seq::empty()
    } else {
        let before = section_pages(secs, (k - 1) as nat);
        before + match secs[k - 1] {
            Some(c) => {
                let m = clean_markdown(html_to_markdown(c));
                if m.len() > 0 {
                    seq![
                        DocPageView {
                            page_number: (before.len() + 1) as u32,
                            content: seq![BlockView::Markdown(m)],
                            rendered_image: None,
                        },
                    ]
                } else {
                    Seq::empty()
                }
            },
            None => Seq::empty(),
        }
    }
}

/// The page of the title and author, where either is given.
pub open spec fn meta_pages(title: Option<Seq<char>>, author: Option<Seq<char>>) -> Seq<DocPageView> {
    if title is Some || author is Some {
        seq![
            DocPageView {
                page_number: 0,
                content: seq![
                    BlockView::Markdown(
                        (match title {
                            Some(t) => "# "@ + t + "\n\n"@,
                            None => Seq::empty(),
                        }) + match author {
                            Some(a) => "**Author:** "@ + a + "\n\n"@,
                            None => Seq::empty(),
                        },
                    ),
                ],
                rendered_image: None,
            },
        ]
    } else {
        Seq::empty()
    }
}

/// The document of a book: the title page, the section pages, or a note
/// where there would be no page at all.
pub open spec fn epub_document(data: Seq<u8>, title: Option<Seq<char>>, author: Option<Seq<char>>) -> DocumentView {
    let secs = epub_sections(data);
    let pages = meta_pages(title, author) + section_pages(secs, secs.len());
    DocumentView {
        title: None,
        pages: if pages.len() == 0 {
            seq![
                DocPageView {
                    page_number: 1,
                    content: seq![BlockView::Text("[EPUB content could not be extracted]"@)],
                    rendered_image: None,
                },
            ]
        } else {
            pages
        },
        metadata: Seq::empty(),
    }
}

/// The result for EPUB bytes.
pub open spec fn epub_result(data: Seq<u8>, r: Result<Document, MarkitdownError>) -> bool {
    match epub_book(data) {
        Ok((t, a)) => r matches Ok(d) && d@ == epub_document(data, t, a),
        Err(m) => r matches Err(e) && is_parse_error(e, "EPUB parse error: "@ + m),
    }
}

impl EpubConverter {
    /// Markdown with the end of each line trimmed, then trimmed.
    pub fn clean_markdown(md: &str) -> (r: String)
        ensures
            r@ == clean_markdown(md@),
    {
        let c = chars_of(md);
        let lines = split_lines(c.as_slice());
        let ghost lv = lines.deep_view();
        let mut trimmed: Vec<Vec<char>> = Vec::new();
        let mut i: usize = 0;
        while i < lines.len()
            invariant
                i <= lines@.len(),
                lv == lines.deep_view(),
                trimmed.deep_view() =~= lv.take(i as int).map_values(|l: Seq<char>| trim_end(l)),
            decreases lines@.len() - i,
        {
            proof {
                crate::text::lemma_chars_deep_view(lines@[i as int]);
            }
            let t = crate::text::trim_end_chars(lines[i].as_slice());
            let ghost before = trimmed.deep_view();
            trimmed.push(t);
            proof {
                crate::text::lemma_push_line(before, trimmed@, t);
                assert(lv.take(i + 1) =~= lv.take(i as int).push(lv[i as int]));
                assert(trimmed.deep_view() =~= before.push(t@));
            }
            i += 1;
        }
        assert(lv.take(i as int) =~= lv);
        let nl = chars_of("\n");
        let j = join_chars(&trimmed, nl.as_slice());
        to_string(trim_chars(j.as_slice()).as_slice())
    }

    /// Converts EPUB bytes (see [`epub_document`]); a book that cannot be
    /// opened is a parse error.
    pub fn convert_epub(bytes: &[u8]) -> (r: Result<Document, MarkitdownError>)
        ensures
            epub_result(bytes@, r),
    {
        let (title, author) = match open_book(bytes) {
            Ok(x) => x,
            Err(m) => {
                let mc = chars_of(m.as_str());
                return Err(parse_error("EPUB parse error: ", mc.as_slice()));
            },
        };
        let ghost tv = opt_str(title);
        let ghost av = opt_str(author);
        let mut doc = Document::new();
        if title.is_some() || author.is_some() {
            let mut meta: Vec<char> = Vec::new();
            let ghost tpart: Seq<char> = match tv {
                Some(t) => "# "@ + t + "\n\n"@,
                None => Seq::empty(),
            };
            let ghost apart: Seq<char> = match av {
                Some(a) => "**Author:** "@ + a + "\n\n"@,
                None => Seq::empty(),
            };
            match &title {
                Some(t) => {
                    extend_str(&mut meta, "# ");
                    extend_str(&mut meta, t.as_str());
                    extend_str(&mut meta, "\n\n");
                },
                None => {},
            }
            assert(meta@ =~= tpart);
            match &author {
                Some(a) => {
                    extend_str(&mut meta, "**Author:** ");
                    extend_str(&mut meta, a.as_str());
                    extend_str(&mut meta, "\n\n");
                },
                None => {},
            }
            assert(meta@ =~= tpart + apart);
            let mut page = Page::new(0);
            page.add_content(ContentBlock::Markdown(to_string(meta.as_slice())));
            assert(page@.content =~= seq![BlockView::Markdown(tpart + apart)]);
            doc.add_page(page);
            assert(doc@.pages =~= meta_pages(tv, av));
        } else {
            assert(doc@.pages =~= meta_pages(tv, av));
        }
        let ghost head = doc@.pages;
        let secs = book_sections(bytes);
        let ghost sv = secs@.map_values(|s: Option<String>| opt_str(s));
        let mut count: usize = 0;
        let mut k: usize = 0;
        while k < secs.len()
            invariant
                k <= secs@.len(),
                sv == secs@.map_values(|s: Option<String>| opt_str(s)),
                sv == epub_sections(bytes@),
                head == meta_pages(tv, av),
                doc.title is None,
                doc@.metadata.len() == 0,
                doc@.pages == head + section_pages(sv, k as nat),
                count == section_pages(sv, k as nat).len(),
                count <= k,
            decreases secs@.len() - k,
        {
            let ghost before = doc@.pages;
            proof {
                assert(sv[k as int] == opt_str(secs@[k as int]));
            }
            match &secs[k] {
                Some(c) => {
                    let md = parse_html(c.as_str());
                    let cleaned = Self::clean_markdown(md.as_str());
                    if !cleaned.as_str().is_empty() {
                        let mut page = Page::new((count + 1) as u32);
                        let ghost cv = cleaned@;
                        page.add_content(ContentBlock::Markdown(cleaned));
                        let ghost pv = page@;
                        assert(pv.content =~= seq![BlockView::Markdown(cv)]);
                        doc.add_page(page);
                        assert(doc@.pages =~= before.push(pv));
                        count = count + 1;
                    }
                },
                None => {},
            }
            assert(doc@.pages =~= head + section_pages(sv, (k + 1) as nat));
            k += 1;
        }
        assert(sv.len() == secs@.len());
        assert(doc@.pages == meta_pages(tv, av) + section_pages(sv, sv.len()));
        if doc.pages.len() == 0 {
            let mut page = Page::new(1);
            page.add_content(ContentBlock::Text(String::from_str("[EPUB content could not be extracted]")));
            let ghost pv = page@;
            assert(pv.content =~= seq![BlockView::Text("[EPUB content could not be extracted]"@)]);
            doc.add_page(page);
            assert(doc@.pages =~= seq![pv]);
        }
        assert(doc@.pages =~= epub_document(bytes@, tv, av).pages);
        assert(doc@.metadata =~= Seq::<(Seq<char>, Seq<char>)>::empty());
        Ok(doc)
    }

    /// Converts EPUB bytes; an extension hint other than `.epub` is an
    /// invalid file.
    pub fn convert_bytes(&self, bytes: &[u8], options: Option<&ConversionOptions>) -> (r: Result<Document, MarkitdownError>)
        ensures
            match options {
                Some(o) => match opt_str(o.file_extension) {
                    Some(e) => if e == ".epub"@ {
                        epub_result(bytes@, r)
                    } else {
                        r matches Err(MarkitdownError::InvalidFile(m)) && m@ == "Expected .epub file, got "@ + e
                    },
                    None => epub_result(bytes@, r),
                },
                None => epub_result(bytes@, r),
            },
    {
        match options {
            Some(o) => match &o.file_extension {
                Some(e) => {
                    let c = chars_of(e.as_str());
                    if !chars_eq_str(c.as_slice(), ".epub") {
                        let mut m: Vec<char> = Vec::new();
                        extend_str(&mut m, "Expected .epub file, got ");
                        extend_chars(&mut m, c.as_slice());
                        return Err(MarkitdownError::InvalidFile(to_string(m.as_slice())));
                    }
                },
                None => {},
            },
            None => {},
        }
        Self::convert_epub(bytes)
    }
}

impl DocumentConverter for EpubConverter {
    open spec fn extensions(&self) -> Seq<Seq<char>> {
        seq![".epub"@]
    }

    fn supported_extensions(&self) -> (r: Vec<&'static str>) {
        let r = vec![".epub"];
        assert(ext_views(r@) =~= self.extensions());
        r
    }
}

} // verus!
