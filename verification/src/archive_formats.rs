//! The archive and compression formats: ZIP and TAR archives read entry by
//! entry, compressed files decompressed and read as a TAR archive or as one
//! file, and the choice of format by extension or by magic bytes.
use vstd::prelude::*;
use vstd::utf8::{decode_utf8, valid_utf8};
use std::io::{Cursor, Read};
use crate::archive::{
    code_block_md, markdown_view, process_file, process_spec, summary_md, ArchiveExtractionResult, ArchiveView,
};
use crate::chars::{to_lowercase, to_string, unicode_lowercase};
use crate::error::{is_parse_error, parse_error, MarkitdownError};
use crate::model::{
    ext_views, is_markdown_doc, opt_str, BlockView, ContentBlock, ConversionOptions, DocPageView, Document,
    DocumentConverter, DocumentView, Page,
};
use crate::office_text::opt_chars;
use crate::text::{chars_eq_str, chars_of, decimal, extend_chars, extend_str, push_decimal};

verus! {

// ---------------------------------------------------------------------
// ZIP
// ---------------------------------------------------------------------

/// The number of entries that `zip::ZipArchive::new` finds in the data, or
/// the message of its error.
pub uninterp spec fn zip_open(data: Seq<u8>) -> Result<nat, Seq<char>>;

/// Entry `i` of the ZIP archive (`ZipArchive::by_index`): whether it is a
/// directory, its name (or the message of the error reading it), and its
/// contents (or the message of the error reading them); or the message of
/// the error opening the entry.
pub uninterp spec fn zip_entry(data: Seq<u8>, i: nat) -> Result<
    (bool, Result<Seq<char>, Seq<char>>, Result<Seq<u8>, Seq<char>>),
    Seq<char>,
>;

/// Calls `zip::ZipArchive::new` and `ZipArchive::len`.
#[verifier::external_body]
pub(crate) fn zip_count(data: &[u8]) -> (r: Result<usize, Vec<char>>)
    ensures
        match r {
            Ok(n) => zip_open(data@) == Ok::<nat, Seq<char>>(n as nat),
            Err(m) => zip_open(data@) == Err::<nat, Seq<char>>(m@),
        },
{
    match zip::ZipArchive::new(std::io::Cursor::new(data)) {
        Ok(a) => Ok(a.len()),
        Err(e) => Err(e.to_string().chars().collect()),
    }
}

/// The view of a read entry.
pub open spec fn zip_entry_view(r: Result<(bool, Result<Vec<char>, Vec<char>>, Result<Vec<u8>, Vec<char>>), Vec<char>>) -> Result<
    (bool, Result<Seq<char>, Seq<char>>, Result<Seq<u8>, Seq<char>>),
    Seq<char>,
> {
    match r {
        Ok((d, n, c)) => Ok(
            (
                d,
                match n {
                    Ok(x) => Ok(x@),
                    Err(x) => Err(x@),
                },
                match c {
                    Ok(x) => Ok(x@),
                    Err(x) => Err(x@),
                },
            ),
        ),
        Err(m) => Err(m@),
    }
}

/// Opens the archive (`zip::ZipArchive::new`) and entry `i`
/// (`ZipArchive::by_index`), then reads its kind (`ZipFile::is_dir`), name
/// (`ZipFile::name`) and contents (`Read::read_to_end`).
#[verifier::external_body]
pub(crate) fn zip_read_entry(data: &[u8], i: usize) -> (r: Result<(bool, Result<Vec<char>, Vec<char>>, Result<Vec<u8>, Vec<char>>), Vec<char>>)
    ensures
        zip_entry_view(r) == zip_entry(data@, i as nat),
{
    let mut a = zip::ZipArchive::new(Cursor::new(data)).map_err(|e| e.to_string().chars().collect::<Vec<char>>())?;
    let mut f = a.by_index(i).map_err(|e| e.to_string().chars().collect::<Vec<char>>())?;
    let name = f.name().map(|n| n.chars().collect()).map_err(|e| e.to_string().chars().collect());
    let mut out: Vec<u8> = Vec::new();
    let read = f.read_to_end(&mut out).map(|_| out).map_err(|e| e.to_string().chars().collect());
    Ok((f.is_dir(), name, read))
}

/// Reading the entries of a ZIP archive from `i` of `n`: directories are
/// passed over, files read completely are added, an entry that cannot be
/// opened or named is an error.
pub open spec fn zip_from(data: Seq<u8>, i: nat, n: nat, r: ArchiveView) -> Result<ArchiveView, Seq<char>>
    decreases n - i,
{
    if i >= n {
        Ok(r)
    } else {
        match zip_entry(data, i) {
            Err(m) => Err("ZIP entry error: "@ + m),
            Ok((dir, name, c)) => if dir {
                zip_from(data, i + 1, n, r)
            } else {
                match name {
                    Err(m) => Err("ZIP entry error: "@ + m),
                    Ok(p) => match c {
                        Ok(b) => zip_from(data, i + 1, n, process_spec(r, p, b)),
                        Err(_) => zip_from(data, i + 1, n, r),
                    },
                }
            },
        }
    }
}

/// The result of reading a ZIP archive, or the message of its error.
pub open spec fn zip_extract(data: Seq<u8>) -> Result<ArchiveView, Seq<char>> {
    match zip_open(data) {
        Err(m) => Err("ZIP parse error: "@ + m),
        Ok(n) => zip_from(data, 0, n, ArchiveView { documents: seq![], skipped: seq![], total: n }),
    }
}

/// The view of an extraction outcome.
pub open spec fn extraction_view(r: Result<ArchiveExtractionResult, MarkitdownError>, s: Result<ArchiveView, Seq<char>>) -> bool {
    match s {
        Ok(v) => r matches Ok(x) && x@ == v,
        Err(m) => r matches Err(e) && is_parse_error(e, m),
    }
}

/// ZIP archive converter.
pub struct ZipConverter;

impl ZipConverter {
    /// Reads the files of a ZIP archive.
    pub fn extract_zip(bytes: &[u8]) -> (r: Result<ArchiveExtractionResult, MarkitdownError>)
        ensures
            extraction_view(r, zip_extract(bytes@)),
    {
        let n = match zip_count(bytes) {
            Ok(n) => n,
            Err(m) => {
                return Err(parse_error("ZIP parse error: ", m.as_slice()));
            },
        };
        let mut result = ArchiveExtractionResult::new();
        result.total_files = n;
        assert(result@.documents =~= Seq::<(Seq<char>, DocumentView)>::empty());
        assert(result@.skipped =~= Seq::<(Seq<char>, Seq<char>)>::empty());
        assert(result@ == (ArchiveView { documents: seq![], skipped: seq![], total: n as nat }));
        let mut i: usize = 0;
        while i < n
            invariant
                i <= n,
                zip_open(bytes@) == Ok::<nat, Seq<char>>(n as nat),
                zip_extract(bytes@) == zip_from(bytes@, i as nat, n as nat, result@),
            decreases n - i,
        {
            match zip_read_entry(bytes, i) {
                Err(m) => {
                    return Err(parse_error("ZIP entry error: ", m.as_slice()));
                },
                Ok((dir, name, contents)) => {
                    if !dir {
                        match name {
                            Err(m) => {
                                return Err(parse_error("ZIP entry error: ", m.as_slice()));
                            },
                            Ok(p) => match contents {
                                Ok(b) => {
                                    let ps = to_string(p.as_slice());
                                    result = process_file(result, ps.as_str(), b.as_slice());
                                },
                                Err(_) => {},
                            },
                        }
                    }
                },
            }
            i += 1;
        }
        Ok(result)
    }

    /// Converts a ZIP archive to the summary document of its files.
    pub fn convert_bytes(&self, bytes: &[u8]) -> (r: Result<Document, MarkitdownError>)
        ensures
            match zip_extract(bytes@) {
                Ok(v) => r matches Ok(d) && is_markdown_doc(d, summary_md(v, "archive.zip"@)),
                Err(m) => r matches Err(e) && is_parse_error(e, m),
            },
    {
        match Self::extract_zip(bytes) {
            Ok(result) => Ok(result.to_document("archive.zip")),
            Err(e) => Err(e),
        }
    }
}

// ---------------------------------------------------------------------
// TAR
// ---------------------------------------------------------------------

/// The message of the error that `tar::Archive::entries` gives, if any.
pub uninterp spec fn tar_entries_error(data: Seq<u8>) -> Option<Seq<char>>;

/// The items that the entries of a TAR archive yield (none when the
/// entries cannot be read; an error ends them): whether the entry is a
/// directory, its path if it could be read, and its contents when they were
/// read completely.
pub uninterp spec fn tar_items(data: Seq<u8>) -> Seq<Result<(bool, Option<Seq<char>>, Option<Seq<u8>>), Seq<char>>>;

/// Calls `tar::Archive::entries`; the message of its error, if any.
#[verifier::external_body]
fn tar_open(data: &[u8]) -> (r: Option<Vec<char>>)
    ensures
        opt_chars(r) == tar_entries_error(data@),
{
    let mut a = tar::Archive::new(std::io::Cursor::new(data));
    match a.entries() {
        Ok(_) => None,
        Err(e) => Some(e.to_string().chars().collect()),
    }
}

/// The view of a TAR item.
pub open spec fn tar_item_view(r: Result<(bool, Option<Vec<char>>, Option<Vec<u8>>), Vec<char>>) -> Result<
    (bool, Option<Seq<char>>, Option<Seq<u8>>),
    Seq<char>,
> {
    match r {
        Ok((d, p, c)) => Ok(
            (
                d,
                match p {
                    Some(x) => Some(x@),
                    None => None,
                },
                match c {
                    Some(x) => Some(x@),
                    None => None,
                },
            ),
        ),
        Err(m) => Err(m@),
    }
}

/// Item `i` of the entries (`Archive::entries`, `Iterator::nth`): the
/// entry's kind (`EntryType::is_dir`), path (`Entry::path`, lossily as
/// text) and contents (`Read::read_to_end`). Each item takes a header of 512
/// bytes of the data, so there are at most as many items as bytes.
#[verifier::external_body]
fn tar_item(data: &[u8], i: usize) -> (r: Option<Result<(bool, Option<Vec<char>>, Option<Vec<u8>>), Vec<char>>>)
    ensures
        match r {
            None => i >= tar_items(data@).len() && tar_items(data@).len() <= data@.len(),
            Some(x) => i < tar_items(data@).len() && tar_items(data@).len() <= data@.len() && tar_item_view(x)
                == tar_items(data@)[i as int],
        },
{
    let mut a = tar::Archive::new(std::io::Cursor::new(data));
    let mut es = a.entries().ok()?;
    match es.nth(i)? {
        Err(e) => Some(Err(e.to_string().chars().collect())),
        Ok(mut e) => {
            let dir = e.header().entry_type().is_dir();
            let path = e.path().ok().map(|p| p.to_string_lossy().chars().collect());
            let mut out: Vec<u8> = Vec::new();
            let read = std::io::Read::read_to_end(&mut e, &mut out).ok().map(|_| out);
            Some(Ok((dir, path, read)))
        },
    }
}

/// Reading the items of a TAR archive from `i`: each entry is counted;
/// directories are passed over; files read completely are added under their
/// path (or `unknown`); an error item is an error.
pub open spec fn tar_from(
    items: Seq<Result<(bool, Option<Seq<char>>, Option<Seq<u8>>), Seq<char>>>,
    i: int,
    r: ArchiveView,
) -> Result<ArchiveView, Seq<char>>
    decreases items.len() - i,
{
    if i < 0 || i >= items.len() {
        Ok(r)
    } else {
        match items[i] {
            Err(m) => Err("TAR entry error: "@ + m),
            Ok((dir, path, c)) => {
                let r1 = ArchiveView { total: r.total + 1, ..r };
                if dir {
                    tar_from(items, i + 1, r1)
                } else {
                    let p = match path {
                        Some(x) => x,
                        None => "unknown"@,
                    };
                    match c {
                        Some(b) => tar_from(items, i + 1, process_spec(r1, p, b)),
                        None => tar_from(items, i + 1, r1),
                    }
                }
            },
        }
    }
}

/// The result of reading a TAR archive, or the message of its error.
pub open spec fn tar_extract(data: Seq<u8>) -> Result<ArchiveView, Seq<char>> {
    match tar_entries_error(data) {
        Some(m) => Err("TAR parse error: "@ + m),
        None => tar_from(tar_items(data), 0, ArchiveView { documents: seq![], skipped: seq![], total: 0 }),
    }
}

/// TAR archive converter.
pub struct TarConverter;

impl TarConverter {
    /// Reads the files of a TAR archive.
    pub fn extract_tar(bytes: &[u8]) -> (r: Result<ArchiveExtractionResult, MarkitdownError>)
        ensures
            extraction_view(r, tar_extract(bytes@)),
    {
        match tar_open(bytes) {
            Some(m) => {
                return Err(parse_error("TAR parse error: ", m.as_slice()));
            },
            None => {},
        }
        let mut result = ArchiveExtractionResult::new();
        assert(result@.documents =~= Seq::<(Seq<char>, DocumentView)>::empty());
        assert(result@.skipped =~= Seq::<(Seq<char>, Seq<char>)>::empty());
        assert(result@ == (ArchiveView { documents: seq![], skipped: seq![], total: 0 }));
        let n = bytes.len();
        let mut i: usize = 0;
        loop
            invariant
                n == bytes@.len(),
                tar_entries_error(bytes@) is None,
                result@.total <= i,
                i <= n,
                tar_extract(bytes@) == tar_from(tar_items(bytes@), i as int, result@),
            decreases bytes@.len() - i,
        {
            match tar_item(bytes, i) {
                None => {
                    return Ok(result);
                },
                Some(Err(m)) => {
                    return Err(parse_error("TAR entry error: ", m.as_slice()));
                },
                Some(Ok((dir, path, contents))) => {
                    result.total_files = result.total_files + 1;
                    if !dir {
                        let p: Vec<char> = match path {
                            Some(x) => x,
                            None => chars_of("unknown"),
                        };
                        match contents {
                            Some(b) => {
                                let ps = to_string(p.as_slice());
                                result = process_file(result, ps.as_str(), b.as_slice());
                            },
                            None => {},
                        }
                    }
                },
            }
            i += 1;
        }
    }

    /// Converts a TAR archive to the summary document of its files.
    pub fn convert_bytes(&self, bytes: &[u8]) -> (r: Result<Document, MarkitdownError>)
        ensures
            match tar_extract(bytes@) {
                Ok(v) => r matches Ok(d) && is_markdown_doc(d, summary_md(v, "archive.tar"@)),
                Err(m) => r matches Err(e) && is_parse_error(e, m),
            },
    {
        match Self::extract_tar(bytes) {
            Ok(result) => Ok(result.to_document("archive.tar")),
            Err(e) => Err(e),
        }
    }
}

// ---------------------------------------------------------------------
// Compressed files
// ---------------------------------------------------------------------

/// What `flate2::read::GzDecoder` reads to the end from the data, or the
/// message of its error.
pub uninterp spec fn gz_decompress(data: Seq<u8>) -> Result<Seq<u8>, Seq<char>>;

/// What `bzip2::read::BzDecoder` reads to the end from the data, or the
/// message of its error.
pub uninterp spec fn bz2_decompress(data: Seq<u8>) -> Result<Seq<u8>, Seq<char>>;

/// What `xz2::read::XzDecoder` reads to the end from the data, or the
/// message of its error.
pub uninterp spec fn xz_decompress(data: Seq<u8>) -> Result<Seq<u8>, Seq<char>>;

/// What `zstd::stream::read::Decoder` reads to the end from the data; or
/// the message of its error, with whether it came from setting the decoder
/// up (`Decoder::new`) rather than from reading.
pub uninterp spec fn zstd_decompress(data: Seq<u8>) -> Result<Seq<u8>, (bool, Seq<char>)>;

/// The view of a decompression result.
pub open spec fn bytes_result(r: Result<Vec<u8>, Vec<char>>) -> Result<Seq<u8>, Seq<char>> {
    match r {
        Ok(v) => Ok(v@),
        Err(m) => Err(m@),
    }
}

/// Reads the data to the end through `flate2::read::GzDecoder`.
#[verifier::external_body]
pub(crate) fn gunzip(data: &[u8]) -> (r: Result<Vec<u8>, Vec<char>>)
    ensures
        bytes_result(r) == gz_decompress(data@),
{
    let mut out: Vec<u8> = Vec::new();
    let mut d = flate2::read::GzDecoder::new(std::io::Cursor::new(data));
    match std::io::Read::read_to_end(&mut d, &mut out) {
        Ok(_) => Ok(out),
        Err(e) => Err(e.to_string().chars().collect()),
    }
}

/// Reads the data to the end through `bzip2::read::BzDecoder`.
#[verifier::external_body]
fn bunzip2(data: &[u8]) -> (r: Result<Vec<u8>, Vec<char>>)
    ensures
        bytes_result(r) == bz2_decompress(data@),
{
    let mut out: Vec<u8> = Vec::new();
    let mut d = bzip2::read::BzDecoder::new(std::io::Cursor::new(data));
    match std::io::Read::read_to_end(&mut d, &mut out) {
        Ok(_) => Ok(out),
        Err(e) => Err(e.to_string().chars().collect()),
    }
}

/// Reads the data to the end through `xz2::read::XzDecoder`.
#[verifier::external_body]
fn unxz(data: &[u8]) -> (r: Result<Vec<u8>, Vec<char>>)
    ensures
        bytes_result(r) == xz_decompress(data@),
{
    let mut out: Vec<u8> = Vec::new();
    let mut d = xz2::read::XzDecoder::new(std::io::Cursor::new(data));
    match std::io::Read::read_to_end(&mut d, &mut out) {
        Ok(_) => Ok(out),
        Err(e) => Err(e.to_string().chars().collect()),
    }
}

/// Reads the data to the end through `zstd::stream::read::Decoder`.
#[verifier::external_body]
fn unzstd(data: &[u8]) -> (r: Result<Vec<u8>, (bool, Vec<char>)>)
    ensures
        match r {
            Ok(v) => zstd_decompress(data@) == Ok::<Seq<u8>, (bool, Seq<char>)>(v@),
            Err((init, m)) => zstd_decompress(data@) == Err::<Seq<u8>, (bool, Seq<char>)>((init, m@)),
        },
{
    let mut out: Vec<u8> = Vec::new();
    let mut d = match zstd::stream::read::Decoder::new(Cursor::new(data)) {
        Ok(d) => d,
        Err(e) => return Err((true, e.to_string().chars().collect())),
    };
    match d.read_to_end(&mut out) {
        Ok(_) => Ok(out),
        Err(e) => Err((false, e.to_string().chars().collect())),
    }
}

/// The document of one decompressed file: its text in a code block when it
/// is UTF-8, else a note of its size.
pub open spec fn single_file_doc(d: Seq<u8>) -> DocumentView {
    DocumentView {
        title: None,
        pages: seq![
            DocPageView {
                page_number: 1,
                content: seq![
                    if valid_utf8(d) {
                        BlockView::Markdown(code_block_md(decode_utf8(d)))
                    } else {
                        BlockView::Text("[Binary data: "@ + decimal(d.len()) + " bytes]"@)
                    },
                ],
                rendered_image: None,
            },
        ],
        metadata: seq![],
    }
}

/// The document of decompressed data: the summary of the TAR archive it
/// holds, when it reads as one with at least one entry, else the document of
/// one file.
pub open spec fn decompressed_doc(d: Seq<u8>, name: Seq<char>) -> DocumentView {
    match tar_extract(d) {
        Ok(v) => if v.total > 0 {
            markdown_view(summary_md(v, name))
        } else {
            single_file_doc(d)
        },
        Err(_) => single_file_doc(d),
    }
}

/// The document of decompressed data named `name` (see
/// [`decompressed_doc`]).
pub fn decompressed_document(d: &[u8], name: &str) -> (r: Document)
    ensures
        r@ == decompressed_doc(d@, name@),
{
    match TarConverter::extract_tar(d) {
        Ok(result) => {
            if result.total_files > 0 {
                let doc = result.to_document(name);
                proof {
                    crate::archive::lemma_markdown_view(doc, summary_md(result@, name@));
                }
                return doc;
            }
        },
        Err(_) => {},
    }
    let mut page = Page::new(1);
    let text = crate::archive::utf8_text(d);
    match text {
        Ok(t) => {
            let mut md: Vec<char> = Vec::new();
            extend_str(&mut md, "```\n");
            extend_chars(&mut md, t.as_slice());
            extend_str(&mut md, "\n```");
            page.add_content(ContentBlock::Markdown(to_string(md.as_slice())));
        },
        Err(_) => {
            let mut md: Vec<char> = Vec::new();
            extend_str(&mut md, "[Binary data: ");
            push_decimal(&mut md, d.len());
            extend_str(&mut md, " bytes]");
            page.add_content(ContentBlock::Text(to_string(md.as_slice())));
        },
    }
    assert(page@.content =~= single_file_doc(d@).pages[0].content);
    let mut doc = Document::new();
    doc.add_page(page);
    assert(doc@.metadata =~= Seq::<(Seq<char>, Seq<char>)>::empty());
    assert(doc@.pages =~= single_file_doc(d@).pages);
    doc
}

/// The document of a compressed file, or the decompression error named
/// after the format.
pub open spec fn compressed_doc(
    r: Result<Seq<u8>, Seq<char>>,
    format: Seq<char>,
    name: Seq<char>,
) -> Result<DocumentView, Seq<char>> {
    match r {
        Ok(d) => Ok(decompressed_doc(d, name)),
        Err(m) => Err(format + " decompress error: "@ + m),
    }
}

fn compressed_document(r: Result<Vec<u8>, Vec<char>>, format: &str, name: &str) -> (d: Result<Document, MarkitdownError>)
    ensures
        match compressed_doc(bytes_result(r), format@, name@) {
            Ok(v) => d matches Ok(x) && x@ == v,
            Err(m) => d matches Err(e) && is_parse_error(e, m),
        },
{
    match r {
        Ok(b) => Ok(decompressed_document(b.as_slice(), name)),
        Err(m) => {
            let mut msg: Vec<char> = Vec::new();
            extend_str(&mut msg, format);
            extend_str(&mut msg, " decompress error: ");
            extend_chars(&mut msg, m.as_slice());
            let e = parse_error("", msg.as_slice());
            proof {
                reveal_strlit("");
            }
            assert(""@ + msg@ =~= msg@);
            Err(e)
        },
    }
}

/// Gzip converter (`.gz`, also holding a TAR archive).
pub struct GzipConverter;

/// Bzip2 converter.
pub struct Bzip2Converter;

/// XZ converter.
pub struct XzConverter;

/// Zstandard converter.
pub struct ZstdConverter;

/// 7-Zip converter.
pub struct SevenZipConverter;

impl GzipConverter {
    /// Converts a gzip file.
    pub fn convert_bytes(&self, bytes: &[u8]) -> (r: Result<Document, MarkitdownError>)
        ensures
            match compressed_doc(gz_decompress(bytes@), "Gzip"@, "archive.tar.gz"@) {
                Ok(v) => r matches Ok(x) && x@ == v,
                Err(m) => r matches Err(e) && is_parse_error(e, m),
            },
    {
        compressed_document(gunzip(bytes), "Gzip", "archive.tar.gz")
    }
}

impl Bzip2Converter {
    /// Converts a bzip2 file.
    pub fn convert_bytes(&self, bytes: &[u8]) -> (r: Result<Document, MarkitdownError>)
        ensures
            match compressed_doc(bz2_decompress(bytes@), "Bzip2"@, "archive.tar.bz2"@) {
                Ok(v) => r matches Ok(x) && x@ == v,
                Err(m) => r matches Err(e) && is_parse_error(e, m),
            },
    {
        compressed_document(bunzip2(bytes), "Bzip2", "archive.tar.bz2")
    }
}

impl XzConverter {
    /// Converts an XZ file.
    pub fn convert_bytes(&self, bytes: &[u8]) -> (r: Result<Document, MarkitdownError>)
        ensures
            match compressed_doc(xz_decompress(bytes@), "XZ"@, "archive.tar.xz"@) {
                Ok(v) => r matches Ok(x) && x@ == v,
                Err(m) => r matches Err(e) && is_parse_error(e, m),
            },
    {
        compressed_document(unxz(bytes), "XZ", "archive.tar.xz")
    }
}

/// The document of a Zstandard file, or the error of setting the decoder
/// up or of decompressing.
pub open spec fn zstd_doc(r: Result<Seq<u8>, (bool, Seq<char>)>) -> Result<DocumentView, Seq<char>> {
    match r {
        Ok(d) => Ok(decompressed_doc(d, "archive.tar.zst"@)),
        Err((true, m)) => Err("Zstd init error: "@ + m),
        Err((false, m)) => Err("Zstd decompress error: "@ + m),
    }
}

impl ZstdConverter {
    /// Converts a Zstandard file.
    pub fn convert_bytes(&self, bytes: &[u8]) -> (r: Result<Document, MarkitdownError>)
        ensures
            match zstd_doc(zstd_decompress(bytes@)) {
                Ok(v) => r matches Ok(x) && x@ == v,
                Err(m) => r matches Err(e) && is_parse_error(e, m),
            },
    {
        match unzstd(bytes) {
            Ok(d) => Ok(self.from_decompressed(d.as_slice())),
            Err((true, m)) => Err(parse_error("Zstd init error: ", m.as_slice())),
            Err((false, m)) => Err(parse_error("Zstd decompress error: ", m.as_slice())),
        }
    }

    /// The document of decompressed Zstandard data.
    pub fn from_decompressed(&self, decompressed: &[u8]) -> (r: Document)
        ensures
            r@ == decompressed_doc(decompressed@, "archive.tar.zst"@),
    {
        decompressed_document(decompressed, "archive.tar.zst")
    }
}

// ---------------------------------------------------------------------
// Choice of format
// ---------------------------------------------------------------------

/// The archive formats.
#[derive(Clone, Copy, PartialEq, Eq, Structural, Debug)]
pub enum ArchiveKind {
    Zip,
    Tar,
    Gzip,
    Bzip2,
    Xz,
    Zstd,
    SevenZip,
}

/// The data starts with the bytes.
pub open spec fn starts_with_bytes(d: Seq<u8>, m: Seq<u8>) -> bool {
    m.len() <= d.len() && d.take(m.len() as int) == m
}

/// The format of an archive: by its extension (lowercased), else by the
/// magic bytes of the data (at least 4 bytes are needed).
pub open spec fn archive_kind_of(ext: Seq<char>, d: Seq<u8>) -> Option<ArchiveKind> {
    let e = unicode_lowercase(ext);
    if e == ".zip"@ {
        Some(ArchiveKind::Zip)
    } else if e == ".tar"@ {
        Some(ArchiveKind::Tar)
    } else if e == ".gz"@ || e == ".gzip"@ || e == ".tgz"@ || e == ".tar.gz"@ {
        Some(ArchiveKind::Gzip)
    } else if e == ".bz2"@ || e == ".tbz2"@ || e == ".tbz"@ || e == ".tar.bz2"@ {
        Some(ArchiveKind::Bzip2)
    } else if e == ".xz"@ || e == ".txz"@ || e == ".lzma"@ || e == ".tar.xz"@ {
        Some(ArchiveKind::Xz)
    } else if e == ".zst"@ || e == ".zstd"@ || e == ".tzst"@ || e == ".tar.zst"@ {
        Some(ArchiveKind::Zstd)
    } else if e == ".7z"@ {
        Some(ArchiveKind::SevenZip)
    } else if d.len() < 4 {
        None
    } else if starts_with_bytes(d, seq![0x50u8, 0x4B, 0x03, 0x04]) {
        Some(ArchiveKind::Zip)
    } else if starts_with_bytes(d, seq![0x1fu8, 0x8b]) {
        Some(ArchiveKind::Gzip)
    } else if starts_with_bytes(d, seq![0x42u8, 0x5a]) {
        Some(ArchiveKind::Bzip2)
    } else if starts_with_bytes(d, seq![0xfdu8, 0x37, 0x7a, 0x58, 0x5a, 0x00]) {
        Some(ArchiveKind::Xz)
    } else if starts_with_bytes(d, seq![0x28u8, 0xb5, 0x2f, 0xfd]) {
        Some(ArchiveKind::Zstd)
    } else if starts_with_bytes(d, seq![0x37u8, 0x7a, 0xbc, 0xaf, 0x27, 0x1c]) {
        Some(ArchiveKind::SevenZip)
    } else {
        None
    }
}

/// The extension hint of the options, or empty.
pub open spec fn extension_hint(options: Option<&ConversionOptions>) -> Seq<char> {
    match options {
        Some(o) => match opt_str(o.file_extension) {
            Some(e) => e,
            None => seq![],
        },
        None => seq![],
    }
}

pub(crate) fn starts_with_u8(d: &[u8], m: &[u8]) -> (r: bool)
    ensures
        r == starts_with_bytes(d@, m@),
{
    if m.len() > d.len() {
        return false;
    }
    let mut i: usize = 0;
    while i < m.len()
        invariant
            m@.len() <= d@.len(),
            i <= m@.len(),
            forall|j: int| 0 <= j < i ==> d@[j] == m@[j],
        decreases m@.len() - i,
    {
        if d[i] != m[i] {
            assert(d@.take(m@.len() as int)[i as int] != m@[i as int]);
            return false;
        }
        i += 1;
    }
    assert(d@.take(m@.len() as int) =~= m@);
    true
}

/// Unified archive converter.
pub struct ArchiveConverter {
    zip: ZipConverter,
    tar: TarConverter,
    gzip: GzipConverter,
    bzip2: Bzip2Converter,
    xz: XzConverter,
    zstd: ZstdConverter,
    sevenz: SevenZipConverter,
}

impl ArchiveConverter {
    /// The converter for all archive formats.
    pub fn new() -> (r: Self) {
        ArchiveConverter {
            zip: ZipConverter,
            tar: TarConverter,
            gzip: GzipConverter,
            bzip2: Bzip2Converter,
            xz: XzConverter,
            zstd: ZstdConverter,
            sevenz: SevenZipConverter,
        }
    }

    /// The format of an archive from the extension hint of the options, or
    /// from the magic bytes of the data.
    pub fn archive_kind(options: Option<&ConversionOptions>, bytes: &[u8]) -> (r: Option<ArchiveKind>)
        ensures
            r == archive_kind_of(extension_hint(options), bytes@),
    {
        let ext: Vec<char> = match options {
            Some(o) => match &o.file_extension {
                Some(e) => chars_of(e.as_str()),
                None => Vec::new(),
            },
            None => Vec::new(),
        };
        let e = to_lowercase(ext.as_slice());
        let s = e.as_slice();
        if chars_eq_str(s, ".zip") {
            Some(ArchiveKind::Zip)
        } else if chars_eq_str(s, ".tar") {
            Some(ArchiveKind::Tar)
        } else if chars_eq_str(s, ".gz") || chars_eq_str(s, ".gzip") || chars_eq_str(s, ".tgz") || chars_eq_str(s, ".tar.gz") {
            Some(ArchiveKind::Gzip)
        } else if chars_eq_str(s, ".bz2") || chars_eq_str(s, ".tbz2") || chars_eq_str(s, ".tbz") || chars_eq_str(s, ".tar.bz2") {
            Some(ArchiveKind::Bzip2)
        } else if chars_eq_str(s, ".xz") || chars_eq_str(s, ".txz") || chars_eq_str(s, ".lzma") || chars_eq_str(s, ".tar.xz") {
            Some(ArchiveKind::Xz)
        } else if chars_eq_str(s, ".zst") || chars_eq_str(s, ".zstd") || chars_eq_str(s, ".tzst") || chars_eq_str(s, ".tar.zst") {
            Some(ArchiveKind::Zstd)
        } else if chars_eq_str(s, ".7z") {
            Some(ArchiveKind::SevenZip)
        } else if bytes.len() < 4 {
            None
        } else if starts_with_u8(bytes, &[0x50u8, 0x4B, 0x03, 0x04]) {
            Some(ArchiveKind::Zip)
        } else if starts_with_u8(bytes, &[0x1fu8, 0x8b]) {
            Some(ArchiveKind::Gzip)
        } else if starts_with_u8(bytes, &[0x42u8, 0x5a]) {
            Some(ArchiveKind::Bzip2)
        } else if starts_with_u8(bytes, &[0xfdu8, 0x37, 0x7a, 0x58, 0x5a, 0x00]) {
            Some(ArchiveKind::Xz)
        } else if starts_with_u8(bytes, &[0x28u8, 0xb5, 0x2f, 0xfd]) {
            Some(ArchiveKind::Zstd)
        } else if starts_with_u8(bytes, &[0x37u8, 0x7a, 0xbc, 0xaf, 0x27, 0x1c]) {
            Some(ArchiveKind::SevenZip)
        } else {
            None
        }
    }
}

/// The result of converting archive bytes whose format was found to be
/// `kind`: the converter of that format; the answer that the format could
/// not be found; and, for 7z, which is not read here, an unsupported
/// format.
pub open spec fn archive_result(kind: Option<ArchiveKind>, b: Seq<u8>, r: Result<Document, MarkitdownError>) -> bool {
    match kind {
        Some(ArchiveKind::Zip) => match zip_extract(b) {
            Ok(v) => r matches Ok(d) && is_markdown_doc(d, summary_md(v, "archive.zip"@)),
            Err(m) => r matches Err(e) && is_parse_error(e, m),
        },
        Some(ArchiveKind::Tar) => match tar_extract(b) {
            Ok(v) => r matches Ok(d) && is_markdown_doc(d, summary_md(v, "archive.tar"@)),
            Err(m) => r matches Err(e) && is_parse_error(e, m),
        },
        Some(ArchiveKind::Gzip) => match compressed_doc(gz_decompress(b), "Gzip"@, "archive.tar.gz"@) {
            Ok(v) => r matches Ok(x) && x@ == v,
            Err(m) => r matches Err(e) && is_parse_error(e, m),
        },
        Some(ArchiveKind::Bzip2) => match compressed_doc(bz2_decompress(b), "Bzip2"@, "archive.tar.bz2"@) {
            Ok(v) => r matches Ok(x) && x@ == v,
            Err(m) => r matches Err(e) && is_parse_error(e, m),
        },
        Some(ArchiveKind::Xz) => match compressed_doc(xz_decompress(b), "XZ"@, "archive.tar.xz"@) {
            Ok(v) => r matches Ok(x) && x@ == v,
            Err(m) => r matches Err(e) && is_parse_error(e, m),
        },
        Some(ArchiveKind::Zstd) => match zstd_doc(zstd_decompress(b)) {
            Ok(v) => r matches Ok(x) && x@ == v,
            Err(m) => r matches Err(e) && is_parse_error(e, m),
        },
        Some(ArchiveKind::SevenZip) => r matches Err(MarkitdownError::UnsupportedFormat(m)) && m@
            == "7z archives are not supported"@,
        None => r matches Err(MarkitdownError::UnsupportedFormat(m)) && m@ == "Could not detect archive format"@,
    }
}

impl ArchiveConverter {
    /// Converts archive bytes with the converter of the format that the
    /// extension hint or the magic bytes give (see [`archive_result`]).
    pub fn convert_bytes(&self, bytes: &[u8], options: Option<&ConversionOptions>) -> (r: Result<Document, MarkitdownError>)
        ensures
            archive_result(archive_kind_of(extension_hint(options), bytes@), bytes@, r),
    {
        match Self::archive_kind(options, bytes) {
            Some(ArchiveKind::Zip) => self.zip.convert_bytes(bytes),
            Some(ArchiveKind::Tar) => self.tar.convert_bytes(bytes),
            Some(ArchiveKind::Gzip) => self.gzip.convert_bytes(bytes),
            Some(ArchiveKind::Bzip2) => self.bzip2.convert_bytes(bytes),
            Some(ArchiveKind::Xz) => self.xz.convert_bytes(bytes),
            Some(ArchiveKind::Zstd) => self.zstd.convert_bytes(bytes),
            Some(ArchiveKind::SevenZip) => Err(MarkitdownError::UnsupportedFormat(String::from_str("7z archives are not supported"))),
            None => Err(MarkitdownError::UnsupportedFormat(String::from_str("Could not detect archive format"))),
        }
    }
}

impl DocumentConverter for ZipConverter {
    open spec fn extensions(&self) -> Seq<Seq<char>> {
        seq![".zip"@]
    }

    fn supported_extensions(&self) -> (r: Vec<&'static str>) {
        let r = vec![".zip"];
        assert(ext_views(r@) =~= self.extensions());
        r
    }
}

impl DocumentConverter for TarConverter {
    open spec fn extensions(&self) -> Seq<Seq<char>> {
        seq![".tar"@]
    }

    fn supported_extensions(&self) -> (r: Vec<&'static str>) {
        let r = vec![".tar"];
        assert(ext_views(r@) =~= self.extensions());
        r
    }
}

impl DocumentConverter for GzipConverter {
    open spec fn extensions(&self) -> Seq<Seq<char>> {
        seq![".gz"@, ".gzip"@, ".tgz"@]
    }

    fn supported_extensions(&self) -> (r: Vec<&'static str>) {
        let r = vec![".gz", ".gzip", ".tgz"];
        assert(ext_views(r@) =~= self.extensions());
        r
    }
}

impl DocumentConverter for Bzip2Converter {
    open spec fn extensions(&self) -> Seq<Seq<char>> {
        seq![".bz2"@, ".tbz2"@, ".tbz"@]
    }

    fn supported_extensions(&self) -> (r: Vec<&'static str>) {
        let r = vec![".bz2", ".tbz2", ".tbz"];
        assert(ext_views(r@) =~= self.extensions());
        r
    }
}

impl DocumentConverter for XzConverter {
    open spec fn extensions(&self) -> Seq<Seq<char>> {
        seq![".xz"@, ".txz"@, ".lzma"@]
    }

    fn supported_extensions(&self) -> (r: Vec<&'static str>) {
        let r = vec![".xz", ".txz", ".lzma"];
        assert(ext_views(r@) =~= self.extensions());
        r
    }
}

impl DocumentConverter for ZstdConverter {
    open spec fn extensions(&self) -> Seq<Seq<char>> {
        seq![".zst"@, ".zstd"@, ".tzst"@]
    }

    fn supported_extensions(&self) -> (r: Vec<&'static str>) {
        let r = vec![".zst", ".zstd", ".tzst"];
        assert(ext_views(r@) =~= self.extensions());
        r
    }
}

impl DocumentConverter for SevenZipConverter {
    open spec fn extensions(&self) -> Seq<Seq<char>> {
        seq![".7z"@]
    }

    fn supported_extensions(&self) -> (r: Vec<&'static str>) {
        let r = vec![".7z"];
        assert(ext_views(r@) =~= self.extensions());
        r
    }
}

/// The extensions of every archive format.
pub open spec fn archive_extensions() -> Seq<Seq<char>> {
    seq![
        ".zip"@, ".tar"@, ".gz"@, ".gzip"@, ".tgz"@, ".tar.gz"@, ".bz2"@, ".tbz2"@, ".tbz"@,
        ".tar.bz2"@, ".xz"@, ".txz"@, ".lzma"@, ".tar.xz"@, ".zst"@, ".zstd"@, ".tzst"@, ".tar.zst"@,
        ".7z"@,
    ]
}

impl DocumentConverter for ArchiveConverter {
    open spec fn extensions(&self) -> Seq<Seq<char>> {
        archive_extensions()
    }

    fn supported_extensions(&self) -> (r: Vec<&'static str>) {
        let r = vec![
            ".zip", ".tar", ".gz", ".gzip", ".tgz", ".tar.gz", ".bz2", ".tbz2", ".tbz", ".tar.bz2",
            ".xz", ".txz", ".lzma", ".tar.xz", ".zst", ".zstd", ".tzst", ".tar.zst", ".7z",
        ];
        assert(ext_views(r@) =~= self.extensions());
        r
    }
}

} // verus!
