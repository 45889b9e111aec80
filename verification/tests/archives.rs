use std::io::Write;

use markitdown::archive::{extension_string, is_text_extension, process_file, ArchiveExtractionResult};
use markitdown::archive_formats::{ArchiveConverter, ArchiveKind, GzipConverter, ZipConverter};
use markitdown::error::MarkitdownError;
use markitdown::model::{ContentBlock, ConversionOptions, Document};

fn first_markdown(doc: &Document) -> String {
    match &doc.pages[0].content[0] {
        ContentBlock::Markdown(m) => m.clone(),
        ContentBlock::Text(t) => t.clone(),
        _ => panic!("expected text"),
    }
}

fn small_zip() -> Vec<u8> {
    let mut w = zip::ZipWriter::new(std::io::Cursor::new(Vec::new()));
    let o = zip::write::SimpleFileOptions::default();
    w.start_file("notes.txt", o).unwrap();
    w.write_all(b"hello").unwrap();
    w.start_file("data.bin", o).unwrap();
    w.write_all(&[0u8, 1, 2]).unwrap();
    w.finish().unwrap().into_inner()
}

#[test]
fn extension_of_paths() {
    let e: String = extension_string("dir/file.TXT").iter().collect();
    assert_eq!(e, ".txt");
    let none: String = extension_string("README").iter().collect();
    assert_eq!(none, "");
    assert!(is_text_extension(".md"));
    assert!(!is_text_extension(".exe"));
}

#[test]
fn process_file_counts_each_file_once() {
    let r = ArchiveExtractionResult::new();
    let r = process_file(r, "a.txt", b"text");
    let r = process_file(r, "b.bin", &[0xff, 0xfe]);
    assert_eq!(r.documents.len() + r.skipped_files.len(), 2);
    assert_eq!(r.documents.len(), 1);
    assert_eq!(r.skipped_files.len(), 1);
    assert_eq!(r.skipped_files[0].0, "b.bin");
}

#[test]
fn zip_archive_summary() {
    let doc = ZipConverter.convert_bytes(&small_zip()).expect("valid zip");
    let md = first_markdown(&doc);
    assert!(md.starts_with("# Archive: archive.zip\n\n**Total files:** 2\n**Converted:** 1\n**Skipped:** 1\n\n## Contents\n\n"));
    assert!(md.contains("### \u{1F4C4} notes.txt\n\n"));
    assert!(md.contains("hello"));
    assert!(md.contains("## Skipped Files\n\n- `data.bin`: "));
}

#[test]
fn zip_garbage_is_error() {
    match ZipConverter.convert_bytes(b"not a zip") {
        Err(MarkitdownError::ParseError(_)) => {},
        _ => panic!("expected a parse error"),
    }
}

#[test]
fn gzip_of_plain_text() {
    let mut e = flate2::write::GzEncoder::new(Vec::new(), flate2::Compression::default());
    e.write_all(b"plain words").unwrap();
    let gz = e.finish().unwrap();
    let doc = GzipConverter.convert_bytes(&gz).expect("valid gzip");
    assert_eq!(first_markdown(&doc), "```\nplain words\n```");
    match GzipConverter.convert_bytes(b"\x1f\x8bbroken") {
        Err(MarkitdownError::ParseError(m)) => assert!(m.starts_with("Gzip decompress error: ")),
        _ => panic!("expected a decompress error"),
    }
}

#[test]
fn archive_kind_by_extension_and_magic() {
    let opts = ConversionOptions::new().with_extension(".TGZ");
    assert_eq!(ArchiveConverter::archive_kind(Some(&opts), b""), Some(ArchiveKind::Gzip));
    assert_eq!(ArchiveConverter::archive_kind(None, b"PK\x03\x04rest"), Some(ArchiveKind::Zip));
    assert_eq!(ArchiveConverter::archive_kind(None, b"7z\xbc\xaf\x27\x1c"), Some(ArchiveKind::SevenZip));
    assert_eq!(ArchiveConverter::archive_kind(None, b"abc"), None);
}
