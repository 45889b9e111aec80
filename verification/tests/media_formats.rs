use markitdown::docx::DocxConverter;
use markitdown::epub::EpubConverter;
use markitdown::error::MarkitdownError;
use markitdown::image::ImageConverter;
use markitdown::model::{ContentBlock, ConversionOptions, DocumentConverter};
use markitdown::rss::RssConverter;
use markitdown::rtf::RtfConverter;
use docx_rust::document::{Paragraph, Table, TableCell, TableRow};
use std::io::Write;

#[test]
fn rtf_text_is_extracted_and_trimmed() {
    let rtf = br"{ \rtf1\ansi{\fonttbl\f0\fswiss Helvetica;}\f0\pard Voici du texte en {\b gras}.\par }";
    let text = RtfConverter::extract_text(rtf).expect("parses");
    assert_eq!(text, "Voici du texte en gras.");
    let doc = RtfConverter.convert_bytes(rtf, None).expect("parses");
    assert_eq!(doc.pages.len(), 1);
    assert_eq!(doc.pages[0].page_number, 1);
    match &doc.pages[0].content[0] {
        ContentBlock::Text(t) => assert_eq!(t, "Voici du texte en gras."),
        _ => panic!("expected text"),
    }
}

#[test]
fn rtf_wrong_extension_is_refused() {
    let bad = ConversionOptions::new().with_extension(".doc");
    match RtfConverter.convert_bytes(br"{\rtf1 x}", Some(&bad)) {
        Err(MarkitdownError::InvalidFile(m)) => assert_eq!(m, "Expected .rtf file, got .doc"),
        _ => panic!("expected an invalid file error"),
    }
}

const RSS: &[u8] = b"<?xml version=\"1.0\"?><rss version=\"2.0\"><channel><title>News</title><link>http://example.com/</link><description>Daily notes</description><item><title>First</title><description>Hello &lt;b&gt;world&lt;/b&gt;</description></item></channel></rss>";

#[test]
fn rss_feed_heading_description_and_entries() {
    let doc = RssConverter.bytes_to_document(RSS).expect("parses");
    assert_eq!(doc.title.as_deref(), Some("News"));
    let content = &doc.pages[0].content;
    match &content[0] {
        ContentBlock::Heading { level, text } => {
            assert_eq!(*level, 1);
            assert_eq!(text, "News");
        },
        _ => panic!("expected the feed heading"),
    }
    match &content[1] {
        ContentBlock::Text(t) => assert_eq!(t, "Daily notes"),
        _ => panic!("expected the description"),
    }
    match &content[2] {
        ContentBlock::Heading { level, text } => {
            assert_eq!(*level, 2);
            assert_eq!(text, "First");
        },
        _ => panic!("expected the entry heading"),
    }
    match content.last() {
        Some(ContentBlock::Markdown(m)) => assert!(m.contains("world")),
        _ => panic!("expected the entry summary"),
    }
}

#[test]
fn rss_garbage_is_a_parse_error() {
    match RssConverter.bytes_to_document(b"this is not a feed") {
        Err(MarkitdownError::ParseError(m)) => assert!(m.starts_with("Failed to parse feed: ")),
        _ => panic!("expected a parse error"),
    }
    assert!(RssConverter.can_handle("atom"));
}

#[test]
fn image_signatures_give_mime_types() {
    let png = [0x89u8, 0x50, 0x4E, 0x47, 0x0D, 0x0A, 0x1A, 0x0A, 0, 0, 0, 0];
    assert_eq!(ImageConverter::detect_mime_type(&png), "image/png");
    assert_eq!(ImageConverter::detect_mime_type(&[0xFF, 0xD8, 0xFF, 0xE0, 0, 0, 0, 0]), "image/jpeg");
    assert_eq!(ImageConverter::detect_mime_type(b"GIF89a\0\0"), "image/gif");
    assert_eq!(ImageConverter::detect_mime_type(b"RIFF\0\0\0\0WEBP"), "image/webp");
    assert_eq!(ImageConverter::detect_mime_type(b"BM\0\0\0\0\0\0"), "image/bmp");
    assert_eq!(ImageConverter::detect_mime_type(b"II*\0\0\0\0\0"), "image/tiff");
    assert_eq!(ImageConverter::detect_mime_type(b"GIF8"), "application/octet-stream");
}

#[test]
fn image_document_holds_the_image() {
    let png = [0x89u8, 0x50, 0x4E, 0x47, 0x0D, 0x0A, 0x1A, 0x0A, 1, 2, 3, 4];
    assert_eq!(ImageConverter::extract_exif_metadata(&png), None);
    let doc = ImageConverter.bytes_to_document(&png, None, Some("A red dot".to_string()));
    assert_eq!(doc.pages.len(), 1);
    assert_eq!(doc.pages[0].content.len(), 1);
    match &doc.pages[0].content[0] {
        ContentBlock::Image(img) => {
            assert_eq!(img.id, "image_1");
            assert_eq!(img.mime_type, "image/png");
            assert_eq!(img.data, png.to_vec());
            assert_eq!(img.page_number, Some(1));
            assert_eq!(img.description.as_deref(), Some("A red dot"));
        },
        _ => panic!("expected the image"),
    }
}

#[test]
fn epub_markdown_is_cleaned() {
    assert_eq!(EpubConverter::clean_markdown("\n  # Title   \nText  \n\n"), "# Title\nText");
    assert_eq!(EpubConverter::clean_markdown("   \n \t"), "");
}

fn tiny_epub() -> Vec<u8> {
    let mut buf = std::io::Cursor::new(Vec::new());
    {
        let mut z = zip::ZipWriter::new(&mut buf);
        let stored: zip::write::SimpleFileOptions =
            zip::write::SimpleFileOptions::default().compression_method(zip::CompressionMethod::Stored);
        z.start_file("mimetype", stored).unwrap();
        z.write_all(b"application/epub+zip").unwrap();
        z.start_file("META-INF/container.xml", stored).unwrap();
        z.write_all(b"<?xml version=\"1.0\"?><container version=\"1.0\" xmlns=\"urn:oasis:names:tc:opendocument:xmlns:container\"><rootfiles><rootfile full-path=\"OEBPS/content.opf\" media-type=\"application/oebps-package+xml\"/></rootfiles></container>").unwrap();
        z.start_file("OEBPS/content.opf", stored).unwrap();
        z.write_all(b"<?xml version=\"1.0\"?><package xmlns=\"http://www.idpf.org/2007/opf\" version=\"3.0\" unique-identifier=\"id\"><metadata xmlns:dc=\"http://purl.org/dc/elements/1.1/\"><dc:identifier id=\"id\">book-1</dc:identifier><dc:title>Tiny Book</dc:title><dc:creator>Ann Author</dc:creator><dc:language>en</dc:language></metadata><manifest><item id=\"c1\" href=\"c1.xhtml\" media-type=\"application/xhtml+xml\"/></manifest><spine><itemref idref=\"c1\"/></spine></package>").unwrap();
        z.start_file("OEBPS/c1.xhtml", stored).unwrap();
        z.write_all(b"<?xml version=\"1.0\"?><html xmlns=\"http://www.w3.org/1999/xhtml\"><head><title>c1</title></head><body><p>Once upon a time.</p></body></html>").unwrap();
        z.finish().unwrap();
    }
    buf.into_inner()
}

#[test]
fn epub_title_page_and_sections() {
    let doc = EpubConverter::convert_epub(&tiny_epub()).expect("opens");
    assert_eq!(doc.pages[0].page_number, 0);
    match &doc.pages[0].content[0] {
        ContentBlock::Markdown(m) => assert_eq!(m, "# Tiny Book\n\n**Author:** Ann Author\n\n"),
        _ => panic!("expected the title page"),
    }
    assert_eq!(doc.pages.len(), 2);
    assert_eq!(doc.pages[1].page_number, 1);
    match &doc.pages[1].content[0] {
        ContentBlock::Markdown(m) => assert!(m.contains("Once upon a time.")),
        _ => panic!("expected the section"),
    }
}

#[test]
fn epub_errors() {
    match EpubConverter::convert_epub(b"not a book") {
        Err(MarkitdownError::ParseError(m)) => assert!(m.starts_with("EPUB parse error: ")),
        _ => panic!("expected a parse error"),
    }
    let bad = ConversionOptions::new().with_extension(".pdf");
    match EpubConverter.convert_bytes(b"", Some(&bad)) {
        Err(MarkitdownError::InvalidFile(m)) => assert_eq!(m, "Expected .epub file, got .pdf"),
        _ => panic!("expected an invalid file error"),
    }
}

fn tiny_docx() -> Vec<u8> {
    let mut docx = docx_rust::Docx::default();
    docx.document.push(Paragraph::default().push_text("Hello Word"));
    docx.document.push(Paragraph::default().push_text("   "));
    let row = |a: &'static str, b: &'static str| {
        TableRow::default()
            .push_cell(TableCell::paragraph(Paragraph::default().push_text(a)))
            .push_cell(TableCell::paragraph(Paragraph::default().push_text(b)))
    };
    docx.document.push(Table::default().push_row(row("Name", "Age")).push_row(row("Ann", "30")));
    docx.write(std::io::Cursor::new(Vec::new())).unwrap().into_inner()
}

#[test]
fn docx_paragraphs_and_tables() {
    let doc = DocxConverter.convert_docx_bytes(&tiny_docx(), false).expect("parses");
    assert_eq!(doc.pages.len(), 1);
    let content = &doc.pages[0].content;
    assert_eq!(content.len(), 2);
    match &content[0] {
        ContentBlock::Text(t) => assert_eq!(t, "Hello Word"),
        _ => panic!("expected the paragraph"),
    }
    match &content[1] {
        ContentBlock::Table { headers, rows } => {
            assert_eq!(headers, &vec!["Name".to_string(), "Age".to_string()]);
            assert_eq!(rows, &vec![vec!["Ann".to_string(), "30".to_string()]]);
        },
        _ => panic!("expected the table"),
    }
}

#[test]
fn docx_media_images_are_taken() {
    let mut buf = std::io::Cursor::new(Vec::new());
    {
        let mut z = zip::ZipWriter::new(&mut buf);
        let o = zip::write::SimpleFileOptions::default();
        z.start_file("word/media/image1.png", o).unwrap();
        z.write_all(&[1, 2, 3]).unwrap();
        z.start_file("word/media/chart.emf", o).unwrap();
        z.write_all(&[4]).unwrap();
        z.start_file("word/document.xml", o).unwrap();
        z.write_all(b"<x/>").unwrap();
        z.start_file("word/media/photo.jpeg", o).unwrap();
        z.write_all(&[5, 6]).unwrap();
        z.finish().unwrap();
    }
    let images = DocxConverter.extract_images_from_docx(&buf.into_inner()).expect("reads");
    assert_eq!(images.len(), 2);
    assert_eq!(images[0].id, "image1.png");
    assert_eq!(images[0].mime_type, "image/png");
    assert_eq!(images[0].data, vec![1, 2, 3]);
    assert_eq!(images[1].id, "photo.jpeg");
    assert_eq!(images[1].mime_type, "image/jpeg");
    match DocxConverter.extract_images_from_docx(b"not a zip") {
        Err(MarkitdownError::Zip(_)) => {},
        _ => panic!("expected a zip error"),
    }
}

#[test]
fn docx_errors() {
    match DocxConverter.convert_docx_bytes(b"not a zip", true) {
        Err(MarkitdownError::ParseError(m)) => assert!(m.starts_with("Failed to read DOCX file: ")),
        _ => panic!("expected a parse error"),
    }
    let bad = ConversionOptions::new().with_extension(".doc");
    match DocxConverter.convert_bytes(b"", Some(&bad)) {
        Err(MarkitdownError::InvalidFile(m)) => assert_eq!(m, "Expected .docx file, got .doc"),
        _ => panic!("expected an invalid file error"),
    }
}
