use std::io::Write;

use markitdown::error::MarkitdownError;
use markitdown::html::HtmlConverter;
use markitdown::model::{ContentBlock, ConversionOptions, Document};
use markitdown::opendocument::{OdpConverter, OdsConverter, OdtConverter};
use markitdown::spreadsheet::{ExcelConverter, XlsConverter};
use markitdown::templates::{with_format_extension, DotxConverter, XltxConverter};

fn zip_with(files: &[(&str, &str)]) -> Vec<u8> {
    let mut w = zip::ZipWriter::new(std::io::Cursor::new(Vec::new()));
    let o = zip::write::SimpleFileOptions::default().compression_method(zip::CompressionMethod::Stored);
    for (name, text) in files {
        w.start_file(*name, o).unwrap();
        w.write_all(text.as_bytes()).unwrap();
    }
    w.finish().unwrap().into_inner()
}

fn markdown_block(doc: &Document) -> String {
    match &doc.pages[0].content[0] {
        ContentBlock::Markdown(m) => m.clone(),
        _ => panic!("expected Markdown"),
    }
}

const PAGE: &[u8] = b"<html><head><title> My Page </title></head><body><p>Hi there</p><img src=\"a.png\" alt=\"pic\"><img src=\"data:image/png;base64,AAEC\"></body></html>";

#[test]
fn html_title_images_and_markdown() {
    let doc = HtmlConverter.convert_html_bytes(PAGE, true).expect("utf-8");
    assert_eq!(doc.title, Some("My Page".to_string()));
    let c = &doc.pages[0].content;
    assert_eq!(c.len(), 3);
    match &c[0] {
        ContentBlock::Image(i) => {
            assert_eq!(i.id, "html_image_0");
            assert_eq!(i.mime_type, "image/unknown");
            assert_eq!(i.alt_text, Some("pic".to_string()));
            assert!(i.data.is_empty());
        },
        _ => panic!("expected an image"),
    }
    match &c[1] {
        ContentBlock::Image(i) => {
            assert_eq!(i.id, "html_image_1");
            assert_eq!(i.mime_type, "image/png");
            assert_eq!(i.data, vec![0u8, 1, 2]);
            assert_eq!(i.alt_text, None);
        },
        _ => panic!("expected an image"),
    }
    match &c[2] {
        ContentBlock::Markdown(m) => assert!(m.contains("Hi there")),
        _ => panic!("expected Markdown"),
    }
}

#[test]
fn html_without_images_and_errors() {
    let opts = ConversionOptions::new().with_images(false);
    let doc = HtmlConverter.convert_bytes(PAGE, Some(&opts)).expect("utf-8");
    assert_eq!(doc.pages[0].content.len(), 1);
    match HtmlConverter.convert_html_bytes(&[0xff, 0xfe, 0x41], true) {
        Err(MarkitdownError::ParseError(m)) => assert!(m.starts_with("Invalid UTF-8 encoding: ")),
        _ => panic!("expected a parse error"),
    }
    let bad = ConversionOptions::new().with_extension(".txt");
    match HtmlConverter.convert_bytes(PAGE, Some(&bad)) {
        Err(MarkitdownError::InvalidFile(m)) => assert_eq!(m, "Expected .html or .htm file, got .txt"),
        _ => panic!("expected an invalid file error"),
    }
}

#[test]
fn spreadsheet_open_errors() {
    match ExcelConverter.convert_excel_bytes(b"not a workbook") {
        Err(MarkitdownError::ParseError(m)) => assert!(m.starts_with("Failed to open Excel file: ")),
        _ => panic!("expected a parse error"),
    }
    match XlsConverter::convert_xls(b"not a workbook") {
        Err(MarkitdownError::ParseError(m)) => assert!(m.starts_with("XLS parse error: ")),
        _ => panic!("expected a parse error"),
    }
    match OdsConverter::convert_ods(b"not a workbook") {
        Err(MarkitdownError::ParseError(m)) => assert!(m.starts_with("ODS parse error: ")),
        _ => panic!("expected a parse error"),
    }
    let bad = ConversionOptions::new().with_extension(".csv");
    match ExcelConverter.convert_bytes(b"x", Some(&bad)) {
        Err(MarkitdownError::InvalidFile(m)) => assert_eq!(m, "Expected .xlsx or .xls file, got .csv"),
        _ => panic!("expected an invalid file error"),
    }
}

const ODT_XML: &str = "<office:document-content><office:body><office:text><text:h text:outline-level=\"2\">Title</text:h><text:p>Hello</text:p><text:list><text:list-item><text:p>one</text:p></text:list-item></text:list></office:text></office:body></office:document-content>";

#[test]
fn odt_text_and_document() {
    let t = OdtConverter::extract_text_from_xml(ODT_XML).expect("well formed");
    assert_eq!(t, "## Title\n\nHello\n\none");
    let doc = OdtConverter::convert_odt(&zip_with(&[("content.xml", ODT_XML)])).expect("valid");
    assert_eq!(markdown_block(&doc), "# OpenDocument Text\n\n## Title\n\nHello\n\none");
    let empty = OdtConverter::convert_odt(&zip_with(&[("other.xml", "<a/>")])).expect("valid");
    assert_eq!(markdown_block(&empty), "# OpenDocument Text\n\n*Unable to read content from ODT file.*\n");
    match OdtConverter::convert_odt(b"junk") {
        Err(MarkitdownError::ParseError(m)) => assert!(m.starts_with("ODT parse error: ")),
        _ => panic!("expected a parse error"),
    }
    match OdtConverter::extract_text_from_xml("<text:p>x</text:h>") {
        Err(MarkitdownError::ParseError(m)) => assert!(m.starts_with("XML error: ")),
        _ => panic!("expected an XML error"),
    }
}

#[test]
fn odt_heading_level_is_capped_and_kept() {
    let xml = "<r><text:h text:outline-level=\"9\">A</text:h><text:h>B</text:h></r>";
    assert_eq!(OdtConverter::extract_text_from_xml(xml).expect("well formed"), "###### A\n\n###### B");
}

const ODP_XML: &str = "<office:document-content><office:body><office:presentation><draw:page><draw:frame><draw:text-box><text:p>Hello</text:p><text:p><text:span>World</text:span></text:p></draw:text-box></draw:frame></draw:page><draw:page></draw:page></office:presentation></office:body></office:document-content>";

#[test]
fn odp_slides_and_pages() {
    let slides = OdpConverter::extract_slides_from_xml(ODP_XML).expect("well formed");
    assert_eq!(slides, vec!["Hello\nWorld\nWorld\n".to_string()]);
    let doc = OdpConverter::convert_odp(&zip_with(&[("content.xml", ODP_XML)])).expect("valid");
    assert_eq!(doc.pages.len(), 1);
    match &doc.pages[0].content[0] {
        ContentBlock::Heading { level, text } => {
            assert_eq!(*level, 2);
            assert_eq!(text, "Slide 1");
        },
        _ => panic!("expected a heading"),
    }
    let none = OdpConverter::convert_odp(&zip_with(&[("x.xml", "<a/>")])).expect("valid");
    match &none.pages[0].content[0] {
        ContentBlock::Text(t) => assert_eq!(t, "*Unable to read content from ODP file.*"),
        _ => panic!("expected text"),
    }
}

#[test]
fn template_options_and_xltx() {
    let o = with_format_extension(None, ".docx");
    assert_eq!(o.file_extension, Some(".docx".to_string()));
    assert!(o.extract_images);
    let given = ConversionOptions::new().with_extension(".dotx").with_images(false);
    let d = DotxConverter::docx_options(Some(&given));
    assert_eq!(d.file_extension, Some(".docx".to_string()));
    assert!(!d.extract_images);
    match XltxConverter.convert_bytes(b"junk", Some(&given)) {
        Err(MarkitdownError::ParseError(m)) => assert!(m.starts_with("Failed to open Excel file: ")),
        _ => panic!("expected a parse error"),
    }
}
