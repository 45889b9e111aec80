use markitdown::error::MarkitdownError;
use markitdown::legacy_office::{DocConverter, ImageFormat, PptConverter};
use markitdown::model::{ContentBlock, ConversionOptions, Document, DocumentConverter, ExtractedImage, Page};
use markitdown::latex::LatexConverter;

fn text_of(v: &[char]) -> String {
    v.iter().collect()
}

#[test]
fn blocks_render_to_markdown() {
    let mut page = Page::new(1);
    page.add_content(ContentBlock::Heading { level: 2, text: "Title".to_string() });
    page.add_content(ContentBlock::List { ordered: true, items: vec!["a".to_string(), "b".to_string()] });
    page.add_content(ContentBlock::Code { language: Some("rs".to_string()), code: "x".to_string() });
    page.add_content(ContentBlock::Quote("l1\nl2".to_string()));
    page.add_content(ContentBlock::Table {
        headers: vec!["H1".to_string(), "H2".to_string()],
        rows: vec![vec!["1".to_string(), "2".to_string()]],
    });
    assert_eq!(
        page.to_markdown(),
        "## Title\n\n1. a\n2. b\n\n```rs\nx\n```\n\n> l1\n> l2\n\n| H1 | H2 |\n| --- | --- |\n| 1 | 2 |\n"
    );
}

#[test]
fn document_pages_and_title() {
    let mut doc = Document::new();
    doc.title = Some("T".to_string());
    let mut p1 = Page::new(1);
    p1.add_content(ContentBlock::Text("one".to_string()));
    let mut p2 = Page::new(2);
    p2.add_content(ContentBlock::Text("two".to_string()));
    doc.add_page(p1);
    doc.add_page(p2);
    assert_eq!(doc.to_markdown(), "# T\n\n\n---\n## Page 1\n\none\n\n---\n## Page 2\n\ntwo\n");
}

#[test]
fn text_only_replaces_images() {
    let mut page = Page::new(1);
    page.add_content(ContentBlock::Text("keep".to_string()));
    page.add_content(ContentBlock::Image(ExtractedImage::new("img1".to_string(), vec![1, 2], "image/png".to_string())));
    let doc = Document::from_page(page);
    assert_eq!(doc.images().len(), 1);
    let t = doc.to_text_only();
    assert_eq!(t.pages[0].content.len(), 2);
    match &t.pages[0].content[1] {
        ContentBlock::Text(s) => assert_eq!(s, "[Image: img1]"),
        _ => panic!("expected the image as text"),
    }
    assert_eq!(t.images().len(), 0);
}

#[test]
fn image_placeholder_and_context_path() {
    let mut img = ExtractedImage::new("pic".to_string(), vec![], "image/png".to_string());
    assert_eq!(img.as_markdown_placeholder(), "![Image: pic](image:pic)");
    img.alt_text = Some("alt".to_string());
    assert_eq!(img.get_display_text(), Some("alt"));
    let mut page = Page::new(1);
    page.add_content(ContentBlock::Image(img));
    let mut doc = Document::from_page(page);
    doc.apply_image_context_path("ctx/file.pdf");
    match &doc.pages[0].content[0] {
        ContentBlock::Image(i) => assert_eq!(i.source_path, Some("ctx/file.pdf".to_string())),
        _ => panic!("expected an image"),
    }
}

#[test]
fn can_handle_ignores_dots_and_case() {
    assert!(LatexConverter.can_handle(".tex"));
    assert!(LatexConverter.can_handle("..TeX"));
    assert!(!LatexConverter.can_handle(".txt"));
}

#[test]
fn conversion_options_builders() {
    let o = ConversionOptions::new().with_extension(".pdf").with_images(false).with_force_llm_ocr(true).with_merge_multipage_tables(true);
    assert_eq!(o.file_extension, Some(".pdf".to_string()));
    assert!(!o.extract_images);
    assert!(o.force_llm_ocr);
    assert!(o.merge_multipage_tables);
}

#[test]
fn error_messages() {
    assert_eq!(MarkitdownError::ParseError("bad".to_string()).message(), "Parse error: bad - The document structure may be invalid");
    assert_eq!(MarkitdownError::InvalidFile("x".to_string()).message(), "Invalid file: x - Please verify the file exists and is accessible");
}

#[test]
fn image_format_detection() {
    let png = [0x89u8, 0x50, 0x4E, 0x47, 0x0D, 0x0A, 0x1A, 0x0A, 0, 0];
    let f = ImageFormat::detect(&png);
    assert_eq!(f.mime_type(), "image/png");
    assert_eq!(f.extension(), "png");
    let jpg = [0xFFu8, 0xD8, 0xFF, 0xE0, 0, 0, 0, 0];
    assert_eq!(ImageFormat::detect(&jpg).extension(), "jpg");
    assert_eq!(ImageFormat::detect(&[0u8; 4]).mime_type(), "application/octet-stream");
}

#[test]
fn jpeg_end_marker() {
    assert_eq!(DocConverter::find_jpeg_end(&[0xFF, 0xD8, 0xFF, 0x00, 0xFF, 0xD9, 0x00]), Some(6));
    assert_eq!(DocConverter::find_jpeg_end(&[0xFF, 0xD8, 0xFF, 0x00]), None);
}

#[test]
fn ppt_text_helpers() {
    let utf16 = [0x48u8, 0, 0x69, 0];
    assert_eq!(PptConverter::decode_utf16_text(&utf16).map(|v| text_of(&v)), Some("Hi".to_string()));
    assert!(PptConverter::is_meaningful_text(&"Hello world".chars().collect::<Vec<char>>()));
    assert!(!PptConverter::is_meaningful_text(&"12345 678".chars().collect::<Vec<char>>()));
}

#[test]
fn word_utf16_needs_more_than_ten_characters() {
    let short: Vec<u8> = "short".encode_utf16().flat_map(|u| u.to_le_bytes()).collect();
    assert_eq!(DocConverter::decode_utf16_text(&short), None);
    let long: Vec<u8> = "a longer piece of text".encode_utf16().flat_map(|u| u.to_le_bytes()).collect();
    assert_eq!(DocConverter::decode_utf16_text(&long).map(|v| text_of(&v)), Some("a longer piece of text".to_string()));
}
