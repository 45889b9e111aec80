use std::io::Write;

use markitdown::detect::ConverterKind;
use markitdown::dispatch::convert_as;
use markitdown::error::MarkitdownError;
use markitdown::model::{ContentBlock, ConversionOptions};
use markitdown::pptx::{slide_blocks, slide_page, PptxConverter};
use markitdown::xml::read_xml_events;

const SLIDE1: &str = r#"<?xml version="1.0"?><p:sld xmlns:p="p" xmlns:a="a" xmlns:r="r"><p:cSld><p:spTree><p:sp><p:txBody><a:p><a:r><a:t>Hello</a:t></a:r><a:r><a:t> world</a:t></a:r></a:p></p:txBody></p:sp><p:graphicFrame><a:graphic><a:graphicData><a:tbl><a:tr><a:tc><a:txBody><a:p><a:r><a:t>Name</a:t></a:r></a:p></a:txBody></a:tc><a:tc><a:txBody><a:p><a:r><a:t>Qty</a:t></a:r></a:p></a:txBody></a:tc></a:tr><a:tr><a:tc><a:txBody><a:p><a:r><a:t>Pens</a:t></a:r></a:p></a:txBody></a:tc><a:tc><a:txBody><a:p><a:r><a:t>3</a:t></a:r></a:p></a:txBody></a:tc></a:tr></a:tbl></a:graphicData></a:graphic></p:graphicFrame><p:pic><p:blipFill><a:blip r:embed="rId2"/></p:blipFill></p:pic></p:spTree></p:cSld></p:sld>"#;

const RELS1: &str = r#"<?xml version="1.0"?><Relationships><Relationship Id="rId1" Target="../slideLayouts/slideLayout1.xml"/><Relationship Id="rId2" Target="../media/image1.png"/></Relationships>"#;

const SLIDE2: &str = r#"<p:sld xmlns:p="p" xmlns:a="a"><p:txBody><a:p><a:r><a:t>Second</a:t></a:r></a:p></p:txBody><p:txBody><a:p/></p:txBody></p:sld>"#;

const PNG: [u8; 10] = [0x89, 0x50, 0x4E, 0x47, 0x0D, 0x0A, 0x1A, 0x0A, 0, 1];

fn presentation() -> Vec<u8> {
    let mut w = zip::ZipWriter::new(std::io::Cursor::new(Vec::new()));
    let o = zip::write::SimpleFileOptions::default();
    w.start_file("[Content_Types].xml", o).unwrap();
    w.write_all(b"<Types/>").unwrap();
    w.start_file("ppt/slides/slide2.xml", o).unwrap();
    w.write_all(SLIDE2.as_bytes()).unwrap();
    w.start_file("ppt/slides/slide1.xml", o).unwrap();
    w.write_all(SLIDE1.as_bytes()).unwrap();
    w.start_file("ppt/slides/_rels/slide1.xml.rels", o).unwrap();
    w.write_all(RELS1.as_bytes()).unwrap();
    w.start_file("ppt/media/image1.png", o).unwrap();
    w.write_all(&PNG).unwrap();
    w.finish().unwrap().into_inner()
}

#[test]
fn slides_become_pages_in_name_order() {
    let doc = PptxConverter::convert_pptx(&presentation(), true).expect("reads");
    assert_eq!(doc.pages.len(), 2);
    let p1 = &doc.pages[0];
    assert_eq!(p1.page_number, 1);
    match &p1.content[0] {
        ContentBlock::Markdown(m) => assert_eq!(m, "<!-- Slide 1 -->\n"),
        _ => panic!("expected the slide marker"),
    }
    match &p1.content[1] {
        ContentBlock::Text(t) => assert_eq!(t, "Helloworld"),
        _ => panic!("expected text"),
    }
    match &p1.content[2] {
        ContentBlock::Table { headers, rows } => {
            assert_eq!(headers, &vec!["Name".to_string(), "Qty".to_string()]);
            assert_eq!(rows, &vec![vec!["Pens".to_string(), "3".to_string()]]);
        },
        _ => panic!("expected a table"),
    }
    match &p1.content[3] {
        ContentBlock::Image(img) => {
            assert_eq!(img.id, "slide1_image1");
            assert_eq!(img.mime_type, "image/png");
            assert_eq!(img.alt_text.as_deref(), Some("image1.png"));
            assert_eq!(img.page_number, Some(1));
            assert_eq!(img.data, PNG.to_vec());
        },
        _ => panic!("expected an image"),
    }
    assert_eq!(p1.content.len(), 4);
    let p2 = &doc.pages[1];
    assert_eq!(p2.page_number, 2);
    assert_eq!(p2.content.len(), 2);
    match &p2.content[1] {
        ContentBlock::Text(t) => assert_eq!(t, "Second"),
        _ => panic!("expected text"),
    }
}

#[test]
fn images_are_left_out_when_not_extracted() {
    let mut o = ConversionOptions::new();
    o.extract_images = false;
    let doc = PptxConverter.convert_bytes(&presentation(), Some(&o)).expect("reads");
    assert_eq!(doc.pages[0].content.len(), 3);
}

#[test]
fn pptx_that_is_no_zip_is_a_zip_error() {
    match PptxConverter::convert_pptx(b"not a zip", true) {
        Err(MarkitdownError::Zip(_)) => {},
        _ => panic!("expected a ZIP error"),
    }
}

#[test]
fn slide_page_from_events() {
    let events = read_xml_events(SLIDE1);
    let rels = read_xml_events(RELS1);
    let images = vec![("image1.png".to_string(), PNG.to_vec()), ("other.png".to_string(), vec![1, 2])];
    let page = slide_page(&events, &rels, 7, &images).expect("parses");
    assert_eq!(page.page_number, 7);
    match &page.content[0] {
        ContentBlock::Markdown(m) => assert_eq!(m, "<!-- Slide 7 -->\n"),
        _ => panic!("expected the slide marker"),
    }
    match &page.content[3] {
        ContentBlock::Image(img) => assert_eq!(img.id, "slide7_image1"),
        _ => panic!("expected an image"),
    }
    let none = slide_page(&events, &Vec::new(), 1, &images).expect("parses");
    assert_eq!(none.content.len(), 3);
}

#[test]
fn broken_slide_xml_is_a_parse_error() {
    let events = read_xml_events("<p:sld><p:txBody></a:t></p:sld>");
    match slide_blocks(&events) {
        Err(MarkitdownError::ParseError(m)) => assert!(m.starts_with("Failed to read XML event: ")),
        _ => panic!("expected a parse error"),
    }
}

#[test]
fn dispatch_by_kind() {
    assert!(convert_as(ConverterKind::Pdf, b"%PDF-1.4", None).is_none());
    assert!(convert_as(ConverterKind::Sqlite, b"SQLite format 3", None).is_none());
    let doc = convert_as(ConverterKind::Pptx, &presentation(), None).expect("a converter").expect("reads");
    assert_eq!(doc.pages.len(), 2);
    let text = convert_as(ConverterKind::Text, b"plain", None).expect("a converter").expect("reads");
    assert_eq!(text.pages.len(), 1);
    let potx = convert_as(ConverterKind::Potx, &presentation(), None).expect("a converter").expect("reads");
    assert_eq!(potx.pages.len(), 2);
}
