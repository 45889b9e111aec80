use markitdown::data::CodeConverter;
use markitdown::archive_formats::{ArchiveConverter, ZstdConverter};
use markitdown::detect::{converter_for, detect_bytes, file_type_extension, ConverterKind, MarkItDown, Route};
use markitdown::error::MarkitdownError;
use markitdown::latex::latex_to_markdown;
use markitdown::model::{ContentBlock, Document, DocumentConverterResult, ExtractedImage, Page};
use markitdown::opml::OpmlConverter;
use markitdown::orgmode::org_to_markdown;
use markitdown::repetition::detect_and_truncate_repetition;
use markitdown::rss::{feed_is_safe, RssConverter};
use markitdown::rtf::{rtf_escapes_safe, RtfConverter};
use markitdown::table_merge::{detect_table_fragments, merge_tables_across_pages};
use markitdown::typst::typst_to_markdown;

fn chars(s: &str) -> Vec<char> {
    s.chars().collect()
}

fn text(v: &[char]) -> String {
    v.iter().collect()
}

#[test]
fn typst_heading_levels() {
    assert_eq!(text(&typst_to_markdown(&chars("== Sub"))), "## Sub\n\n");
    assert_eq!(text(&typst_to_markdown(&chars("= Top\n=== Deep"))), "# Top\n\n### Deep\n\n");
}

#[test]
fn opml_lists_every_sibling() {
    let content = "<opml><head><title>Feeds</title></head><body><outline text=\"A\"/><outline text=\"B\"/><outline text=\"C\"/></body></opml>";
    assert_eq!(OpmlConverter::opml_to_markdown(content).unwrap(), "# Feeds\n\n- A\n- B\n- C\n");
    let nested = "<opml><body><outline text=\"Top\"><outline text=\"In\"/></outline><outline text=\"Next\"/></body></opml>";
    assert_eq!(OpmlConverter::opml_to_markdown(nested).unwrap(), "- Top\n  - In\n- Next\n");
}

#[test]
fn latex_arguments_by_character() {
    assert_eq!(text(&latex_to_markdown(&chars("\\section{Über}"))), "## Über\n\n");
    assert_eq!(text(&latex_to_markdown(&chars("\\title{é}"))), "# é\n\n");
}

#[test]
fn org_links_are_left_whole() {
    assert_eq!(text(&org_to_markdown(&chars("[[https://x.org/a/][A]]"))), "[A](https://x.org/a/)\n");
    assert_eq!(text(&org_to_markdown(&chars("see [[https://x.org/b/]] and /it/"))), "see <https://x.org/b/> and *it*\n");
}

#[test]
fn header_flag_follows_header_row() {
    let f = detect_table_fragments("| --- |\n| a |\n| --- |\n");
    assert_eq!(f.len(), 1);
    assert!(f[0].headers.is_none());
    assert!(!f[0].has_header);
    assert_eq!(f[0].data_rows, vec![vec!["a".to_string()]]);
}

#[test]
fn table_spanning_three_pages_stays_on_first() {
    let pages = vec![
        (1, "| A | B |\n| --- | --- |\n| 1 | 2 |\n".to_string()),
        (2, "| 3 | 4 |\n".to_string()),
        (3, "| 5 | 6 |\nEnd\n".to_string()),
    ];
    let r = merge_tables_across_pages(&pages);
    assert_eq!(r.len(), 3);
    assert!(r[0].content.contains("| 3 | 4 |"));
    assert!(r[0].content.contains("| 5 | 6 |"));
    assert!(!r[2].content.contains("| 5 | 6 |"));
    assert!(r[2].content.contains("End"));
}

#[test]
fn repetition_from_the_first_line() {
    let text = "repeat me!\n".repeat(4) + &(1..=100).map(|n| format!("{:04} ", n)).collect::<String>();
    let out = detect_and_truncate_repetition(&text);
    assert!(out.ends_with("[Note: Repetitive content detected and truncated]"));
    assert!(out.matches("repeat me!").count() <= 1);
}

#[test]
fn zstd_and_archive_detection() {
    let packed = zstd::encode_all(&b"hello"[..], 0).unwrap();
    let doc = ZstdConverter.convert_bytes(&packed).expect("decompresses");
    match &doc.pages[0].content[0] {
        ContentBlock::Markdown(m) => assert_eq!(m, "```\nhello\n```"),
        _ => panic!("expected a code block"),
    }
    match ZstdConverter.convert_bytes(b"not zstd") {
        Err(MarkitdownError::ParseError(m)) => assert!(m.starts_with("Zstd")),
        _ => panic!("expected a parse error"),
    }
    match ArchiveConverter::new().convert_bytes(b"hello", None) {
        Err(MarkitdownError::UnsupportedFormat(m)) => assert_eq!(m, "Could not detect archive format"),
        _ => panic!("expected an unsupported format"),
    }
    assert!(ArchiveConverter::new().convert_bytes(&packed, None).is_ok());
}

#[test]
fn base64_of_image_data() {
    let img = ExtractedImage::new("i".to_string(), b"Man".to_vec(), "image/png".to_string());
    assert_eq!(img.to_base64(), "TWFu");
    let img = ExtractedImage::new("j".to_string(), b"Ma".to_vec(), "image/png".to_string());
    assert_eq!(img.to_base64(), "TWE=");
}

#[test]
fn file_types_from_bytes_and_paths() {
    let png = [0x89u8, 0x50, 0x4E, 0x47, 0x0D, 0x0A, 0x1A, 0x0A, 0, 0, 0, 0x0D, 0x49, 0x48, 0x44, 0x52];
    assert_eq!(detect_bytes(&png), Some(".png".to_string()));
    assert_eq!(detect_bytes(b"plain words"), None);
    let md = MarkItDown::new();
    assert_eq!(md.detect_file_type("report.PDF", None, false), Some(".pdf".to_string()));
    assert_eq!(md.detect_file_type("blob.unknownext", Some("png".to_string()), true), Some(".png".to_string()));
    assert_eq!(md.detect_file_type("notes.xyz", None, false), Some(".xyz".to_string()));
    assert_eq!(md.detect_file_type("noextension", None, false), None);
    assert_eq!(file_type_extension("image/jpeg"), Some(".jpg"));
    assert_eq!(file_type_extension("text/plain"), None);
}

#[test]
fn registry_routes_by_extension() {
    assert_eq!(converter_for(".docx"), Some(ConverterKind::Docx));
    assert_eq!(converter_for("PDF"), Some(ConverterKind::Pdf));
    assert_eq!(converter_for(".nope"), None);
    let mut md = MarkItDown::new();
    assert!(matches!(md.route(".zip"), Ok(Route::Zip)));
    assert!(matches!(md.route(".csv"), Ok(Route::Converter(ConverterKind::Csv))));
    match md.route(".nope") {
        Err(MarkitdownError::UnsupportedFormat(m)) => assert_eq!(m, "No converter found for extension: .nope"),
        _ => panic!("expected an unsupported format"),
    }
    md.register_converter(ConverterKind::Text);
    assert_eq!(md.find_converter(".md"), Some(ConverterKind::Text));
}

#[test]
fn images_get_their_descriptions() {
    let img = |id: &str, d: Option<&str>| {
        let mut x = ExtractedImage::new(id.to_string(), vec![1], "image/png".to_string());
        x.description = d.map(|s| s.to_string());
        ContentBlock::Image(x)
    };
    let mut page = Page::new(2);
    page.add_content(ContentBlock::Text("t".to_string()));
    page.add_content(img("a", None));
    page.add_content(img("b", Some("old")));
    page.add_content(img("c", None));
    assert_eq!(page.images_to_describe(), vec![1, 3]);
    let p = page.with_descriptions(&vec!["A".to_string()]);
    let descs: Vec<Option<String>> = p
        .content
        .iter()
        .filter_map(|b| match b {
            ContentBlock::Image(x) => Some(x.description.clone()),
            _ => None,
        })
        .collect();
    assert_eq!(descs, vec![Some("A".to_string()), Some("old".to_string()), None]);
    assert_eq!(p.page_number, 2);
}

#[test]
fn cleaned_word_text_is_a_fixed_point() {
    let once = markitdown::office_text::clean_extracted_text(&chars("  a \t b\n\n\n c  "));
    assert_eq!(text(&once), "a b\nc");
    let twice = markitdown::office_text::clean_extracted_text(&once);
    assert_eq!(twice, once);
}

#[test]
fn code_languages_ignore_case() {
    assert_eq!(CodeConverter::get_language(".HPP"), "cpp");
    assert_eq!(CodeConverter::get_language(".Rs"), CodeConverter::get_language(".rs"));
    assert_eq!(CodeConverter::get_language(".txt"), "");
}

#[test]
fn document_pages_get_their_descriptions() {
    let mut doc = markitdown::model::Document::new();
    for n in 1..=2u32 {
        let mut p = Page::new(n);
        p.add_content(ContentBlock::Image(ExtractedImage::new(format!("i{}", n), vec![0], "image/png".to_string())));
        doc.add_page(p);
    }
    let out = doc.with_descriptions(&vec![vec!["first".to_string()]]);
    let d = |k: usize| match &out.pages[k].content[0] {
        ContentBlock::Image(x) => x.description.clone(),
        _ => panic!("expected an image"),
    };
    assert_eq!(d(0), Some("first".to_string()));
    assert_eq!(d(1), None);
}

#[test]
fn rtf_surrogate_escape_is_refused_before_parsing() {
    match RtfConverter::extract_text(br"{\rtf1 \u-10240?}") {
        Err(MarkitdownError::ParseError(m)) => assert!(m.starts_with("RTF parser error: unsupported Unicode escape")),
        _ => panic!("unexpected result"),
    }
    match RtfConverter::extract_text(br"{\rtf1 \u55296 x}") {
        Err(MarkitdownError::ParseError(m)) => assert!(m.starts_with("RTF parser error: unsupported Unicode escape")),
        _ => panic!("unexpected result"),
    }
    assert!(!rtf_escapes_safe(&chars(r"{\rtf1 \uc-1 x}")));
    assert!(rtf_escapes_safe(&chars(r"{\rtf1 \u233? caf\'e9}")));
    let t = RtfConverter::extract_text(br"{\rtf1 plain words}").expect("parses");
    assert_eq!(t, "plain words");
}

#[test]
fn feed_inputs_that_the_parser_cannot_take_are_refused() {
    let long = b"<rss version=\"2.0\"><channel><title>T</title><item><title>123456789012345678901234567890</title></item></channel></rss>";
    assert!(!feed_is_safe(long));
    match RssConverter.bytes_to_document(long) {
        Err(MarkitdownError::ParseError(m)) => assert!(m.starts_with("Failed to parse feed: the feed holds")),
        _ => panic!("unexpected result"),
    }
    assert!(!feed_is_safe(b"<rss><channel><title>&#65;</title></channel></rss>"));
    assert!(!feed_is_safe("<rss><channel><author>\u{e9}a@b.c</author></channel></rss>".as_bytes()));
    assert!(!feed_is_safe("<rss xmlns:media=\"http://search.yahoo.com/mrss/\"><channel><title>caf\u{e9}</title></channel></rss>".as_bytes()));
    assert!(feed_is_safe("<rss><channel><title>caf\u{e9} 2024</title></channel></rss>".as_bytes()));
}

#[test]
fn scanned_word_text_is_clean() {
    let mut data = vec![0u8; 8];
    for c in "Plain   words\r\n\r\n\r\nfrom a scanned   stream of text".bytes() {
        data.push(c);
        data.push(0);
    }
    data.extend_from_slice(&[0u8; 8]);
    assert!(data.len() >= 68);
    let t = markitdown::legacy_office::DocConverter::extract_text_from_word_document(&data).expect("text");
    assert!(t.iter().collect::<String>().len() > 10);
    assert_eq!(markitdown::office_text::clean_extracted_text(&t), t);
    assert!(markitdown::legacy_office::DocConverter::extract_text_from_word_document(&[b'a'; 60]).is_none());
}

#[test]
fn converter_result_holds_title_and_markdown() {
    let mut doc = Document::new();
    doc.title = Some("Title".to_string());
    let mut page = Page::new(1);
    page.add_content(ContentBlock::Text("hello".to_string()));
    doc.add_page(page);
    let md = doc.to_markdown();
    let r = DocumentConverterResult::from(doc);
    assert_eq!(r.title.as_deref(), Some("Title"));
    assert_eq!(r.text_content, md);
}

#[test]
fn break_point_stays_in_its_window() {
    let r = markitdown::pdf_text::find_text_break_point("One two. Three four five", 8);
    assert_eq!(r, 9);
    let r = markitdown::pdf_text::find_text_break_point("Hello world. This is text.", 10);
    assert!(8 <= r && r <= 12);
    assert_eq!(markitdown::pdf_text::find_text_break_point("short", 10), 5);
}
