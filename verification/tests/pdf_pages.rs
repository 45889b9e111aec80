use markitdown::error::MarkitdownError;
use markitdown::model::{ContentBlock, ConversionOptions, Document};
use markitdown::pdf::{PageMetrics, PdfConverter};

const GOOD: &str = "The quick brown fox jumps over the lazy dog near the river bank today.";

fn texts(doc: &Document) -> Vec<(u32, String)> {
    doc.pages
        .iter()
        .map(|p| match &p.content[0] {
            ContentBlock::Text(t) => (p.page_number, t.clone()),
            ContentBlock::Markdown(m) => (p.page_number, format!("md:{}", m)),
            _ => panic!("unexpected block"),
        })
        .collect()
}

#[test]
fn metrics_of_short_text() {
    let m = PageMetrics::from_text_with_xobjects("  Hello world, this is fine!  ", 0);
    assert_eq!(m.text, "Hello world, this is fine!");
    assert_eq!(m.char_count, 26);
    assert_eq!(m.word_count, 5);
    assert_eq!(m.alnum_count, 20);
    assert_eq!(m.valid_word_count, 5);
    assert_eq!(m.word_bytes, 22);
    assert_eq!(m.special_count, 0);
    assert!(!m.is_structured);
    assert!(m.should_use_llm());
    assert!(!m.is_high_quality());
}

#[test]
fn metrics_of_good_and_garbage_text() {
    let m = PageMetrics::from_text_with_xobjects(GOOD, 0);
    assert_eq!(m.word_count, 14);
    assert_eq!(m.char_count, 70);
    assert_eq!(m.alnum_count, 56);
    assert_eq!(m.valid_word_count, 14);
    assert_eq!(m.word_bytes, 57);
    assert!(m.is_high_quality());
    assert!(!m.should_use_llm());
    let g = PageMetrics::from_text_with_xobjects("@@@@ #### $$$$ %%%% ^^^^ &&&& **** ~~~~ ```` |||| <<<< >>>>", 0);
    assert_eq!(g.word_count, 12);
    assert_eq!(g.special_count, 48);
    assert!(g.should_use_llm());
}

#[test]
fn pages_with_images_and_under_350_words_go_to_the_model() {
    assert!(PageMetrics::from_text_with_xobjects(GOOD, 2).should_use_llm());
    assert!(!PageMetrics::from_text_with_xobjects(GOOD, 1).should_use_llm());
    let words = "word ".repeat(200);
    assert!(PageMetrics::from_text_with_xobjects(&words, 2).should_use_llm());
    let many = "word ".repeat(400);
    let m = PageMetrics::from_text_with_xobjects(&many, 2);
    assert!(m.is_high_quality());
    assert!(!m.should_use_llm());
}

#[test]
fn text_is_aligned_to_pages() {
    let v = |xs: &[&str]| xs.iter().map(|s| s.to_string()).collect::<Vec<String>>();
    assert_eq!(PdfConverter::extract_text_aligned_to_pages(v(&["a", "b"]), 2), v(&["a", "b"]));
    assert_eq!(PdfConverter::extract_text_aligned_to_pages(v(&[]), 3), v(&["", "", ""]));
    assert_eq!(PdfConverter::extract_text_aligned_to_pages(v(&["short"]), 3), v(&["short", "", ""]));
    let a = "A".repeat(60);
    let b = "B".repeat(60);
    let c = "C".repeat(60);
    let out = PdfConverter::extract_text_aligned_to_pages(vec![a.clone(), b, c.clone()], 2);
    assert_eq!(out, vec![format!("{}\n\n{}", a, "B".repeat(30)), format!("{}\n\n{}", "B".repeat(30), c)]);
}

#[test]
fn basic_conversion_pages() {
    let doc = PdfConverter.convert_basic(2, Ok("Page one\x0cPage two".to_string())).expect("converts");
    assert_eq!(texts(&doc), vec![(1, "Page one".to_string()), (2, "Page two".to_string())]);
    let doc = PdfConverter.convert_basic(3, Err("bad".to_string())).expect("converts");
    assert_eq!(doc.pages.len(), 3);
    assert_eq!(texts(&doc)[2], (3, "[Page content could not be extracted]".to_string()));
    let doc = PdfConverter.convert_basic(0, Ok("  \x0c ".to_string())).expect("converts");
    assert_eq!(texts(&doc), vec![(1, "[PDF content could not be extracted]".to_string())]);
    let doc = PdfConverter.convert_basic(2, Ok("x\x0c\x0c".to_string())).expect("converts");
    assert_eq!(texts(&doc), vec![(1, "x".to_string())]);
}

#[test]
fn basic_conversion_errors() {
    match PdfConverter.convert_basic(0, Err("bad".to_string())) {
        Err(MarkitdownError::ParseError(m)) => assert_eq!(m, "Failed to extract text from PDF: bad"),
        _ => panic!("expected a parse error"),
    }
    let bad = ConversionOptions::new().with_extension(".txt");
    match PdfConverter.convert_bytes(1, Ok("x".to_string()), Some(&bad)) {
        Err(MarkitdownError::InvalidFile(m)) => assert_eq!(m, "Expected .pdf file, got .txt"),
        _ => panic!("expected an invalid file error"),
    }
}

#[test]
fn model_reads_the_poor_pages() {
    let text = format!("garbage @@@\x0c{}", GOOD);
    let (metrics, chosen) = PdfConverter::analyze_pages(2, Ok(text.clone()), &vec![], false, true, true);
    assert_eq!(metrics.len(), 2);
    assert_eq!(chosen, vec![0]);
    let doc = PdfConverter::assemble_llm_document(&metrics, &vec![Some("# Read".to_string()), None], true);
    assert_eq!(texts(&doc), vec![(1, "md:# Read".to_string()), (2, GOOD.to_string())]);
    let (metrics, chosen) = PdfConverter::analyze_pages(2, Ok(text), &vec![], false, false, true);
    assert!(chosen.is_empty());
    let doc = PdfConverter::assemble_llm_document(&metrics, &vec![], false);
    assert_eq!(
        texts(&doc)[0],
        (1, "[Note: Text extraction quality may be poor]\n\ngarbage @@@".to_string())
    );
    let (_, forced) = PdfConverter::analyze_pages(2, Ok(GOOD.to_string()), &vec![], true, true, true);
    assert_eq!(forced, vec![0, 1]);
}

#[test]
fn empty_documents_fall_back() {
    let mut doc = Document::new();
    assert!(PdfConverter::needs_full_retry(&doc, 2, true, true));
    assert!(!PdfConverter::needs_full_retry(&doc, 2, false, true));
    PdfConverter::try_llm_fallback_for_all_pages(&mut doc, 2, &vec![None, Some("text".to_string())]);
    assert_eq!(texts(&doc), vec![(2, "md:text".to_string())]);
    let mut empty = Document::new();
    PdfConverter::add_fallback_page(&mut empty);
    assert_eq!(
        texts(&empty),
        vec![(1, "[PDF content could not be extracted. The document may be scanned, protected, or use unsupported encoding.]".to_string())]
    );
}
