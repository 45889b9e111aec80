use markitdown::calendar::ICalendarConverter;
use markitdown::error::MarkitdownError;
use markitdown::llm::{
    normalize_batch_descriptions, parse_batch_response, parse_batch_response_with_headers,
    parse_batch_response_with_separators,
};
use markitdown::model::{ContentBlock, ConversionOptions, Document};
use markitdown::vcard::VCardConverter;

fn the_markdown(doc: &Document) -> String {
    match &doc.pages[0].content[0] {
        ContentBlock::Markdown(m) => m.clone(),
        _ => panic!("expected Markdown"),
    }
}

const ICS: &[u8] = b"BEGIN:VCALENDAR\r\nVERSION:2.0\r\nPRODID:x\r\nX-WR-CALNAME:Team\r\nBEGIN:VEVENT\r\nUID:1\r\nSUMMARY:Meeting\r\nLOCATION:Room 1\r\nEND:VEVENT\r\nBEGIN:VTODO\r\nUID:2\r\nSUMMARY:Write report\r\nEND:VTODO\r\nEND:VCALENDAR\r\n";

#[test]
fn calendar_events_tasks_and_counts() {
    let doc = ICalendarConverter::convert_ics(ICS).expect("parses");
    assert_eq!(
        the_markdown(&doc),
        "# Team\n\n## \u{1F4C5} Event\n\n**Meeting**\n\n- **Location:** Room 1\n\n## \u{2611}\u{FE0F} Task\n\n**Write report**\n\n\n\n---\n*1 event(s), 1 task(s)*\n"
    );
}

#[test]
fn calendar_without_items_and_extension() {
    let doc = ICalendarConverter::convert_ics(b"BEGIN:VCALENDAR\r\nVERSION:2.0\r\nEND:VCALENDAR\r\n").expect("parses");
    assert_eq!(the_markdown(&doc), "# Calendar\n\n*No events or tasks found in calendar.*\n");
    let bad = ConversionOptions::new().with_extension(".txt");
    match ICalendarConverter.convert_bytes(ICS, Some(&bad)) {
        Err(MarkitdownError::InvalidFile(m)) => assert_eq!(m, "Expected .ics file, got .txt"),
        _ => panic!("expected an invalid file error"),
    }
}

#[test]
fn vcard_contact_lines() {
    let doc = VCardConverter::convert_vcf(b"BEGIN:VCARD\nVERSION:4.0\nFN:John Doe\nEMAIL:j@x.org\nTEL:123\nEND:VCARD\n").expect("parses");
    let md = the_markdown(&doc);
    assert!(md.starts_with("# Contacts\n\n## \u{1F464} Contact\n\n"));
    assert!(md.contains("- **Email:** j@x.org\n"));
    assert!(md.contains("- **Phone:** 123\n"));
    assert!(md.ends_with("---\n*1 contact(s)*\n"));
    let bad = ConversionOptions::new().with_extension(".txt");
    match VCardConverter.convert_bytes(b"", Some(&bad)) {
        Err(MarkitdownError::InvalidFile(m)) => assert_eq!(m, "Expected .vcf file, got .txt"),
        _ => panic!("expected an invalid file error"),
    }
}

#[test]
fn batch_by_headers() {
    let r = "## Image 1\nA cat\n## Image 2\nA dog";
    assert_eq!(parse_batch_response(r, 2), vec!["A cat".to_string(), "A dog".to_string()]);
    assert_eq!(parse_batch_response_with_headers(r, 2), Some(vec!["A cat".to_string(), "A dog".to_string()]));
    assert_eq!(parse_batch_response(r, 3), vec![r.to_string(), r.to_string(), r.to_string()]);
}

#[test]
fn batch_by_separators_and_fallback() {
    let r = "First\n---\nImage 2 header\n---\nSecond";
    assert_eq!(parse_batch_response_with_separators(r, 2), Some(vec!["First".to_string(), "Second".to_string()]));
    assert_eq!(parse_batch_response(r, 1), vec!["First".to_string()]);
    assert_eq!(parse_batch_response("just text", 2), vec!["just text".to_string(), "just text".to_string()]);
    assert_eq!(parse_batch_response_with_headers("no headers", 1), None);
    assert_eq!(
        normalize_batch_descriptions(vec!["a".to_string(), "b".to_string(), "c".to_string()], "r", 2),
        vec!["a".to_string(), "b".to_string()]
    );
}

#[test]
fn repetition_short_text_is_kept() {
    assert_eq!(markitdown::repetition::detect_and_truncate_repetition("short"), "short");
}

#[test]
fn repetition_sample_cut() {
    let text = "The quick brown fox jumps over the lazy dog. ".repeat(20);
    let out = markitdown::repetition::detect_and_truncate_repetition(&text);
    assert_eq!(out, format!("{}\n\n[Note: Repetitive content detected and truncated]", &text[..60]));
}

#[test]
fn repetition_long_output_shortened() {
    let words: Vec<String> = (0..6000).map(|i| format!("w{}", i)).collect();
    let text = words.join(" ");
    let out = markitdown::repetition::detect_and_truncate_repetition(&text);
    let expected = format!(
        "{}\n\n[Note: Output truncated due to excessive length - possible repetition]",
        words[..3000].join(" ")
    );
    assert_eq!(out, expected);
}
