use markitdown::bibtex::{BibEntry, BibtexConverter};
use markitdown::csv_table::CsvConverter;
use markitdown::data::{CodeConverter, JsonConverter, TextConverter, TomlConverter, YamlConverter};
use markitdown::error::MarkitdownError;
use markitdown::log_file::LogConverter;
use markitdown::markdown_file::MarkdownConverter;
use markitdown::model::{ContentBlock, ConversionOptions, Document};

fn md_of(doc: &Document) -> String {
    assert_eq!(doc.pages.len(), 1);
    match &doc.pages[0].content[0] {
        ContentBlock::Markdown(m) => m.clone(),
        _ => panic!("expected a Markdown block"),
    }
}

fn cs(s: &str) -> Vec<char> {
    s.chars().collect()
}

#[test]
fn json_pretty_printed_in_block() {
    let doc = JsonConverter::convert_json(br#"{"a":1}"#).expect("valid json");
    assert_eq!(md_of(&doc), "```json\n{\n  \"a\": 1\n}\n```");
}

#[test]
fn json_parse_error() {
    match JsonConverter::convert_json(b"{not json") {
        Err(MarkitdownError::ParseError(m)) => assert!(m.starts_with("JSON parse error: ")),
        _ => panic!("expected a parse error"),
    }
}

#[test]
fn yaml_and_toml_blocks() {
    let y = YamlConverter::convert_yaml(b"a: 1\n").expect("valid yaml");
    assert_eq!(md_of(&y), "```yaml\na: 1\n```");
    let t = TomlConverter::convert_toml(b"a = 1\n").expect("valid toml");
    assert_eq!(md_of(&t), "```toml\na = 1\n```");
    match TomlConverter::convert_toml(b"a = = 1") {
        Err(MarkitdownError::ParseError(m)) => assert!(m.starts_with("TOML parse error: ")),
        _ => panic!("expected a parse error"),
    }
}

#[test]
fn code_language_and_block() {
    assert_eq!(CodeConverter::get_language(".RS"), "rust");
    assert_eq!(CodeConverter::get_language(".py"), "python");
    assert_eq!(CodeConverter::get_language(".unknown"), "");
    let doc = CodeConverter::convert_code(b"fn main() {}", ".rs");
    assert_eq!(md_of(&doc), "```rust\nfn main() {}\n```");
}

#[test]
fn text_passes_through() {
    let doc = TextConverter::convert_text(b"plain text", false);
    match &doc.pages[0].content[0] {
        ContentBlock::Text(t) => assert_eq!(t, "plain text"),
        _ => panic!("expected a text block"),
    }
    let md = TextConverter::convert_text(b"# md", true);
    assert_eq!(md_of(&md), "# md");
}

#[test]
fn csv_table_block() {
    let doc = CsvConverter.convert_csv_bytes(b"name,age\nAnn,30\nBob,41\n").expect("valid csv");
    assert_eq!(doc.pages.len(), 1);
    match &doc.pages[0].content[0] {
        ContentBlock::Table { headers, rows } => {
            assert_eq!(headers, &vec!["name".to_string(), "age".to_string()]);
            assert_eq!(rows, &vec![vec!["Ann".to_string(), "30".to_string()], vec!["Bob".to_string(), "41".to_string()]]);
        },
        _ => panic!("expected a table"),
    }
}

#[test]
fn csv_rejects_other_extension() {
    let opts = ConversionOptions::new().with_extension(".tsv");
    match CsvConverter.convert_bytes(b"a,b\n", Some(&opts)) {
        Err(MarkitdownError::InvalidFile(m)) => assert_eq!(m, "Expected .csv file, got .tsv"),
        _ => panic!("expected an invalid file error"),
    }
}

#[test]
fn csv_ragged_row_is_error() {
    match CsvConverter.convert_csv_bytes(b"a,b\n1,2,3\n") {
        Err(MarkitdownError::ParseError(m)) => assert!(m.starts_with("Failed to parse CSV row: ")),
        _ => panic!("expected a parse error"),
    }
}

#[test]
fn markdown_line_endings_normalized() {
    let doc = MarkdownConverter::convert_markdown(b"  # T\r\nline\rend  \n");
    assert_eq!(md_of(&doc), "# T\nline\nend");
    let opts = ConversionOptions::new().with_extension(".txt");
    match MarkdownConverter.convert_bytes(b"x", Some(&opts)) {
        Err(MarkitdownError::InvalidFile(m)) => assert_eq!(m, "Expected Markdown file, got .txt"),
        _ => panic!("expected an invalid file error"),
    }
}

#[test]
fn log_counts_and_listing() {
    let a = LogConverter::analyze_log(&cs("INFO start\nERROR disk failed\nwarning: low\nplain\n"));
    assert_eq!(a.total_lines, 4);
    assert_eq!(a.error_count, 1);
    assert_eq!(a.warning_count, 1);
    assert_eq!(a.info_count, 1);
    assert_eq!(a.errors.len(), 1);
    assert_eq!(a.errors[0].0, 2);
    let doc = LogConverter.convert_bytes(b"ERROR x\n");
    let md = md_of(&doc);
    assert!(md.starts_with("# Log File Analysis\n\n## Summary\n\n- **Total lines:** 1\n- **Errors:** 1 "));
    assert!(md.contains("**Line 1:**\n```\nERROR x\n```\n\n"));
    assert!(md.ends_with("## Full Log\n\n```log\nERROR x\n```\n"));
}

#[test]
fn log_lists_at_most_fifty_errors() {
    let mut s = String::new();
    for _ in 0..60 {
        s.push_str("error here\n");
    }
    let a = LogConverter::analyze_log(&cs(&s));
    assert_eq!(a.error_count, 60);
    assert_eq!(a.errors.len(), 50);
}

#[test]
fn bibtex_entry_formatting() {
    let entries = BibtexConverter::parse_bibtex(&cs("@article{key1,\n  title = {A {Study}},\n  author = {Doe, J.},\n  year = {2020}\n}\n"));
    assert_eq!(entries.len(), 1);
    assert_eq!(entries[0].entry_type, "article");
    assert_eq!(entries[0].cite_key, "key1");
    let md: String = BibtexConverter::format_entry(&entries[0]).iter().collect();
    assert_eq!(md, "## \u{1F4C4} Article `key1`\n\n**A Study**\n\n*Doe, J.*\n\n- **Year:** 2020\n\n---\n\n");
}

#[test]
fn bibtex_entry_built_by_hand() {
    let e = BibEntry {
        entry_type: "misc".to_string(),
        cite_key: "k".to_string(),
        fields: vec![("url".to_string(), "http://x".to_string())],
    };
    let md: String = BibtexConverter::format_entry(&e).iter().collect();
    assert_eq!(md, "## \u{1F517} Misc `k`\n\n- **URL:** <http://x>\n\n---\n\n");
}

#[test]
fn bibtex_document_counts_entries() {
    let doc = BibtexConverter.convert_bytes(b"@book{b, title={T}}\n@misc{m, note={n}}\n");
    assert!(md_of(&doc).starts_with("# Bibliography\n\n*2 entries*\n\n"));
}
