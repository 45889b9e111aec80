use markitdown::email::EmailConverter;
use markitdown::error::MarkitdownError;
use markitdown::jupyter::{Cell, CellSource, JupyterConverter, Notebook, Output, OutputData};
use markitdown::model::{ContentBlock, ConversionOptions, Document, DocumentConverter};
use markitdown::pdf_text::find_text_break_point;
use markitdown::pptx::PptxConverter;
use markitdown::sqlite::{ColumnInfo, SqliteConverter, TableInfo};

fn block(doc: &Document) -> String {
    assert_eq!(doc.pages.len(), 1);
    match &doc.pages[0].content[0] {
        ContentBlock::Markdown(m) => m.clone(),
        _ => panic!("expected a Markdown block"),
    }
}

const MAIL: &[u8] = b"From: Ann <ann@example.com>\r\nTo: bob@example.com\r\nSubject: Hi\r\nDate: Mon, 1 Jan 2024 10:00:00 +0000\r\nContent-Type: text/plain\r\n\r\nHello Bob\r\n";

#[test]
fn email_headers_and_body() {
    let doc = EmailConverter::convert_email(MAIL).expect("parses");
    assert_eq!(
        block(&doc),
        "# Email\n\n**From:** Ann <ann@example.com>\n\n**To:** bob@example.com\n\n**Subject:** Hi\n\n**Date:** 2024-01-01T10:00:00Z\n\n---\n\nHello Bob"
    );
}

#[test]
fn email_extension_check() {
    let opts = ConversionOptions::new().with_extension(".EML");
    assert!(EmailConverter.convert_bytes(MAIL, Some(&opts)).is_ok());
    let bad = ConversionOptions::new().with_extension(".txt");
    match EmailConverter.convert_bytes(MAIL, Some(&bad)) {
        Err(MarkitdownError::InvalidFile(m)) => assert_eq!(m, "Expected .eml or .msg file, got .txt"),
        _ => panic!("expected an invalid file error"),
    }
    assert!(EmailConverter.can_handle("msg"));
}

#[test]
fn email_html_only_body_is_converted() {
    let mail = b"From: a@b.c\r\nSubject: H\r\nContent-Type: text/html\r\n\r\n<p>Some <b>bold</b></p>\r\n";
    let doc = EmailConverter::convert_email(mail).expect("parses");
    let md = block(&doc);
    assert!(md.starts_with("# Email\n\n**From:** a@b.c\n\n**Subject:** H\n\n---\n\n"));
    assert!(md.contains("bold"));
    assert!(!md.contains("<p>"));
}

fn column(name: &str, ty: &str, notnull: i32, pk: i32) -> ColumnInfo {
    ColumnInfo { name: name.to_string(), col_type: ty.to_string(), notnull, pk }
}

#[test]
fn sqlite_schema_count_and_sample() {
    let t = TableInfo {
        name: "t".to_string(),
        columns: vec![column("id", "INTEGER", 1, 1), column("name", "TEXT", 0, 0)],
        row_count: 2,
        sample_rows: Some(vec![
            vec!["1".to_string(), "a|b".to_string()],
            vec!["2".to_string(), "NULL".to_string()],
        ]),
    };
    let doc = SqliteConverter::tables_to_document(&vec![t]);
    assert_eq!(
        block(&doc),
        "# SQLite Database\n\n**Tables:** 1\n\n## Table: `t`\n\n### Schema\n\n| Column | Type | Nullable | Primary Key |\n|--------|------|----------|-------------|\n| id | INTEGER | No | Yes |\n| name | TEXT | Yes | No |\n\n**Row count:** 2\n\n### Sample Data (first 5 rows)\n\n| id | name |\n|---|---|\n| 1 | a\\|b |\n| 2 | NULL |\n\n"
    );
}

#[test]
fn sqlite_empty_database_and_extensions() {
    let doc = SqliteConverter::tables_to_document(&Vec::new());
    assert_eq!(block(&doc), "# SQLite Database\n\n*No tables found in database.*\n");
    let ok = ConversionOptions::new().with_extension(".sqlite3");
    assert!(SqliteConverter::check_extension(Some(&ok)).is_ok());
    let bad = ConversionOptions::new().with_extension(".DB");
    match SqliteConverter::check_extension(Some(&bad)) {
        Err(MarkitdownError::InvalidFile(m)) => assert_eq!(m, "Expected SQLite file (.db, .sqlite, .sqlite3), got .DB"),
        _ => panic!("expected an invalid file error"),
    }
}

#[test]
fn jupyter_cells_and_outputs() {
    let nb = Notebook {
        cells: vec![
            Cell { cell_type: "markdown".to_string(), source: CellSource::Text("# Hi".to_string()), outputs: None },
            Cell {
                cell_type: "code".to_string(),
                source: CellSource::Lines(vec!["x = 1\n".to_string(), "x".to_string()]),
                outputs: Some(vec![Output {
                    output_type: "execute_result".to_string(),
                    text: None,
                    data: Some(OutputData { text_plain: Some(CellSource::Text("1".to_string())), text_html: None }),
                }]),
            },
            Cell { cell_type: "raw".to_string(), source: CellSource::Text("raw".to_string()), outputs: None },
        ],
        metadata: None,
    };
    let doc = JupyterConverter::convert_notebook(&nb);
    assert_eq!(
        block(&doc),
        "# Hi\n\n**In [2]:**\n\n```python\nx = 1\nx\n```\n\n**Out:**\n\n```\n1\n```\n\n```\nraw\n```\n\n"
    );
}

#[test]
fn jupyter_error_output_and_source_join() {
    let o = Output { output_type: "error".to_string(), text: None, data: None };
    assert_eq!(JupyterConverter::extract_output(&o), "[Error output]");
    let s = CellSource::Lines(vec!["a".to_string(), "b\n".to_string(), "c".to_string()]);
    assert_eq!(s.to_string(), "ab\nc");
}

#[test]
fn pptx_table_and_mime() {
    let mut md = String::from("x\n");
    PptxConverter::append_table_markdown(&mut md, &["A".to_string(), "B".to_string()], &[vec!["1".to_string(), "2".to_string()]]);
    assert_eq!(md, "x\n| A | B |\n|---|---|\n| 1 | 2 |\n\n");
    assert_eq!(PptxConverter::detect_mime_type(&[0x89, 0x50, 0x4E, 0x47, 0x0D, 0x0A, 0x1A, 0x0A, 0]), "image/png");
    assert_eq!(PptxConverter::detect_mime_type(b"RIFF\0\0\0\0WEBPxx"), "image/webp");
    assert_eq!(PptxConverter::detect_mime_type(b"GIF8"), "application/octet-stream");
}

#[test]
fn break_points() {
    assert_eq!(find_text_break_point("abc", 10), 3);
    assert_eq!(find_text_break_point("Hello world.\n\nNext part here", 13), 14);
    assert_eq!(find_text_break_point("aaaaaaaaaa bbbbbbbbbb", 10), 11);
    assert_eq!(find_text_break_point("aaaaaaaaaa bbbbbbbbbb", 8), 8);
    assert_eq!(find_text_break_point("Wait. Then go on and on", 6), 6);
}
