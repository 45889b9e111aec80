use markitdown::table_merge::{
    can_merge_tables, detect_table_fragments, merge_table_fragments, merge_tables_across_pages,
    TableFragment,
};

#[test]
fn test_detect_simple_table() {
    let content = r#"
Some text before

| Header 1 | Header 2 |
| --- | --- |
| Cell 1 | Cell 2 |
| Cell 3 | Cell 4 |

Some text after
"#;

    let fragments = detect_table_fragments(content);
    assert_eq!(fragments.len(), 1);
    assert!(fragments[0].has_header);
    assert!(fragments[0].is_complete);
    assert_eq!(fragments[0].column_count, 2);
    assert_eq!(
        fragments[0].headers,
        Some(vec!["Header 1".to_string(), "Header 2".to_string()])
    );
    assert_eq!(fragments[0].data_rows.len(), 2);
}

#[test]
fn test_detect_table_without_header() {
    let content = r#"| Cell 1 | Cell 2 |
| Cell 3 | Cell 4 |
"#;

    let fragments = detect_table_fragments(content);
    assert_eq!(fragments.len(), 1);
    assert!(!fragments[0].has_header);
    assert!(!fragments[0].is_complete);
    assert!(fragments[0].at_content_start);
}

#[test]
fn test_can_merge_continuation() {
    let first = TableFragment {
        content: "| A | B |\n| --- | --- |\n| 1 | 2 |".to_string(),
        start_pos: 0,
        end_pos: 0,
        has_header: true,
        is_complete: true,
        at_content_start: false,
        at_content_end: true,
        column_count: 2,
        headers: Some(vec!["A".to_string(), "B".to_string()]),
        data_rows: vec![vec!["1".to_string(), "2".to_string()]],
    };

    let second = TableFragment {
        content: "| 3 | 4 |\n| 5 | 6 |".to_string(),
        start_pos: 0,
        end_pos: 0,
        has_header: false,
        is_complete: false,
        at_content_start: true,
        at_content_end: false,
        column_count: 2,
        headers: None,
        data_rows: vec![
            vec!["3".to_string(), "4".to_string()],
            vec!["5".to_string(), "6".to_string()],
        ],
    };

    assert!(can_merge_tables(&first, &second));
}

#[test]
fn test_merge_tables() {
    let first = TableFragment {
        content: String::new(),
        start_pos: 0,
        end_pos: 0,
        has_header: true,
        is_complete: true,
        at_content_start: false,
        at_content_end: true,
        column_count: 2,
        headers: Some(vec!["Name".to_string(), "Value".to_string()]),
        data_rows: vec![vec!["Row1".to_string(), "100".to_string()]],
    };

    let second = TableFragment {
        content: String::new(),
        start_pos: 0,
        end_pos: 0,
        has_header: false,
        is_complete: false,
        at_content_start: true,
        at_content_end: true,
        column_count: 2,
        headers: None,
        data_rows: vec![
            vec!["Row2".to_string(), "200".to_string()],
            vec!["Row3".to_string(), "300".to_string()],
        ],
    };

    let merged = merge_table_fragments(&first, &second);
    assert_eq!(merged.data_rows.len(), 3);
    assert!(merged.has_header);
    assert!(merged.content.contains("| Name | Value |"));
    assert!(merged.content.contains("| Row1 | 100 |"));
    assert!(merged.content.contains("| Row2 | 200 |"));
    assert!(merged.content.contains("| Row3 | 300 |"));
}

#[test]
fn detect_reports_byte_offsets_and_boundaries() {
    let content = "intro é\n\n| a | b |\n|---|---|\n| 1 | 2 |\n";
    let fragments = detect_table_fragments(content);
    assert_eq!(fragments.len(), 1);
    let f = &fragments[0];
    assert_eq!(f.start_pos, "intro é\n\n".len());
    assert_eq!(f.end_pos, content.len());
    assert_eq!(&content[f.start_pos..f.end_pos], "| a | b |\n|---|---|\n| 1 | 2 |\n");
    assert_eq!(f.content, "| a | b |\n|---|---|\n| 1 | 2 |");
    assert!(!f.at_content_start);
    assert!(f.at_content_end);
    assert_eq!(f.headers, Some(vec!["a".to_string(), "b".to_string()]));
    assert_eq!(f.data_rows, vec![vec!["1".to_string(), "2".to_string()]]);
}

#[test]
fn merge_pages_moves_continuation_to_first_page() {
    let pages = vec![
        (1u32, "Text\n\n| Name | Value |\n| --- | --- |\n| a | 1 |\n".to_string()),
        (2u32, "| b | 2 |\n| c | 3 |\n\nAfter\n".to_string()),
    ];
    let merged = merge_tables_across_pages(&pages);
    assert_eq!(merged.len(), 2);
    assert_eq!(
        merged[0].content,
        "Text\n\n| Name | Value |\n| --- | --- |\n| a | 1 |\n| b | 2 |\n| c | 3 |\n"
    );
    assert!(merged[0].merged_from_next);
    assert!(!merged[0].merged_into_previous);
    assert_eq!(merged[1].content, "\nAfter\n");
    assert!(merged[1].merged_into_previous);
    assert_eq!(merged[1].page_number, 2);
}

#[test]
fn merge_pages_keeps_unrelated_tables() {
    let pages = vec![
        (1u32, "| A | B |\n| --- | --- |\n| 1 | 2 |\n\nEnd of page\n".to_string()),
        (2u32, "| C | D |\n| --- | --- |\n| 3 | 4 |\n".to_string()),
    ];
    let merged = merge_tables_across_pages(&pages);
    assert_eq!(merged[0].content, pages[0].1);
    assert_eq!(merged[1].content, pages[1].1);
    assert!(!merged[0].merged_from_next);
    assert!(merge_tables_across_pages(&[]).is_empty());
}

#[test]
fn merge_carries_across_emptied_pages() {
    let pages = vec![
        (1u32, "| H |\n| --- |\n| 1 |\n".to_string()),
        (2u32, "| 2 |\n".to_string()),
        (3u32, "| 3 |\n".to_string()),
    ];
    let merged = merge_tables_across_pages(&pages);
    assert_eq!(merged[0].content, "| H |\n| --- |\n| 1 |\n| 2 |\n| 3 |\n");
    assert_eq!(merged[1].content, "");
    assert!(merged[1].merged_into_previous);
    assert_eq!(merged[2].content, "");
    assert!(merged[2].merged_into_previous);
}

#[test]
fn tables_come_in_order_without_overlap() {
    let content = "| A |\n| --- |\n| 1 |\n\ntext\n\n| B |\n| --- |\n| 2 |\n";
    let fragments = detect_table_fragments(content);
    assert_eq!(fragments.len(), 2);
    assert!(fragments[0].start_pos < fragments[0].end_pos);
    assert!(fragments[0].end_pos <= fragments[1].start_pos);
}

#[test]
fn merging_keeps_page_numbers() {
    let pages = vec![
        (4u32, "| H |\n| --- |\n| 1 |\n".to_string()),
        (5u32, "| 2 |\n".to_string()),
        (9u32, "plain\n".to_string()),
    ];
    let merged = merge_tables_across_pages(&pages);
    let numbers: Vec<u32> = merged.iter().map(|p| p.page_number).collect();
    assert_eq!(numbers, vec![4, 5, 9]);
}
