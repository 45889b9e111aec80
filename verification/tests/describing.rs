use markitdown::email::{EmailConverter, MailAddress, MailAttachment};
use markitdown::llm::{add_reply, image_context, next_step, DescribeStep};
use markitdown::model::ExtractedImage;

#[test]
fn groups_of_three_then_the_rest() {
    let mut done = 0;
    let mut sizes = Vec::new();
    loop {
        match next_step(7, 3, done) {
            DescribeStep::Finished => break,
            DescribeStep::Single(i) => {
                assert_eq!(i, done);
                sizes.push(1);
                done += 1;
            },
            DescribeStep::Batch { start, count } => {
                assert_eq!(start, done);
                sizes.push(count);
                done += count;
            },
        }
    }
    assert_eq!(sizes, vec![3, 3, 1]);
    assert!(matches!(next_step(4, 1, 2), DescribeStep::Single(2)));
}

#[test]
fn replies_become_descriptions() {
    let mut d: Vec<String> = Vec::new();
    add_reply(&mut d, &DescribeStep::Single(0), "A cat");
    add_reply(&mut d, &DescribeStep::Batch { start: 1, count: 2 }, "## Image 1\nA dog\n## Image 2\nA bird");
    assert_eq!(d, vec!["A cat".to_string(), "A dog".to_string(), "A bird".to_string()]);
}

#[test]
fn image_context_lists_what_is_known() {
    let mut img = ExtractedImage::new("i".to_string(), vec![1], "image/png".to_string());
    img.alt_text = Some("Logo".to_string());
    img.width = Some(64);
    img.height = Some(32);
    img.page_number = Some(2);
    assert_eq!(
        image_context(&img, 0),
        "\n--- Image 1 ---\nExisting alt text: Logo\nDimensions: 64x32 pixels\nFrom page: 2"
    );
    let bare = ExtractedImage::new("j".to_string(), vec![], "image/gif".to_string());
    assert_eq!(image_context(&bare, 4), "\n--- Image 5 ---");
}

#[test]
fn email_markdown_from_fields() {
    let from = Some(vec![MailAddress { name: Some("Ann".to_string()), address: Some("ann@example.com".to_string()) }]);
    let atts = vec![MailAttachment { name: Some("a.pdf".to_string()), content_type: Some("application/pdf".to_string()), size: 10 }];
    let md: String = EmailConverter::email_markdown(
        &from,
        &None,
        &None,
        &Some("Hi".to_string()),
        &None,
        &Some("Body text".to_string()),
        &atts,
    )
    .iter()
    .collect();
    assert!(md.starts_with("# Email\n\n**From:** Ann <ann@example.com>\n\n"));
    assert!(md.contains("**Subject:** Hi\n\n---\n\n"));
    assert!(md.contains("---\n\nBody text\n\n---\n\n## Attachments\n\n- **a.pdf** (application/pdf, 10 bytes)"));
}

#[test]
fn bibtex_fields_from_matches() {
    let caps = vec![
        vec![Some("Title".chars().collect()), Some("A Book".chars().collect()), None, None],
        vec![Some("year".chars().collect()), None, None, Some("1999".chars().collect())],
    ];
    let f = markitdown::bibtex::fields_from_captures(&caps);
    assert_eq!(f, vec![("title".to_string(), "A Book".to_string()), ("year".to_string(), "1999".to_string())]);
}

#[test]
fn iwork_markdown_from_entries() {
    let entries = vec![
        Some(("Index/Document.iwa".chars().collect::<Vec<char>>(), Some(b"Hello world from a document".to_vec()))),
        None,
        Some(("notes.txt".chars().collect::<Vec<char>>(), Some(b"Some notes".to_vec()))),
    ];
    let md: String = markitdown::iwork::PagesConverter::iwork_markdown_of(&entries, (false, true, false), "Pages")
        .iter()
        .collect();
    assert!(md.starts_with("# Apple Pages Document\n\n*Preview available: QuickLook/Preview.pdf*\n\nSome notes\n\n"));
    assert!(md.ends_with("---\n\n**Archive Contents:**\n- `Index/Document.iwa`\n- `notes.txt`\n"));
}
