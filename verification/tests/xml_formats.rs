use markitdown::docbook::DocBookConverter;
use markitdown::error::MarkitdownError;
use markitdown::fictionbook::FictionBookConverter;
use markitdown::model::ContentBlock;
use markitdown::opml::OpmlConverter;

#[test]
fn opml_title_and_outlines() {
    let src = r#"<opml><head><title>Feeds</title></head><body><outline text="A" xmlUrl="http://a"/><x/><outline text="B" type="link"/><y/></body></opml>"#;
    let md = OpmlConverter::opml_to_markdown(src).expect("parses");
    assert_eq!(md, "# Feeds\n\n- [A](http://a)\n- B\n  *Type: link*\n");
}

#[test]
fn opml_nested_outline_is_indented() {
    let src = r#"<opml><body><outline text="Top"><outline text="Mid"><outline text="Leaf"/></outline></outline></body></opml>"#;
    let md = OpmlConverter::opml_to_markdown(src).expect("parses");
    assert_eq!(md, "- Top\n  - Mid\n    - Leaf\n");
}

#[test]
fn opml_document_bytes() {
    let doc = OpmlConverter.convert_bytes(br#"<opml><body><outline text="X"/></body></opml>"#).expect("parses");
    match &doc.pages[0].content[0] {
        ContentBlock::Markdown(m) => assert_eq!(m, "- X\n"),
        _ => panic!("expected Markdown"),
    }
}

#[test]
fn docbook_title_and_paragraph() {
    let md = DocBookConverter::docbook_to_markdown("<article><title>Doc</title><para>Hello</para></article>").expect("parses");
    assert_eq!(md, "## Doc\n\nHello\n\n");
}

#[test]
fn docbook_emphasis_code_and_listing() {
    let src = r#"<article><para><emphasis role="bold">big</emphasis></para><para><literal>x</literal></para><programlisting>fn f()</programlisting></article>"#;
    let md = DocBookConverter::docbook_to_markdown(src).expect("parses");
    assert_eq!(md, "**big**\n\n`x`\n\n```\nfn f()```\n\n");
}

#[test]
fn docbook_mismatched_tags_error() {
    match DocBookConverter::docbook_to_markdown("<article><para>x</article>") {
        Err(MarkitdownError::ParseError(m)) => assert!(m.starts_with("DocBook parse error: ")),
        _ => panic!("expected a parse error"),
    }
}

#[test]
fn fictionbook_metadata_and_sections() {
    let src = "<FictionBook><description><title-info><book-title>Tale</book-title><author><first-name>Ann</first-name></author></title-info></description><body><section><title><p>One</p></title><p>Text here</p></section></body></FictionBook>";
    let (meta, pages) = FictionBookConverter::fb2_to_markdown(src).expect("parses");
    assert!(meta.starts_with("# Tale\n\n"));
    assert!(meta.ends_with("---\n\n"));
    assert!(!pages.is_empty());
    assert!(pages.iter().any(|p| p.contains("Text here")));
}
