use markitdown::latex::{latex_to_markdown, LatexConverter};
use markitdown::model::{ContentBlock, Document, DocumentConverter};
use markitdown::orgmode::{org_to_markdown, OrgModeConverter};
use markitdown::rst::{rst_to_markdown, RstConverter};
use markitdown::typst::{typst_to_markdown, TypstConverter};

fn chars(s: &str) -> Vec<char> {
    s.chars().collect()
}

fn text(v: &[char]) -> String {
    v.iter().collect()
}

fn only_markdown(doc: &Document) -> String {
    assert_eq!(doc.pages.len(), 1);
    assert_eq!(doc.pages[0].content.len(), 1);
    match &doc.pages[0].content[0] {
        ContentBlock::Markdown(m) => m.clone(),
        _ => panic!("expected one Markdown block"),
    }
}

#[test]
fn latex_sections_items_and_formatting() {
    let src = "\\documentclass{article}\n\\begin{document}\n\\section{Intro}\n\\begin{enumerate}\n\\item one\n\\item two\n\\end{enumerate}\nSome \\textbf{bold} and \\emph{it}.\n\\end{document}\n";
    let out = latex_to_markdown(&chars(src));
    assert_eq!(text(&out), "## Intro\n\n1. one\n2. two\n\nSome **bold** and *it*.\n");
}

#[test]
fn latex_title_author_and_math() {
    let src = "\\title{Paper}\n\\author{Ann}\n\\begin{equation}\nx = 1\n\\end{equation}\n";
    let out = latex_to_markdown(&chars(src));
    assert_eq!(text(&out), "# Paper\n\n**Author:** Ann\n\n$$\nx = 1\n$$\n");
}

#[test]
fn latex_converter_bytes() {
    let doc = LatexConverter.convert_bytes(b"\\subsection{A}\n\\url{http://x.org}\n");
    assert_eq!(only_markdown(&doc), "### A\n\n<http://x.org>\n");
    assert!(LatexConverter.can_handle("TEX"));
}

#[test]
fn org_headings_keywords_and_markup() {
    let src = "* TODO Buy milk\n** Notes\nSome *bold* and =code= text\n#+TITLE: x\n[[http://a.com][A]]\n";
    let out = org_to_markdown(&chars(src));
    assert_eq!(text(&out), "# Buy milk\n## Notes\nSome **bold** and `code` text\n[A](http://a.com)\n");
}

#[test]
fn org_code_block() {
    let src = "#+BEGIN_SRC rust\nfn main() {}\n#+END_SRC\n";
    let out = org_to_markdown(&chars(src));
    assert_eq!(text(&out), "```rust\nfn main() {}\n```\n");
    let doc = OrgModeConverter.convert_bytes(src.as_bytes());
    assert_eq!(only_markdown(&doc), "```rust\nfn main() {}\n```\n");
}

#[test]
fn typst_headings_and_code() {
    let src = "#set page(width: 10cm)\n= Intro\n```rust\nlet x = 1;\n```\nHello\n";
    let out = typst_to_markdown(&chars(src));
    assert_eq!(text(&out), "# Intro\n\n```rust\nlet x = 1;\n```\nHello\n");
    let doc = TypstConverter.convert_bytes(b"= T\n");
    assert_eq!(only_markdown(&doc), "# T\n\n");
}

#[test]
fn rst_titles_and_literal_block() {
    let src = "Title\n=====\n\nSection\n-------\n\nExample::\n\n    code here\n\nDone\n";
    let out = rst_to_markdown(&chars(src));
    assert_eq!(text(&out), "# Title\n\n## Section\n\nExample\n```\ncode here\n\n```\nDone\n");
    let doc = RstConverter.convert_bytes(b"A\n=\n");
    assert_eq!(only_markdown(&doc), "# A\n");
}
