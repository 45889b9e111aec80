//! Conversion of documents of many formats to Markdown, with the text
//! transformations specified and proved.
pub mod text;
pub mod chars;
pub mod pattern;
pub mod table_merge;
pub mod model;
pub mod error;
pub mod latex;
pub mod orgmode;
pub mod typst;
pub mod rst;
pub mod legacy_office;
pub mod office_text;
pub mod ppt_text;
pub mod xml;
pub mod opml;
pub mod docbook;
pub mod fictionbook;
pub mod legacy_convert;
pub mod data;
pub mod archive;
pub mod archive_formats;
pub mod bibtex;
pub mod csv_table;
pub mod log_file;
pub mod markdown_file;
pub mod iwork;
pub mod html;
pub mod email;
pub mod sqlite;
pub mod jupyter;
pub mod pptx;
pub mod pdf_text;
pub mod pdf;
pub mod laws;
pub mod format_laws;
pub mod spreadsheet;
pub mod templates;
pub mod opendocument;
pub mod llm;
pub mod calendar;
pub mod vcard;
pub mod repetition;
pub mod rtf;
pub mod rss;
pub mod image;
pub mod docx;
pub mod epub;
pub mod detect;
pub mod dispatch;
