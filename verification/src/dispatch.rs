//! Converting bytes with the converter of a kind that the registry picked.
use vstd::prelude::*;
use crate::archive_formats::{ArchiveConverter, archive_kind_of, archive_result, extension_hint};
use crate::bibtex::{BibtexConverter, bib_entries, bibliography_md};
use crate::calendar::{ICalendarConverter, ics_result};
use crate::chars::{unicode_lowercase, utf8_lossy};
use crate::csv_table::{CsvConverter, csv_document};
use crate::data::{CodeConverter, JsonConverter, TextConverter, TomlConverter, YamlConverter, code_markdown, data_markdown, json_reformat, markdown_hint, text_document, toml_reformat, yaml_reformat};
use crate::detect::ConverterKind;
use crate::docx::{DocxConverter, docx_result};
use crate::email::{EmailConverter, email_result};
use crate::epub::{EpubConverter, epub_result};
use crate::error::{MarkitdownError, is_parse_error};
use crate::html::{HtmlConverter, html_result};
use crate::image::{ImageConverter, context_path_of, image_document};
use crate::iwork::{KeynoteConverter, NumbersConverter, PagesConverter, iwork_markdown};
use crate::legacy_convert::{doc_document, ppt_document};
use crate::legacy_office::{DocConverter, PptConverter};
use crate::log_file::{LogConverter, analysis_of, log_md};
use crate::markdown_file::{MarkdownConverter, markdown_extension, normalized_markdown};
use crate::model::{ConversionOptions, Document, extracts_images, is_markdown_doc, opt_str};
use crate::opendocument::{OdpConverter, OdsConverter, OdtConverter, odp_document, odp_slides, ods_document, odt_text, zip_text_entry};
use crate::pptx::{PptxConverter, failure_is, pptx_result};
use crate::rss::{RssConverter, feed_document, feed_of, feed_safe, unsafe_feed_message};
use crate::rtf::{RtfConverter, rtf_result};
use crate::spreadsheet::{ExcelConverter, XlsConverter, auto_sheet_names, xls_result, xlsx_result};
use crate::templates::{DotxConverter, PotxConverter, XltxConverter};
use crate::text::lines_of;
use crate::vcard::{VCardConverter, vcf_result};

verus! {

/// Converts the bytes with the converter of the kind, with the options;
/// a Word template is read as DOCX. The kinds whose reading cannot be done
/// here (PDF, SQLite) give none; every other kind gives what its converter
/// gives.
pub fn convert_as(kind: ConverterKind, bytes: &[u8], options: Option<&ConversionOptions>) -> (res: Option<
    Result<Document, MarkitdownError>,
>)
    ensures
        res is None <==> (kind is Pdf || kind is Sqlite),
        kind is Csv ==> (res matches Some(r) && (match options {
                Some(o) => match opt_str(o.file_extension) {
                    Some(e) => e != ".csv"@ ==> (r matches Err(MarkitdownError::InvalidFile(m)) && m@ == "Expected .csv file, got "@ + e),
                    None => true,
                },
                None => true,
            }) && ((match options {
                Some(o) => match opt_str(o.file_extension) {
                    Some(e) => e == ".csv"@,
                    None => true,
                },
                None => true,
            }) ==> match csv_document(bytes@) {
                Ok(d) => r matches Ok(x) && x@ == d,
                Err(m) => r matches Err(e) && is_parse_error(e, m),
            })),
        kind is Excel ==> (res matches Some(r) && (match options {
                Some(o) => match opt_str(o.file_extension) {
                    Some(e) => if e == ".xlsx"@ || e == ".xls"@ {
                        xlsx_result(bytes@, r)
                    } else {
                        r matches Err(MarkitdownError::InvalidFile(m)) && m@ == "Expected .xlsx or .xls file, got "@ + e
                    },
                    None => xlsx_result(bytes@, r),
                },
                None => xlsx_result(bytes@, r),
            })),
        kind is Html ==> (res matches Some(r) && (match options {
                Some(o) => match opt_str(o.file_extension) {
                    Some(e) => if e == ".html"@ || e == ".htm"@ {
                        html_result(bytes@, o.extract_images, r)
                    } else {
                        r matches Err(MarkitdownError::InvalidFile(m)) && m@ == "Expected .html or .htm file, got "@ + e
                    },
                    None => html_result(bytes@, o.extract_images, r),
                },
                None => html_result(bytes@, true, r),
            })),
        kind is Image ==> (res matches Some(Ok(r)) && (r@ == image_document(bytes@, context_path_of(options), None::<Seq<char>>))),
        kind is Rss ==> (res matches Some(r) && (!feed_safe(bytes@) ==> (r matches Err(e) && is_parse_error(e, "Failed to parse feed: "@ + unsafe_feed_message()))) && (feed_safe(bytes@) ==> match feed_of(bytes@) {
                Ok((t, d, atom, n)) => r matches Ok(doc) && doc@ == feed_document(bytes@, t, d, atom, n),
                Err(m) => r matches Err(e) && is_parse_error(e, "Failed to parse feed: "@ + m),
            })),
        kind is Pptx ==> (res matches Some(r) && (match pptx_result(
                bytes@,
                match options {
                    Some(o) => o.extract_images,
                    None => true,
                },
            ) {
                Ok(d) => r matches Ok(doc) && doc@ == d,
                Err(f) => r matches Err(e) && failure_is(e, f),
            })),
        kind is Docx ==> (res matches Some(r) && (match options {
                Some(o) => match opt_str(o.file_extension) {
                    Some(e) => if e == ".docx"@ {
                        docx_result(bytes@, o.extract_images, r)
                    } else {
                        r matches Err(MarkitdownError::InvalidFile(m)) && m@ == "Expected .docx file, got "@ + e
                    },
                    None => docx_result(bytes@, o.extract_images, r),
                },
                None => docx_result(bytes@, true, r),
            })),
        kind is Dotx ==> (res matches Some(r) && docx_result(bytes@, extracts_images(options), r)),
        kind is Rtf ==> (res matches Some(r) && (match options {
                Some(o) => match opt_str(o.file_extension) {
                    Some(e) => if e == ".rtf"@ {
                        rtf_result(bytes@, r)
                    } else {
                        r matches Err(MarkitdownError::InvalidFile(m)) && m@ == "Expected .rtf file, got "@ + e
                    },
                    None => rtf_result(bytes@, r),
                },
                None => rtf_result(bytes@, r),
            })),
        kind is Epub ==> (res matches Some(r) && (match options {
                Some(o) => match opt_str(o.file_extension) {
                    Some(e) => if e == ".epub"@ {
                        epub_result(bytes@, r)
                    } else {
                        r matches Err(MarkitdownError::InvalidFile(m)) && m@ == "Expected .epub file, got "@ + e
                    },
                    None => epub_result(bytes@, r),
                },
                None => epub_result(bytes@, r),
            })),
        kind is Email ==> (res matches Some(r) && (match options {
                Some(o) => match opt_str(o.file_extension) {
                    Some(e) => if unicode_lowercase(e) == ".eml"@ || unicode_lowercase(e) == ".msg"@ {
                        email_result(bytes@, r)
                    } else {
                        r matches Err(MarkitdownError::InvalidFile(m)) && m@ == "Expected .eml or .msg file, got "@ + e
                    },
                    None => email_result(bytes@, r),
                },
                None => email_result(bytes@, r),
            })),
        kind is Markdown ==> (res matches Some(r) && (match options {
                Some(o) => match opt_str(o.file_extension) {
                    Some(e) => if markdown_extension(e) {
                        r matches Ok(d) && is_markdown_doc(d, normalized_markdown(utf8_lossy(bytes@)))
                    } else {
                        r matches Err(MarkitdownError::InvalidFile(m)) && m@ == "Expected Markdown file, got "@ + e
                    },
                    None => r matches Ok(d) && is_markdown_doc(d, normalized_markdown(utf8_lossy(bytes@))),
                },
                None => r matches Ok(d) && is_markdown_doc(d, normalized_markdown(utf8_lossy(bytes@))),
            })),
        kind is ICalendar ==> (res matches Some(r) && (match options {
                Some(o) => match opt_str(o.file_extension) {
                    Some(e) => if e == ".ics"@ || e == ".ical"@ {
                        ics_result(bytes@, r)
                    } else {
                        r matches Err(MarkitdownError::InvalidFile(m)) && m@ == "Expected .ics file, got "@ + e
                    },
                    None => ics_result(bytes@, r),
                },
                None => ics_result(bytes@, r),
            })),
        kind is VCard ==> (res matches Some(r) && (match options {
                Some(o) => match opt_str(o.file_extension) {
                    Some(e) => if e == ".vcf"@ || e == ".vcard"@ {
                        vcf_result(bytes@, r)
                    } else {
                        r matches Err(MarkitdownError::InvalidFile(m)) && m@ == "Expected .vcf file, got "@ + e
                    },
                    None => vcf_result(bytes@, r),
                },
                None => vcf_result(bytes@, r),
            })),
        kind is Json ==> (res matches Some(r) && (match data_markdown(json_reformat(utf8_lossy(bytes@)), "JSON"@, "json"@, false) {
                Ok(md) => r matches Ok(x) && is_markdown_doc(x, md),
                Err(m) => r matches Err(e) && is_parse_error(e, m),
            })),
        kind is Yaml ==> (res matches Some(r) && (match data_markdown(yaml_reformat(utf8_lossy(bytes@)), "YAML"@, "yaml"@, true) {
                Ok(md) => r matches Ok(x) && is_markdown_doc(x, md),
                Err(m) => r matches Err(e) && is_parse_error(e, m),
            })),
        kind is Toml ==> (res matches Some(r) && (match data_markdown(toml_reformat(utf8_lossy(bytes@)), "TOML"@, "toml"@, true) {
                Ok(md) => r matches Ok(x) && is_markdown_doc(x, md),
                Err(m) => r matches Err(e) && is_parse_error(e, m),
            })),
        kind is Text ==> (res matches Some(Ok(r)) && (r@ == text_document(utf8_lossy(bytes@), markdown_hint(options)))),
        kind is Code ==> (res matches Some(Ok(r)) && (is_markdown_doc(
                r,
                code_markdown(
                    utf8_lossy(bytes@),
                    match options {
                        Some(o) => match opt_str(o.file_extension) {
                            Some(e) => e,
                            None => seq![],
                        },
                        None => seq![],
                    },
                ),
            ))),
        kind is Archive ==> (res matches Some(r) && (archive_result(archive_kind_of(extension_hint(options), bytes@), bytes@, r))),
        kind is Bibtex ==> (res matches Some(Ok(r)) && (is_markdown_doc(r, bibliography_md(bib_entries(utf8_lossy(bytes@)))))),
        kind is Log ==> (res matches Some(Ok(r)) && (is_markdown_doc(r, log_md(utf8_lossy(bytes@), analysis_of(lines_of(utf8_lossy(bytes@))))))),
        kind is Doc ==> (res matches Some(r) && (match doc_document(bytes@, extracts_images(options)) {
                Ok(d) => r matches Ok(x) && x@ == d,
                Err(m) => r matches Err(e) && is_parse_error(e, m),
            })),
        kind is Xls ==> (res matches Some(r) && (xls_result(bytes@, r))),
        kind is Ppt ==> (res matches Some(r) && (match ppt_document(bytes@, extracts_images(options)) {
                Ok(d) => r matches Ok(x) && x@ == d,
                Err(m) => r matches Err(e) && is_parse_error(e, m),
            })),
        kind is Potx ==> (res matches Some(r) && (match pptx_result(
                bytes@,
                match options {
                    Some(o) => o.extract_images,
                    None => true,
                },
            ) {
                Ok(d) => r matches Ok(doc) && doc@ == d,
                Err(f) => r matches Err(e) && failure_is(e, f),
            })),
        kind is Xltx ==> (res matches Some(r) && (xlsx_result(bytes@, r))),
        kind is Odt ==> (res matches Some(r) && (match crate::archive_formats::zip_open(bytes@) {
                Err(m) => r matches Err(e) && is_parse_error(e, "ODT parse error: "@ + m),
                Ok(_) => match zip_text_entry(bytes@, "content.xml"@) {
                    Err(_) => r matches Ok(d) && is_markdown_doc(
                        d,
                        "# OpenDocument Text\n\n"@ + "*Unable to read content from ODT file.*\n"@,
                    ),
                    Ok(Err(m)) => r matches Err(e) && is_parse_error(e, "Read error: "@ + m),
                    Ok(Ok(xml)) => match odt_text(xml) {
                        Ok(t) => r matches Ok(d) && is_markdown_doc(d, "# OpenDocument Text\n\n"@ + t),
                        Err(m) => r matches Err(e) && is_parse_error(e, m),
                    },
                },
            })),
        kind is Ods ==> (res matches Some(r) && (match auto_sheet_names(bytes@) {
                Ok(names) => r matches Ok(d) && d@ == ods_document(bytes@, names),
                Err(m) => r matches Err(e) && is_parse_error(e, "ODS parse error: "@ + m),
            })),
        kind is Odp ==> (res matches Some(r) && (match crate::archive_formats::zip_open(bytes@) {
                Err(m) => r matches Err(e) && is_parse_error(e, "ODP parse error: "@ + m),
                Ok(_) => match zip_text_entry(bytes@, "content.xml"@) {
                    Err(_) => r matches Ok(d) && d@ == odp_document(Seq::empty()),
                    Ok(Err(m)) => r matches Err(e) && is_parse_error(e, "Read error: "@ + m),
                    Ok(Ok(xml)) => match odp_slides(xml) {
                        Ok(v) => r matches Ok(d) && d@ == odp_document(v),
                        Err(m) => r matches Err(e) && is_parse_error(e, m),
                    },
                },
            })),
        kind is Pages ==> (res matches Some(r) && (match iwork_markdown(bytes@, "Pages"@) {
                Ok(md) => r matches Ok(d) && is_markdown_doc(d, md),
                Err(m) => r matches Err(e) && is_parse_error(e, m),
            })),
        kind is Numbers ==> (res matches Some(r) && (match iwork_markdown(bytes@, "Numbers"@) {
                Ok(md) => r matches Ok(d) && is_markdown_doc(d, md),
                Err(m) => r matches Err(e) && is_parse_error(e, m),
            })),
        kind is Keynote ==> (res matches Some(r) && (match iwork_markdown(bytes@, "Keynote"@) {
                Ok(md) => r matches Ok(d) && is_markdown_doc(d, md),
                Err(m) => r matches Err(e) && is_parse_error(e, m),
            })),
{
    match kind {
        ConverterKind::Csv => Some(CsvConverter.convert_bytes(bytes, options)),
        ConverterKind::Excel => Some(ExcelConverter.convert_bytes(bytes, options)),
        ConverterKind::Html => Some(HtmlConverter.convert_bytes(bytes, options)),
        ConverterKind::Image => Some(Ok(ImageConverter.bytes_to_document(bytes, options, None))),
        ConverterKind::Rss => Some(RssConverter.bytes_to_document(bytes)),
        ConverterKind::Pptx => Some(PptxConverter.convert_bytes(bytes, options)),
        ConverterKind::Docx => Some(DocxConverter.convert_bytes(bytes, options)),
        ConverterKind::Dotx => {
            let o = DotxConverter::docx_options(options);
            Some(DocxConverter.convert_bytes(bytes, Some(&o)))
        },
        ConverterKind::Rtf => Some(RtfConverter.convert_bytes(bytes, options)),
        ConverterKind::Epub => Some(EpubConverter.convert_bytes(bytes, options)),
        ConverterKind::Email => Some(EmailConverter.convert_bytes(bytes, options)),
        ConverterKind::Markdown => Some(MarkdownConverter.convert_bytes(bytes, options)),
        ConverterKind::ICalendar => Some(ICalendarConverter.convert_bytes(bytes, options)),
        ConverterKind::VCard => Some(VCardConverter.convert_bytes(bytes, options)),
        ConverterKind::Json => Some(JsonConverter::convert_json(bytes)),
        ConverterKind::Yaml => Some(YamlConverter::convert_yaml(bytes)),
        ConverterKind::Toml => Some(TomlConverter::convert_toml(bytes)),
        ConverterKind::Text => Some(Ok(TextConverter.convert_bytes(bytes, options))),
        ConverterKind::Code => Some(Ok(CodeConverter.convert_bytes(bytes, options))),
        ConverterKind::Archive => Some(ArchiveConverter::new().convert_bytes(bytes, options)),
        ConverterKind::Bibtex => Some(Ok(BibtexConverter.convert_bytes(bytes))),
        ConverterKind::Log => Some(Ok(LogConverter.convert_bytes(bytes))),
        ConverterKind::Doc => Some(DocConverter.convert_bytes(bytes, options)),
        ConverterKind::Xls => Some(XlsConverter.convert_bytes(bytes, options)),
        ConverterKind::Ppt => Some(PptConverter.convert_bytes(bytes, options)),
        ConverterKind::Potx => Some(PotxConverter.convert_bytes(bytes, options)),
        ConverterKind::Xltx => Some(XltxConverter.convert_bytes(bytes, options)),
        ConverterKind::Odt => Some(OdtConverter::convert_odt(bytes)),
        ConverterKind::Ods => Some(OdsConverter::convert_ods(bytes)),
        ConverterKind::Odp => Some(OdpConverter::convert_odp(bytes)),
        ConverterKind::Pages => Some(PagesConverter.convert_bytes(bytes)),
        ConverterKind::Numbers => Some(NumbersConverter.convert_bytes(bytes)),
        ConverterKind::Keynote => Some(KeynoteConverter.convert_bytes(bytes)),
        ConverterKind::Pdf | ConverterKind::Sqlite => None,
    }
}

} // verus!
