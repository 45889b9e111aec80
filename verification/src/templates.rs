//! Office templates: read as the document format they are templates of,
//! with the extension hint changed to that format's.
use vstd::prelude::*;
use crate::error::MarkitdownError;
use crate::model::{copy_opt_str, ext_views, opt_str, ConversionOptions, Document, DocumentConverter};
use crate::pptx::{failure_is, pptx_result, PptxConverter};
use crate::spreadsheet::{xlsx_result, ExcelConverter};

verus! {

/// Word template converter (`.dotx`, `.dotm`), read as DOCX.
pub struct DotxConverter;

/// PowerPoint template converter (`.potx`, `.potm`), read as PPTX.
pub struct PotxConverter;

/// Excel template converter (`.xltx`, `.xltm`), read as XLSX.
pub struct XltxConverter;

/// The options (or the defaults) with the extension hint set to `ext`,
/// everything else kept.
pub open spec fn format_options(options: Option<&ConversionOptions>, ext: Seq<char>, r: ConversionOptions) -> bool {
    &&& opt_str(r.file_extension) == Some(ext)
    &&& match options {
        Some(o) => {
            &&& opt_str(r.url) == opt_str(o.url)
            &&& opt_str(r.image_context_path) == opt_str(o.image_context_path)
            &&& r.extract_images == o.extract_images
            &&& r.force_llm_ocr == o.force_llm_ocr
            &&& r.merge_multipage_tables == o.merge_multipage_tables
        },
        None => {
            &&& r.url is None
            &&& r.image_context_path is None
            &&& r.extract_images
            &&& !r.force_llm_ocr
            &&& !r.merge_multipage_tables
        },
    }
}

/// The options (or the defaults) with the extension hint set to `ext`.
pub fn with_format_extension(options: Option<&ConversionOptions>, ext: &str) -> (r: ConversionOptions)
    ensures
        format_options(options, ext@, r),
{
    match options {
        Some(o) => ConversionOptions {
            file_extension: Some(String::from_str(ext)),
            url: copy_opt_str(&o.url),
            image_context_path: copy_opt_str(&o.image_context_path),
            extract_images: o.extract_images,
            force_llm_ocr: o.force_llm_ocr,
            merge_multipage_tables: o.merge_multipage_tables,
        },
        None => ConversionOptions::new().with_extension(ext),
    }
}

impl DotxConverter {
    /// The options for reading a Word template as DOCX.
    pub fn docx_options(options: Option<&ConversionOptions>) -> (r: ConversionOptions)
        ensures
            format_options(options, ".docx"@, r),
    {
        with_format_extension(options, ".docx")
    }
}

impl PotxConverter {
    /// The options for reading a PowerPoint template as PPTX.
    pub fn pptx_options(options: Option<&ConversionOptions>) -> (r: ConversionOptions)
        ensures
            format_options(options, ".pptx"@, r),
    {
        with_format_extension(options, ".pptx")
    }

    /// Converts a PowerPoint template as a PPTX presentation.
    pub fn convert_bytes(&self, bytes: &[u8], options: Option<&ConversionOptions>) -> (r: Result<Document, MarkitdownError>)
        ensures
            match pptx_result(
                bytes@,
                match options {
                    Some(o) => o.extract_images,
                    None => true,
                },
            ) {
                Ok(d) => r matches Ok(doc) && doc@ == d,
                Err(f) => r matches Err(e) && failure_is(e, f),
            },
    {
        let opts = Self::pptx_options(options);
        PptxConverter.convert_bytes(bytes, Some(&opts))
    }
}

impl XltxConverter {
    /// Converts an Excel template as an XLSX workbook.
    pub fn convert_bytes(&self, bytes: &[u8], options: Option<&ConversionOptions>) -> (r: Result<Document, MarkitdownError>)
        ensures
            xlsx_result(bytes@, r),
    {
        let opts = with_format_extension(options, ".xlsx");
        ExcelConverter.convert_bytes(bytes, Some(&opts))
    }
}

impl DocumentConverter for DotxConverter {
    open spec fn extensions(&self) -> Seq<Seq<char>> {
        seq![".dotx"@, ".dotm"@]
    }

    fn supported_extensions(&self) -> (r: Vec<&'static str>) {
        let r = vec![".dotx", ".dotm"];
        assert(ext_views(r@) =~= self.extensions());
        r
    }
}

impl DocumentConverter for PotxConverter {
    open spec fn extensions(&self) -> Seq<Seq<char>> {
        seq![".potx"@, ".potm"@]
    }

    fn supported_extensions(&self) -> (r: Vec<&'static str>) {
        let r = vec![".potx", ".potm"];
        assert(ext_views(r@) =~= self.extensions());
        r
    }
}

impl DocumentConverter for XltxConverter {
    open spec fn extensions(&self) -> Seq<Seq<char>> {
        seq![".xltx"@, ".xltm"@]
    }

    fn supported_extensions(&self) -> (r: Vec<&'static str>) {
        let r = vec![".xltx", ".xltm"];
        assert(ext_views(r@) =~= self.extensions());
        r
    }
}

} // verus!
