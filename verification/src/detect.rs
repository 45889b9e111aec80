//! Choosing a converter: the registry of converters in the order in which
//! they are tried, file type detection from bytes (by their signature) and
//! from a path (by its extension, its signature or its MIME type), and the
//! route a conversion takes.
use vstd::prelude::*;
use crate::archive_formats::archive_extensions;
use crate::csv_table::CsvConverter;
use crate::spreadsheet::ExcelConverter;
use crate::html::HtmlConverter;
use crate::image::ImageConverter;
use crate::rss::RssConverter;
use crate::pdf::PdfConverter;
use crate::pptx::PptxConverter;
use crate::docx::DocxConverter;
use crate::rtf::RtfConverter;
use crate::epub::EpubConverter;
use crate::email::EmailConverter;
use crate::markdown_file::MarkdownConverter;
use crate::calendar::ICalendarConverter;
use crate::vcard::VCardConverter;
use crate::sqlite::SqliteConverter;
use crate::data::JsonConverter;
use crate::data::YamlConverter;
use crate::data::TomlConverter;
use crate::data::TextConverter;
use crate::data::CodeConverter;
use crate::archive_formats::ArchiveConverter;
use crate::bibtex::BibtexConverter;
use crate::log_file::LogConverter;
use crate::legacy_office::DocConverter;
use crate::spreadsheet::XlsConverter;
use crate::legacy_office::PptConverter;
use crate::templates::DotxConverter;
use crate::templates::PotxConverter;
use crate::templates::XltxConverter;
use crate::opendocument::OdtConverter;
use crate::opendocument::OdsConverter;
use crate::opendocument::OdpConverter;
use crate::iwork::PagesConverter;
use crate::iwork::NumbersConverter;
use crate::iwork::KeynoteConverter;
use crate::chars::{to_lowercase, to_string, unicode_lowercase};
use crate::error::MarkitdownError;
use crate::model::{any_extension_matches, ext_views, handles, opt_str, DocumentConverter};
use crate::text::{chars_eq_str, chars_of, extend_chars, extend_str};

verus! {

/// The converters.
#[derive(Clone, Copy, PartialEq, Eq, Structural, Debug)]
pub enum ConverterKind {
    Csv,
    Excel,
    Html,
    Image,
    Rss,
    Pdf,
    Pptx,
    Docx,
    Rtf,
    Epub,
    Email,
    Markdown,
    ICalendar,
    VCard,
    Sqlite,
    Json,
    Yaml,
    Toml,
    Text,
    Code,
    Archive,
    Bibtex,
    Log,
    Doc,
    Xls,
    Ppt,
    Dotx,
    Potx,
    Xltx,
    Odt,
    Ods,
    Odp,
    Pages,
    Numbers,
    Keynote,
}

impl ConverterKind {
    /// The file extensions the converter handles.
    pub open spec fn extensions(self) -> Seq<Seq<char>> {
        match self {
            ConverterKind::Csv => CsvConverter.extensions(),
            ConverterKind::Excel => ExcelConverter.extensions(),
            ConverterKind::Html => HtmlConverter.extensions(),
            ConverterKind::Image => ImageConverter.extensions(),
            ConverterKind::Rss => RssConverter.extensions(),
            ConverterKind::Pdf => PdfConverter.extensions(),
            ConverterKind::Pptx => PptxConverter.extensions(),
            ConverterKind::Docx => DocxConverter.extensions(),
            ConverterKind::Rtf => RtfConverter.extensions(),
            ConverterKind::Epub => EpubConverter.extensions(),
            ConverterKind::Email => EmailConverter.extensions(),
            ConverterKind::Markdown => MarkdownConverter.extensions(),
            ConverterKind::ICalendar => ICalendarConverter.extensions(),
            ConverterKind::VCard => VCardConverter.extensions(),
            ConverterKind::Sqlite => SqliteConverter.extensions(),
            ConverterKind::Json => JsonConverter.extensions(),
            ConverterKind::Yaml => YamlConverter.extensions(),
            ConverterKind::Toml => TomlConverter.extensions(),
            ConverterKind::Text => TextConverter.extensions(),
            ConverterKind::Code => CodeConverter.extensions(),
            ConverterKind::Archive => archive_extensions(),
            ConverterKind::Bibtex => BibtexConverter.extensions(),
            ConverterKind::Log => LogConverter.extensions(),
            ConverterKind::Doc => DocConverter.extensions(),
            ConverterKind::Xls => XlsConverter.extensions(),
            ConverterKind::Ppt => PptConverter.extensions(),
            ConverterKind::Dotx => DotxConverter.extensions(),
            ConverterKind::Potx => PotxConverter.extensions(),
            ConverterKind::Xltx => XltxConverter.extensions(),
            ConverterKind::Odt => OdtConverter.extensions(),
            ConverterKind::Ods => OdsConverter.extensions(),
            ConverterKind::Odp => OdpConverter.extensions(),
            ConverterKind::Pages => PagesConverter.extensions(),
            ConverterKind::Numbers => NumbersConverter.extensions(),
            ConverterKind::Keynote => KeynoteConverter.extensions(),
        }
    }

    /// The file extensions the converter handles.
    pub fn supported_extensions(&self) -> (r: Vec<&'static str>)
        ensures
            ext_views(r@) == self.extensions(),
    {
        match self {
            ConverterKind::Csv => CsvConverter.supported_extensions(),
            ConverterKind::Excel => ExcelConverter.supported_extensions(),
            ConverterKind::Html => HtmlConverter.supported_extensions(),
            ConverterKind::Image => ImageConverter.supported_extensions(),
            ConverterKind::Rss => RssConverter.supported_extensions(),
            ConverterKind::Pdf => PdfConverter.supported_extensions(),
            ConverterKind::Pptx => PptxConverter.supported_extensions(),
            ConverterKind::Docx => DocxConverter.supported_extensions(),
            ConverterKind::Rtf => RtfConverter.supported_extensions(),
            ConverterKind::Epub => EpubConverter.supported_extensions(),
            ConverterKind::Email => EmailConverter.supported_extensions(),
            ConverterKind::Markdown => MarkdownConverter.supported_extensions(),
            ConverterKind::ICalendar => ICalendarConverter.supported_extensions(),
            ConverterKind::VCard => VCardConverter.supported_extensions(),
            ConverterKind::Sqlite => SqliteConverter.supported_extensions(),
            ConverterKind::Json => JsonConverter.supported_extensions(),
            ConverterKind::Yaml => YamlConverter.supported_extensions(),
            ConverterKind::Toml => TomlConverter.supported_extensions(),
            ConverterKind::Text => TextConverter.supported_extensions(),
            ConverterKind::Code => CodeConverter.supported_extensions(),
            ConverterKind::Archive => ArchiveConverter::new().supported_extensions(),
            ConverterKind::Bibtex => BibtexConverter.supported_extensions(),
            ConverterKind::Log => LogConverter.supported_extensions(),
            ConverterKind::Doc => DocConverter.supported_extensions(),
            ConverterKind::Xls => XlsConverter.supported_extensions(),
            ConverterKind::Ppt => PptConverter.supported_extensions(),
            ConverterKind::Dotx => DotxConverter.supported_extensions(),
            ConverterKind::Potx => PotxConverter.supported_extensions(),
            ConverterKind::Xltx => XltxConverter.supported_extensions(),
            ConverterKind::Odt => OdtConverter.supported_extensions(),
            ConverterKind::Ods => OdsConverter.supported_extensions(),
            ConverterKind::Odp => OdpConverter.supported_extensions(),
            ConverterKind::Pages => PagesConverter.supported_extensions(),
            ConverterKind::Numbers => NumbersConverter.supported_extensions(),
            ConverterKind::Keynote => KeynoteConverter.supported_extensions(),
        }
    }

    /// Whether the converter handles the extension (leading dots and ASCII
    /// case aside).
    pub fn can_handle(&self, extension: &str) -> (r: bool)
        ensures
            r == handles(self.extensions(), extension@),
    {
        let exts = self.supported_extensions();
        any_extension_matches(exts.as_slice(), extension)
    }
}

/// The converters in the order in which they are tried: the default
/// registrations, the latest registered first.
pub open spec fn default_registry() -> Seq<ConverterKind> {
    seq![ConverterKind::Keynote, ConverterKind::Numbers, ConverterKind::Pages, ConverterKind::Odp, ConverterKind::Ods, ConverterKind::Odt, ConverterKind::Xltx, ConverterKind::Potx, ConverterKind::Dotx, ConverterKind::Ppt, ConverterKind::Xls, ConverterKind::Doc, ConverterKind::Log, ConverterKind::Bibtex, ConverterKind::Archive, ConverterKind::Code, ConverterKind::Text, ConverterKind::Toml, ConverterKind::Yaml, ConverterKind::Json, ConverterKind::Sqlite, ConverterKind::VCard, ConverterKind::ICalendar, ConverterKind::Markdown, ConverterKind::Email, ConverterKind::Epub, ConverterKind::Rtf, ConverterKind::Docx, ConverterKind::Pptx, ConverterKind::Pdf, ConverterKind::Rss, ConverterKind::Image, ConverterKind::Html, ConverterKind::Excel, ConverterKind::Csv]
}

/// The first converter from position `i` on that handles the extension.
pub open spec fn first_handler(cs: Seq<ConverterKind>, ext: Seq<char>, i: int) -> Option<ConverterKind>
    decreases cs.len() - i,
{
    if i < 0 || i >= cs.len() {
        None
    } else if handles(cs[i].extensions(), ext) {
        Some(cs[i])
    } else {
        first_handler(cs, ext, i + 1)
    }
}

/// The registry of converters.
pub struct MarkItDown {
    converters: Vec<ConverterKind>,
}

impl View for MarkItDown {
    type V = Seq<ConverterKind>;

    closed spec fn view(&self) -> Seq<ConverterKind> {
        self.converters@
    }
}

impl MarkItDown {
    /// The registry with every converter registered, in the default order.
    pub fn new() -> (r: Self)
        ensures
            r@ == default_registry(),
    {
        let mut md = MarkItDown { converters: Vec::new() };
        md.register_converter(ConverterKind::Csv);
        md.register_converter(ConverterKind::Excel);
        md.register_converter(ConverterKind::Html);
        md.register_converter(ConverterKind::Image);
        md.register_converter(ConverterKind::Rss);
        md.register_converter(ConverterKind::Pdf);
        md.register_converter(ConverterKind::Pptx);
        md.register_converter(ConverterKind::Docx);
        md.register_converter(ConverterKind::Rtf);
        md.register_converter(ConverterKind::Epub);
        md.register_converter(ConverterKind::Email);
        md.register_converter(ConverterKind::Markdown);
        md.register_converter(ConverterKind::ICalendar);
        md.register_converter(ConverterKind::VCard);
        md.register_converter(ConverterKind::Sqlite);
        md.register_converter(ConverterKind::Json);
        md.register_converter(ConverterKind::Yaml);
        md.register_converter(ConverterKind::Toml);
        md.register_converter(ConverterKind::Text);
        md.register_converter(ConverterKind::Code);
        md.register_converter(ConverterKind::Archive);
        md.register_converter(ConverterKind::Bibtex);
        md.register_converter(ConverterKind::Log);
        md.register_converter(ConverterKind::Doc);
        md.register_converter(ConverterKind::Xls);
        md.register_converter(ConverterKind::Ppt);
        md.register_converter(ConverterKind::Dotx);
        md.register_converter(ConverterKind::Potx);
        md.register_converter(ConverterKind::Xltx);
        md.register_converter(ConverterKind::Odt);
        md.register_converter(ConverterKind::Ods);
        md.register_converter(ConverterKind::Odp);
        md.register_converter(ConverterKind::Pages);
        md.register_converter(ConverterKind::Numbers);
        md.register_converter(ConverterKind::Keynote);
        assert(md@ =~= default_registry());
        md
    }

    /// Registers a converter; it is tried before those registered earlier.
    pub fn register_converter(&mut self, converter: ConverterKind)
        ensures
            final(self)@ == seq![converter] + old(self)@,
    {
        self.converters.insert(0, converter);
        assert(self@ =~= seq![converter] + old(self)@);
    }

    /// The first converter, in the order they are tried, that handles the
    /// extension.
    pub fn find_converter(&self, extension: &str) -> (r: Option<ConverterKind>)
        ensures
            r == first_handler(self@, extension@, 0),
    {
        let mut i: usize = 0;
        while i < self.converters.len()
            invariant
                i <= self@.len(),
                first_handler(self@, extension@, 0) == first_handler(self@, extension@, i as int),
            decreases self@.len() - i,
        {
            let c = self.converters[i];
            if c.can_handle(extension) {
                return Some(c);
            }
            i += 1;
        }
        None
    }
}

/// The converter that the default registry gives for the extension.
pub fn converter_for(ext: &str) -> (r: Option<ConverterKind>)
    ensures
        r == first_handler(default_registry(), ext@, 0),
{
    MarkItDown::new().find_converter(ext)
}

// ---------------------------------------------------------------------
// File type detection
// ---------------------------------------------------------------------

/// The extension (without a dot) of the file type that `infer::get`
/// recognises by the bytes' signature.
pub uninterp spec fn inferred_extension(bytes: Seq<u8>) -> Option<Seq<char>>;

/// Calls `infer::get` and gives the extension of the type it finds.
#[verifier::external_body]
fn infer_extension(bytes: &[u8]) -> (r: Option<String>)
    ensures
        opt_str(r) == inferred_extension(bytes@),
{
    infer::get(bytes).map(|k| k.extension().to_string())
}

/// The first MIME type that `mime_guess::from_path` guesses for the path,
/// as its `Display` writes it.
pub uninterp spec fn guessed_mime(path: Seq<char>) -> Option<Seq<char>>;

/// Calls `mime_guess::from_path` and gives its first guess.
#[verifier::external_body]
fn guess_mime(path: &str) -> (r: Option<String>)
    ensures
        opt_str(r) == guessed_mime(path@),
{
    mime_guess::from_path(path).first().map(|m| m.to_string())
}

/// The extension that `std::path::Path::extension` gives for the path.
pub uninterp spec fn path_ext(path: Seq<char>) -> Option<Seq<char>>;

/// Calls `Path::extension` on the path.
#[verifier::external_body]
fn path_extension(path: &str) -> (r: Option<String>)
    ensures
        opt_str(r) == path_ext(path@),
{
    std::path::Path::new(path).extension().and_then(|e| e.to_str()).map(|e| e.to_string())
}

/// The extension with a dot before it.
pub open spec fn dotted(e: Option<Seq<char>>) -> Option<Seq<char>> {
    match e {
        Some(x) => Some(seq!['.'] + x),
        None => None,
    }
}

/// The file type of bytes by their signature: a dot and the extension.
pub fn detect_bytes(bytes: &[u8]) -> (r: Option<String>)
    ensures
        opt_str(r) == dotted(inferred_extension(bytes@)),
{
    match infer_extension(bytes) {
        Some(e) => {
            let mut out: Vec<char> = Vec::new();
            out.push('.');
            extend_str(&mut out, e.as_str());
            Some(to_string(out.as_slice()))
        },
        None => None,
    }
}

/// The first extension of the file types known by MIME type.
pub open spec fn mime_first_extension(mime: Seq<char>) -> Option<Seq<char>> {
    if mime == "application/pdf"@ {
        Some(".pdf"@)
    } else if mime == "application/msword"@ {
        Some(".doc"@)
    } else if mime == "application/vnd.openxmlformats-officedocument.wordprocessingml.document"@ {
        Some(".docx"@)
    } else if mime == "application/vnd.ms-excel"@ {
        Some(".xls"@)
    } else if mime == "application/vnd.openxmlformats-officedocument.spreadsheetml.sheet"@ {
        Some(".xlsx"@)
    } else if mime == "text/html"@ {
        Some(".html"@)
    } else if mime == "image/jpeg"@ {
        Some(".jpg"@)
    } else if mime == "image/png"@ {
        Some(".png"@)
    } else if mime == "image/gif"@ {
        Some(".gif"@)
    } else if mime == "application/zip"@ {
        Some(".zip"@)
    } else if mime == "audio/mpeg"@ {
        Some(".mp3"@)
    } else if mime == "audio/wav"@ {
        Some(".wav"@)
    } else if mime == "application/xml"@ {
        Some(".xml"@)
    } else {
        None
    }
}

/// The first extension of a file type known by its MIME type.
pub fn file_type_extension(mime: &str) -> (r: Option<&'static str>)
    ensures
        match r {
            Some(e) => mime_first_extension(mime@) == Some(e@),
            None => mime_first_extension(mime@) is None,
        },
{
    let m = chars_of(mime);
    let s = m.as_slice();
    if chars_eq_str(s, "application/pdf") {
        Some(".pdf")
    } else if chars_eq_str(s, "application/msword") {
        Some(".doc")
    } else if chars_eq_str(s, "application/vnd.openxmlformats-officedocument.wordprocessingml.document") {
        Some(".docx")
    } else if chars_eq_str(s, "application/vnd.ms-excel") {
        Some(".xls")
    } else if chars_eq_str(s, "application/vnd.openxmlformats-officedocument.spreadsheetml.sheet") {
        Some(".xlsx")
    } else if chars_eq_str(s, "text/html") {
        Some(".html")
    } else if chars_eq_str(s, "image/jpeg") {
        Some(".jpg")
    } else if chars_eq_str(s, "image/png") {
        Some(".png")
    } else if chars_eq_str(s, "image/gif") {
        Some(".gif")
    } else if chars_eq_str(s, "application/zip") {
        Some(".zip")
    } else if chars_eq_str(s, "audio/mpeg") {
        Some(".mp3")
    } else if chars_eq_str(s, "audio/wav") {
        Some(".wav")
    } else if chars_eq_str(s, "application/xml") {
        Some(".xml")
    } else {
        None
    }
}

/// The path's extension, lowercased, with a dot before it.
pub open spec fn path_type(path: Seq<char>) -> Option<Seq<char>> {
    match path_ext(path) {
        Some(e) => Some(seq!['.'] + unicode_lowercase(e)),
        None => None,
    }
}

/// The file type of a path: its extension where a converter handles it;
/// else the type recognised by the file's signature (`inferred`, read from
/// the file outside the library); else, where the file can be read, the
/// first extension of the MIME type guessed from the path; else the path's
/// extension.
pub open spec fn file_type(
    reg: Seq<ConverterKind>,
    path: Seq<char>,
    inferred: Option<Seq<char>>,
    readable: bool,
) -> Option<Seq<char>> {
    let p = path_type(path);
    if p is Some && first_handler(reg, p->0, 0) is Some {
        p
    } else if inferred is Some {
        dotted(inferred)
    } else if readable && guessed_mime(path) is Some && mime_first_extension(guessed_mime(path)->0) is Some {
        mime_first_extension(guessed_mime(path)->0)
    } else {
        p
    }
}

/// The way a conversion goes.
pub enum Route {
    /// Each file of the ZIP archive is converted.
    Zip,
    /// The converter converts the bytes.
    Converter(ConverterKind),
}

impl MarkItDown {
    /// The file type of a path (see [`file_type`]); `inferred` is the
    /// extension `infer::get_from_path` found for the file and `readable`
    /// whether the file could be read.
    pub fn detect_file_type(&self, file_path: &str, inferred: Option<String>, readable: bool) -> (r: Option<String>)
        ensures
            opt_str(r) == file_type(self@, file_path@, opt_str(inferred), readable),
    {
        let p: Option<Vec<char>> = match path_extension(file_path) {
            Some(e) => {
                let low = to_lowercase(chars_of(e.as_str()).as_slice());
                let mut out: Vec<char> = Vec::new();
                out.push('.');
                extend_chars(&mut out, low.as_slice());
                Some(out)
            },
            None => None,
        };
        let ghost pv = path_type(file_path@);
        assert(match p { Some(v) => pv == Some(v@), None => pv is None });
        if let Some(v) = &p {
            let s = to_string(v.as_slice());
            if self.find_converter(s.as_str()).is_some() {
                return Some(s);
            }
        }
        if let Some(i) = inferred {
            let mut out: Vec<char> = Vec::new();
            out.push('.');
            extend_str(&mut out, i.as_str());
            return Some(to_string(out.as_slice()));
        }
        if readable {
            if let Some(m) = guess_mime(file_path) {
                if let Some(e) = file_type_extension(m.as_str()) {
                    return Some(String::from_str(e));
                }
            }
        }
        match p {
            Some(v) => Some(to_string(v.as_slice())),
            None => None,
        }
    }

    /// The extension given, or else the one found by the bytes' signature.
    pub fn resolve_extension(&self, given: Option<String>, bytes: &[u8]) -> (r: Option<String>)
        ensures
            opt_str(r) == match opt_str(given) {
                Some(e) => Some(e),
                None => dotted(inferred_extension(bytes@)),
            },
    {
        match given {
            Some(e) => Some(e),
            None => detect_bytes(bytes),
        }
    }

    /// The route of a conversion of a file of extension `ext`: a ZIP
    /// archive has each of its files converted; else the first converter
    /// that handles the extension; else no converter is found.
    pub fn route(&self, ext: &str) -> (r: Result<Route, MarkitdownError>)
        ensures
            ext@ == ".zip"@ || ext@ == "zip"@ ==> r matches Ok(Route::Zip),
            !(ext@ == ".zip"@ || ext@ == "zip"@) ==> match first_handler(self@, ext@, 0) {
                Some(c) => r matches Ok(Route::Converter(k)) && k == c,
                None => r matches Err(MarkitdownError::UnsupportedFormat(m)) && m@
                    == "No converter found for extension: "@ + ext@,
            },
    {
        let c = chars_of(ext);
        if chars_eq_str(c.as_slice(), ".zip") || chars_eq_str(c.as_slice(), "zip") {
            return Ok(Route::Zip);
        }
        match self.find_converter(ext) {
            Some(k) => Ok(Route::Converter(k)),
            None => {
                let mut m: Vec<char> = Vec::new();
                extend_str(&mut m, "No converter found for extension: ");
                extend_chars(&mut m, c.as_slice());
                Err(MarkitdownError::UnsupportedFormat(to_string(m.as_slice())))
            },
        }
    }
}

} // verus!
