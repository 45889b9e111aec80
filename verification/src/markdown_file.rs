//! Markdown files, passed through with line endings normalized.
use vstd::prelude::*;
use crate::bibtex::{replace_chars, replace_seq};
use crate::chars::{from_utf8_lossy, to_string, utf8_lossy};
use crate::error::MarkitdownError;
use crate::model::{ext_views, is_markdown_doc, markdown_document, opt_str, ConversionOptions, Document, DocumentConverter};
use crate::text::{chars_eq_str, chars_of, extend_chars, extend_str, trim, trim_chars};

verus! {

/// Markdown converter.
pub struct MarkdownConverter;

/// The text with CR LF and lone CR made LF, trimmed.
pub open spec fn normalized_markdown(s: Seq<char>) -> Seq<char> {
    trim(replace_seq(replace_seq(s, "\r\n"@, "\n"@), "\r"@, "\n"@))
}

/// The extensions of Markdown files.
pub open spec fn markdown_extension(e: Seq<char>) -> bool {
    e == ".md"@ || e == ".markdown"@ || e == ".mdown"@ || e == ".mkd"@
}

impl MarkdownConverter {
    /// A one-page document of the Markdown (decoded as UTF-8, invalid
    /// sequences replaced), line endings normalized and trimmed.
    pub fn convert_markdown(bytes: &[u8]) -> (r: Document)
        ensures
            is_markdown_doc(r, normalized_markdown(utf8_lossy(bytes@))),
    {
        let content = from_utf8_lossy(bytes);
        let a = replace_chars(content.as_slice(), "\r\n", "\n");
        let b = replace_chars(a.as_slice(), "\r", "\n");
        markdown_document(trim_chars(b.as_slice()))
    }

    /// Converts Markdown bytes; an extension hint that is not a Markdown
    /// extension is an invalid file.
    pub fn convert_bytes(&self, bytes: &[u8], options: Option<&ConversionOptions>) -> (r: Result<Document, MarkitdownError>)
        ensures
            match options {
                Some(o) => match opt_str(o.file_extension) {
                    Some(e) => if markdown_extension(e) {
                        r matches Ok(d) && is_markdown_doc(d, normalized_markdown(utf8_lossy(bytes@)))
                    } else {
                        r matches Err(MarkitdownError::InvalidFile(m)) && m@ == "Expected Markdown file, got "@ + e
                    },
                    None => r matches Ok(d) && is_markdown_doc(d, normalized_markdown(utf8_lossy(bytes@))),
                },
                None => r matches Ok(d) && is_markdown_doc(d, normalized_markdown(utf8_lossy(bytes@))),
            },
    {
        match options {
            Some(o) => match &o.file_extension {
                Some(e) => {
                    let c = chars_of(e.as_str());
                    let s = c.as_slice();
                    if !(chars_eq_str(s, ".md") || chars_eq_str(s, ".markdown") || chars_eq_str(s, ".mdown")
                        || chars_eq_str(s, ".mkd")) {
                        let mut m: Vec<char> = Vec::new();
                        extend_str(&mut m, "Expected Markdown file, got ");
                        extend_chars(&mut m, s);
                        return Err(MarkitdownError::InvalidFile(to_string(m.as_slice())));
                    }
                },
                None => {},
            },
            None => {},
        }
        Ok(Self::convert_markdown(bytes))
    }
}

impl DocumentConverter for MarkdownConverter {
    open spec fn extensions(&self) -> Seq<Seq<char>> {
        seq![".md"@, ".markdown"@, ".mdown"@, ".mkd"@]
    }

    fn supported_extensions(&self) -> (r: Vec<&'static str>) {
        let r = vec![".md", ".markdown", ".mdown", ".mkd"];
        assert(ext_views(r@) =~= self.extensions());
        r
    }
}

} // verus!
