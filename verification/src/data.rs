//! Data formats (JSON, YAML, TOML), plain text and source code as
//! Markdown: reformatted data and code in fenced blocks, text as it is.
use vstd::prelude::*;
use crate::chars::{from_utf8_lossy, to_lowercase, to_string, unicode_lowercase, utf8_lossy};
use crate::error::{is_parse_error, parse_error, MarkitdownError};
use crate::model::{
    ext_views, is_markdown_doc, markdown_document, opt_str, BlockView, ContentBlock, ConversionOptions,
    DocPageView, Document, DocumentConverter, DocumentView, Page,
};
use crate::text::{all_ascii, ascii_lower, chars_eq_str, chars_of, extend_chars, extend_str, trim, trim_chars};

verus! {

// ---------------------------------------------------------------------
// Reformatting with the serde crates
// ---------------------------------------------------------------------

/// The result of parsing a JSON text into a `serde_json::Value` and
/// pretty-printing it: the printed text, or whether parsing (rather than
/// printing) failed and the error's message.
pub uninterp spec fn json_reformat(content: Seq<char>) -> Result<Seq<char>, (bool, Seq<char>)>;

/// The same for YAML with `serde_yaml` (`from_str`, `to_string`).
pub uninterp spec fn yaml_reformat(content: Seq<char>) -> Result<Seq<char>, (bool, Seq<char>)>;

/// The same for TOML with `toml` (`from_str`, `to_string_pretty`).
pub uninterp spec fn toml_reformat(content: Seq<char>) -> Result<Seq<char>, (bool, Seq<char>)>;

/// The view of a reformatting result.
pub open spec fn reformat_view(r: Result<Vec<char>, (bool, Vec<char>)>) -> Result<Seq<char>, (bool, Seq<char>)> {
    match r {
        Ok(v) => Ok(v@),
        Err((p, m)) => Err((p, m@)),
    }
}

/// Calls `serde_json::from_str` into a `serde_json::Value`, then
/// `serde_json::to_string_pretty`.
#[verifier::external_body]
fn reformat_json(content: &str) -> (r: Result<Vec<char>, (bool, Vec<char>)>)
    ensures
        reformat_view(r) == json_reformat(content@),
{
    let v: serde_json::Value = match serde_json::from_str(content) {
        Ok(v) => v,
        Err(e) => return Err((true, e.to_string().chars().collect())),
    };
    match serde_json::to_string_pretty(&v) {
        Ok(s) => Ok(s.chars().collect()),
        Err(e) => Err((false, e.to_string().chars().collect())),
    }
}

/// Calls `serde_yaml::from_str` into a `serde_yaml::Value`, then
/// `serde_yaml::to_string`.
#[verifier::external_body]
fn reformat_yaml(content: &str) -> (r: Result<Vec<char>, (bool, Vec<char>)>)
    ensures
        reformat_view(r) == yaml_reformat(content@),
{
    let v: serde_yaml::Value = match serde_yaml::from_str(content) {
        Ok(v) => v,
        Err(e) => return Err((true, e.to_string().chars().collect())),
    };
    match serde_yaml::to_string(&v) {
        Ok(s) => Ok(s.chars().collect()),
        Err(e) => Err((false, e.to_string().chars().collect())),
    }
}

/// Calls `toml::from_str` into a `toml::Value`, then
/// `toml::to_string_pretty`.
#[verifier::external_body]
fn reformat_toml(content: &str) -> (r: Result<Vec<char>, (bool, Vec<char>)>)
    ensures
        reformat_view(r) == toml_reformat(content@),
{
    let v: toml::Value = match toml::from_str(content) {
        Ok(v) => v,
        Err(e) => return Err((true, e.to_string().chars().collect())),
    };
    match toml::to_string_pretty(&v) {
        Ok(s) => Ok(s.chars().collect()),
        Err(e) => Err((false, e.to_string().chars().collect())),
    }
}

/// The Markdown of reformatted data: a fenced block with the language tag,
/// the text trimmed when `trimmed`; or the parse error message, named after
/// the format and the failed stage.
pub open spec fn data_markdown(
    r: Result<Seq<char>, (bool, Seq<char>)>,
    format: Seq<char>,
    lang: Seq<char>,
    trimmed: bool,
) -> Result<Seq<char>, Seq<char>> {
    match r {
        Ok(p) => Ok("```"@ + lang + "\n"@ + (if trimmed {
            trim(p)
        } else {
            p
        }) + "\n```"@),
        Err((true, m)) => Err(format + " parse error: "@ + m),
        Err((false, m)) => Err(format + " format error: "@ + m),
    }
}

/// A one-page document of the Markdown, or the parse error.
fn data_document(
    r: Result<Vec<char>, (bool, Vec<char>)>,
    format: &str,
    lang: &str,
    trimmed: bool,
) -> (d: Result<Document, MarkitdownError>)
    ensures
        match data_markdown(reformat_view(r), format@, lang@, trimmed) {
            Ok(md) => d matches Ok(x) && is_markdown_doc(x, md),
            Err(m) => d matches Err(e) && is_parse_error(e, m),
        },
{
    match r {
        Ok(p) => {
            let mut md: Vec<char> = Vec::new();
            extend_str(&mut md, "```");
            extend_str(&mut md, lang);
            extend_str(&mut md, "\n");
            if trimmed {
                let t = trim_chars(p.as_slice());
                extend_chars(&mut md, t.as_slice());
            } else {
                extend_chars(&mut md, p.as_slice());
            }
            extend_str(&mut md, "\n```");
            Ok(markdown_document(md))
        },
        Err((parsing, m)) => {
            let mut prefix: Vec<char> = Vec::new();
            extend_str(&mut prefix, format);
            if parsing {
                extend_str(&mut prefix, " parse error: ");
            } else {
                extend_str(&mut prefix, " format error: ");
            }
            extend_chars(&mut prefix, m.as_slice());
            let e = parse_error("", prefix.as_slice());
            proof {
                reveal_strlit("");
            }
            assert(is_parse_error(e, data_markdown(reformat_view(r), format@, lang@, trimmed)->Err_0));
            Err(e)
        },
    }
}

/// JSON converter.
pub struct JsonConverter;

/// YAML converter.
pub struct YamlConverter;

/// TOML converter.
pub struct TomlConverter;

impl JsonConverter {
    /// Converts JSON bytes (decoded as UTF-8, invalid sequences replaced):
    /// the pretty-printed JSON in a `json` block.
    pub fn convert_json(bytes: &[u8]) -> (r: Result<Document, MarkitdownError>)
        ensures
            match data_markdown(json_reformat(utf8_lossy(bytes@)), "JSON"@, "json"@, false) {
                Ok(md) => r matches Ok(x) && is_markdown_doc(x, md),
                Err(m) => r matches Err(e) && is_parse_error(e, m),
            },
    {
        let content = to_string(from_utf8_lossy(bytes).as_slice());
        data_document(reformat_json(content.as_str()), "JSON", "json", false)
    }
}

impl YamlConverter {
    /// Converts YAML bytes: the reformatted YAML, trimmed, in a `yaml` block.
    pub fn convert_yaml(bytes: &[u8]) -> (r: Result<Document, MarkitdownError>)
        ensures
            match data_markdown(yaml_reformat(utf8_lossy(bytes@)), "YAML"@, "yaml"@, true) {
                Ok(md) => r matches Ok(x) && is_markdown_doc(x, md),
                Err(m) => r matches Err(e) && is_parse_error(e, m),
            },
    {
        let content = to_string(from_utf8_lossy(bytes).as_slice());
        data_document(reformat_yaml(content.as_str()), "YAML", "yaml", true)
    }
}

impl TomlConverter {
    /// Converts TOML bytes: the pretty-printed TOML, trimmed, in a `toml`
    /// block.
    pub fn convert_toml(bytes: &[u8]) -> (r: Result<Document, MarkitdownError>)
        ensures
            match data_markdown(toml_reformat(utf8_lossy(bytes@)), "TOML"@, "toml"@, true) {
                Ok(md) => r matches Ok(x) && is_markdown_doc(x, md),
                Err(m) => r matches Err(e) && is_parse_error(e, m),
            },
    {
        let content = to_string(from_utf8_lossy(bytes).as_slice());
        data_document(reformat_toml(content.as_str()), "TOML", "toml", true)
    }
}

impl DocumentConverter for JsonConverter {
    open spec fn extensions(&self) -> Seq<Seq<char>> {
        seq![".json"@]
    }

    fn supported_extensions(&self) -> (r: Vec<&'static str>) {
        let r = vec![".json"];
        assert(ext_views(r@) =~= self.extensions());
        r
    }
}

impl DocumentConverter for YamlConverter {
    open spec fn extensions(&self) -> Seq<Seq<char>> {
        seq![".yaml"@, ".yml"@]
    }

    fn supported_extensions(&self) -> (r: Vec<&'static str>) {
        let r = vec![".yaml", ".yml"];
        assert(ext_views(r@) =~= self.extensions());
        r
    }
}

impl DocumentConverter for TomlConverter {
    open spec fn extensions(&self) -> Seq<Seq<char>> {
        seq![".toml"@]
    }

    fn supported_extensions(&self) -> (r: Vec<&'static str>) {
        let r = vec![".toml"];
        assert(ext_views(r@) =~= self.extensions());
        r
    }
}

// ---------------------------------------------------------------------
// Plain text
// ---------------------------------------------------------------------

/// Plain text and Markdown converter.
pub struct TextConverter;

/// A one-page document holding the text as Markdown or as plain text.
pub open spec fn text_document(content: Seq<char>, is_markdown: bool) -> DocumentView {
    DocumentView {
        title: None,
        pages: seq![
            DocPageView {
                page_number: 1,
                content: seq![
                    if is_markdown {
                        BlockView::Markdown(content)
                    } else {
                        BlockView::Text(content)
                    },
                ],
                rendered_image: None,
            },
        ],
        metadata: seq![],
    }
}

/// The extension hint marks Markdown: it is `.md` or `.markdown`.
pub open spec fn markdown_hint(options: Option<&ConversionOptions>) -> bool {
    match options {
        Some(o) => match opt_str(o.file_extension) {
            Some(e) => e == ".md"@ || e == ".markdown"@,
            None => false,
        },
        None => false,
    }
}

impl TextConverter {
    /// A one-page document of the text (decoded as UTF-8, invalid sequences
    /// replaced), as Markdown or as plain text.
    pub fn convert_text(bytes: &[u8], is_markdown: bool) -> (r: Document)
        ensures
            r@ == text_document(utf8_lossy(bytes@), is_markdown),
    {
        let content = to_string(from_utf8_lossy(bytes).as_slice());
        let mut page = Page::new(1);
        if is_markdown {
            page.add_content(ContentBlock::Markdown(content));
        } else {
            page.add_content(ContentBlock::Text(content));
        }
        assert(page@.content =~= text_document(utf8_lossy(bytes@), is_markdown).pages[0].content);
        let mut document = Document::new();
        document.add_page(page);
        assert(document@.metadata =~= Seq::<(Seq<char>, Seq<char>)>::empty());
        assert(document@.pages =~= text_document(utf8_lossy(bytes@), is_markdown).pages);
        document
    }

    /// Converts text bytes: Markdown when the extension hint is `.md` or
    /// `.markdown`, plain text otherwise.
    pub fn convert_bytes(&self, bytes: &[u8], options: Option<&ConversionOptions>) -> (r: Document)
        ensures
            r@ == text_document(utf8_lossy(bytes@), markdown_hint(options)),
    {
        let is_markdown = match options {
            Some(o) => match &o.file_extension {
                Some(e) => {
                    let c = chars_of(e.as_str());
                    chars_eq_str(c.as_slice(), ".md") || chars_eq_str(c.as_slice(), ".markdown")
                },
                None => false,
            },
            None => false,
        };
        Self::convert_text(bytes, is_markdown)
    }
}

impl DocumentConverter for TextConverter {
    open spec fn extensions(&self) -> Seq<Seq<char>> {
        seq![".txt"@, ".text"@, ".md"@, ".markdown"@, ".log"@]
    }

    fn supported_extensions(&self) -> (r: Vec<&'static str>) {
        let r = vec![".txt", ".text", ".md", ".markdown", ".log"];
        assert(ext_views(r@) =~= self.extensions());
        r
    }
}

// ---------------------------------------------------------------------
// Source code
// ---------------------------------------------------------------------

/// Source code converter.
pub struct CodeConverter;

/// The code block language of each extension.
pub open spec fn language_table() -> Seq<(Seq<char>, Seq<char>)> {
    seq![
        (".rs"@, "rust"@), (".py"@, "python"@), (".js"@, "javascript"@), (".ts"@, "typescript"@),
        (".jsx"@, "jsx"@), (".tsx"@, "tsx"@), (".go"@, "go"@), (".java"@, "java"@), (".c"@, "c"@),
        (".cpp"@, "cpp"@), (".cc"@, "cpp"@), (".cxx"@, "cpp"@), (".h"@, "cpp"@), (".hpp"@, "cpp"@),
        (".cs"@, "csharp"@), (".rb"@, "ruby"@), (".php"@, "php"@), (".swift"@, "swift"@),
        (".kt"@, "kotlin"@), (".kts"@, "kotlin"@), (".scala"@, "scala"@), (".sh"@, "bash"@),
        (".bash"@, "bash"@), (".zsh"@, "zsh"@), (".ps1"@, "powershell"@), (".sql"@, "sql"@),
        (".r"@, "r"@), (".lua"@, "lua"@), (".pl"@, "perl"@), (".ex"@, "elixir"@),
        (".exs"@, "elixir"@), (".erl"@, "erlang"@), (".hs"@, "haskell"@), (".ml"@, "ocaml"@),
        (".mli"@, "ocaml"@), (".fs"@, "fsharp"@), (".fsx"@, "fsharp"@), (".clj"@, "clojure"@),
        (".cljs"@, "clojure"@), (".vim"@, "vim"@), (".dockerfile"@, "dockerfile"@),
        (".tf"@, "terraform"@), (".proto"@, "protobuf"@), (".graphql"@, "graphql"@),
        (".gql"@, "graphql"@), (".css"@, "css"@), (".scss"@, "scss"@), (".sass"@, "scss"@),
        (".less"@, "less"@), (".vue"@, "vue"@), (".svelte"@, "svelte"@),
    ]
}

/// The language of the first entry of `table` for the extension, or empty.
pub open spec fn lookup_language(table: Seq<(Seq<char>, Seq<char>)>, ext: Seq<char>) -> Seq<char>
    decreases table.len(),
{
    if table.len() == 0 {
        seq![]
    } else if table[0].0 == ext {
        table[0].1
    } else {
        lookup_language(table.drop_first(), ext)
    }
}

/// The code block language of an extension: looked up after lowercasing.
pub open spec fn language_of(ext: Seq<char>) -> Seq<char> {
    lookup_language(language_table(), unicode_lowercase(ext))
}

/// The view of a table of string pairs.
pub open spec fn pairs_view(v: Seq<(&str, &str)>) -> Seq<(Seq<char>, Seq<char>)> {
    v.map_values(|p: (&str, &str)| (p.0@, p.1@))
}

/// The code block language table.
fn languages() -> (r: Vec<(&'static str, &'static str)>)
    ensures
        pairs_view(r@) == language_table(),
{
    let r = vec![
        (".rs", "rust"), (".py", "python"), (".js", "javascript"), (".ts", "typescript"),
        (".jsx", "jsx"), (".tsx", "tsx"), (".go", "go"), (".java", "java"), (".c", "c"),
        (".cpp", "cpp"), (".cc", "cpp"), (".cxx", "cpp"), (".h", "cpp"), (".hpp", "cpp"),
        (".cs", "csharp"), (".rb", "ruby"), (".php", "php"), (".swift", "swift"),
        (".kt", "kotlin"), (".kts", "kotlin"), (".scala", "scala"), (".sh", "bash"),
        (".bash", "bash"), (".zsh", "zsh"), (".ps1", "powershell"), (".sql", "sql"),
        (".r", "r"), (".lua", "lua"), (".pl", "perl"), (".ex", "elixir"),
        (".exs", "elixir"), (".erl", "erlang"), (".hs", "haskell"), (".ml", "ocaml"),
        (".mli", "ocaml"), (".fs", "fsharp"), (".fsx", "fsharp"), (".clj", "clojure"),
        (".cljs", "clojure"), (".vim", "vim"), (".dockerfile", "dockerfile"),
        (".tf", "terraform"), (".proto", "protobuf"), (".graphql", "graphql"),
        (".gql", "graphql"), (".css", "css"), (".scss", "scss"), (".sass", "scss"),
        (".less", "less"), (".vue", "vue"), (".svelte", "svelte"),
    ];
    assert(pairs_view(r@) =~= language_table());
    r
}

/// The code block document of source code: the text (decoded as UTF-8,
/// invalid sequences replaced) in a block tagged with the language.
pub open spec fn code_markdown(content: Seq<char>, ext: Seq<char>) -> Seq<char> {
    "```"@ + language_of(ext) + "\n"@ + content + "\n```"@
}

impl CodeConverter {
    /// The code block language of a file extension (ignoring case), empty
    /// for an unknown extension.
    pub fn get_language(extension: &str) -> (r: &'static str)
        ensures
            r@ == language_of(extension@),
            all_ascii(extension@) ==> r@ == lookup_language(language_table(), extension@.map_values(|c: char| ascii_lower(c))),
    {
        let lower = to_lowercase(chars_of(extension).as_slice());
        let table = languages();
        let ghost tv = pairs_view(table@);
        assert(tv.skip(0) =~= tv);
        let mut i: usize = 0;
        while i < table.len()
            invariant
                i <= table@.len(),
                tv == pairs_view(table@),
                tv == language_table(),
                lower@ == unicode_lowercase(extension@),
                all_ascii(extension@) ==> lower@ == extension@.map_values(|c: char| ascii_lower(c)),
                lookup_language(tv, lower@) == lookup_language(tv.skip(i as int), lower@),
            decreases table@.len() - i,
        {
            let ghost rest = tv.skip(i as int);
            assert(rest[0] == (table@[i as int].0@, table@[i as int].1@));
            if chars_eq_str(lower.as_slice(), table[i].0) {
                assert(lookup_language(rest, lower@) == rest[0].1);
                return table[i].1;
            }
            assert(rest.drop_first() =~= tv.skip(i + 1));
            i += 1;
        }
        assert(tv.skip(i as int) =~= Seq::<(Seq<char>, Seq<char>)>::empty());
        proof {
            reveal_strlit("");
        }
        ""
    }

    /// Converts source code to a one-page document of a fenced block with
    /// the language of the extension.
    pub fn convert_code(bytes: &[u8], extension: &str) -> (r: Document)
        ensures
            is_markdown_doc(r, code_markdown(utf8_lossy(bytes@), extension@)),
    {
        let content = from_utf8_lossy(bytes);
        let language = Self::get_language(extension);
        let mut md: Vec<char> = Vec::new();
        extend_str(&mut md, "```");
        extend_str(&mut md, language);
        extend_str(&mut md, "\n");
        extend_chars(&mut md, content.as_slice());
        extend_str(&mut md, "\n```");
        markdown_document(md)
    }

    /// Converts source code with the extension hint of the options (none:
    /// no language).
    pub fn convert_bytes(&self, bytes: &[u8], options: Option<&ConversionOptions>) -> (r: Document)
        ensures
            is_markdown_doc(
                r,
                code_markdown(
                    utf8_lossy(bytes@),
                    match options {
                        Some(o) => match opt_str(o.file_extension) {
                            Some(e) => e,
                            None => seq![],
                        },
                        None => seq![],
                    },
                ),
            ),
    {
        proof {
            reveal_strlit("");
        }
        assert(""@ =~= Seq::<char>::empty());
        match options {
            Some(o) => match &o.file_extension {
                Some(e) => {
                    let es = e.as_str();
                    assert(es@ == e@);
                    assert(opt_str(o.file_extension) == Some(e@));
                    Self::convert_code(bytes, es)
                },
                None => {
                    let r = Self::convert_code(bytes, "");
                    proof {
                        reveal_strlit("");
                    }
                    r
                },
            },
            None => {
                let r = Self::convert_code(bytes, "");
                proof {
                    reveal_strlit("");
                }
                r
            },
        }
    }
}

impl DocumentConverter for CodeConverter {
    open spec fn extensions(&self) -> Seq<Seq<char>> {
        language_table().map_values(|p: (Seq<char>, Seq<char>)| p.0)
    }

    fn supported_extensions(&self) -> (r: Vec<&'static str>) {
        let table = languages();
        let mut r: Vec<&'static str> = Vec::new();
        let mut i: usize = 0;
        while i < table.len()
            invariant
                i <= table@.len(),
                pairs_view(table@) == language_table(),
                ext_views(r@) =~= language_table().map_values(|p: (Seq<char>, Seq<char>)| p.0).take(i as int),
            decreases table@.len() - i,
        {
            let ghost before = r@;
            r.push(table[i].0);
            assert(pairs_view(table@)[i as int] == (table@[i as int].0@, table@[i as int].1@));
            assert(ext_views(r@) =~= ext_views(before).push(table@[i as int].0@));
            assert(language_table().map_values(|p: (Seq<char>, Seq<char>)| p.0).take(i + 1) =~= language_table().map_values(
                |p: (Seq<char>, Seq<char>)| p.0,
            ).take(i as int).push(language_table()[i as int].0));
            i += 1;
        }
        assert(language_table().map_values(|p: (Seq<char>, Seq<char>)| p.0).take(i as int) =~= language_table().map_values(
            |p: (Seq<char>, Seq<char>)| p.0,
        ));
        r
    }
}

} // verus!
