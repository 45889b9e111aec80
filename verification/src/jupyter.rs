//! Jupyter notebooks to Markdown: Markdown cells as they are, code cells in
//! fenced blocks with their outputs, raw cells in plain fences.
use vstd::prelude::*;
use crate::chars::to_string;
use crate::html::{html_to_markdown, parse_html};
use crate::model::{ext_views, is_markdown_doc, markdown_document, opt_str, Document, DocumentConverter};
use crate::text::{chars_eq_str, chars_of, decimal, extend_chars, extend_str, join, join_chars, lemma_push_line, push_decimal};

verus! {

/// Jupyter notebook converter.
pub struct JupyterConverter;

/// The source of a cell or the text of an output: one string, or a list of
/// lines to be concatenated.
pub enum CellSource {
    Text(String),
    Lines(Vec<String>),
}

/// The mathematical content of a [`CellSource`].
pub enum CellSourceView {
    Text(Seq<char>),
    Lines(Seq<Seq<char>>),
}

impl View for CellSource {
    type V = CellSourceView;

    open spec fn view(&self) -> CellSourceView {
        match self {
            CellSource::Text(s) => CellSourceView::Text(s@),
            CellSource::Lines(v) => CellSourceView::Lines(v@.map_values(|s: String| s@)),
        }
    }
}

/// The text of a source: the string, or the lines concatenated.
pub open spec fn source_text(s: CellSourceView) -> Seq<char> {
    match s {
        CellSourceView::Text(t) => t,
        CellSourceView::Lines(ls) => join(ls, Seq::empty()),
    }
}

/// The data of an output: its plain-text and HTML forms, where given.
pub struct OutputData {
    pub text_plain: Option<CellSource>,
    pub text_html: Option<CellSource>,
}

/// An output of a code cell.
pub struct Output {
    pub output_type: String,
    pub text: Option<CellSource>,
    pub data: Option<OutputData>,
}

/// A cell: its type (`markdown`, `code`, `raw`), source and outputs.
pub struct Cell {
    pub cell_type: String,
    pub source: CellSource,
    pub outputs: Option<Vec<Output>>,
}

/// The kernel of a notebook.
pub struct KernelSpec {
    pub language: Option<String>,
}

/// The metadata of a notebook.
pub struct NotebookMetadata {
    pub kernelspec: Option<KernelSpec>,
}

/// A notebook: its cells and metadata.
pub struct Notebook {
    pub cells: Vec<Cell>,
    pub metadata: Option<NotebookMetadata>,
}

/// The view of an optional source.
pub open spec fn opt_source(s: Option<CellSource>) -> Option<CellSourceView> {
    match s {
        Some(x) => Some(x@),
        None => None,
    }
}

/// The text shown for an output: for a stream, result or display output,
/// its text, else its plain-text data, else its HTML data turned into
/// Markdown; for an error output a marker; otherwise nothing.
pub open spec fn output_text(o: Output) -> Seq<char> {
    if o.output_type@ == "stream"@ || o.output_type@ == "execute_result"@ || o.output_type@ == "display_data"@ {
        match opt_source(o.text) {
            Some(t) => source_text(t),
            None => match o.data {
                Some(d) => match opt_source(d.text_plain) {
                    Some(p) => source_text(p),
                    None => match opt_source(d.text_html) {
                        Some(h) => html_to_markdown(source_text(h)),
                        None => Seq::empty(),
                    },
                },
                None => Seq::empty(),
            },
        }
    } else if o.output_type@ == "error"@ {
        "[Error output]"@
    } else {
        Seq::empty()
    }
}

/// The text followed by a newline where it does not end with one.
pub open spec fn with_newline(s: Seq<char>) -> Seq<char> {
    if s.len() > 0 && s.last() == '\n' {
        s
    } else {
        s + "\n"@
    }
}

/// The blocks of the outputs that have text, in order.
pub open spec fn outputs_md(os: Seq<Output>) -> Seq<char>
    decreases os.len(),
{
    if os.len() == 0 {
        Seq::empty()
    } else {
        outputs_md(os.drop_last()) + {
            let t = output_text(os.last());
            if t.len() > 0 {
                "**Out:**\n\n"@ + "```\n"@ + with_newline(t) + "```\n\n"@
            } else {
                Seq::empty()
            }
        }
    }
}

/// The Markdown of the cell at position `i` (from 0) of a notebook in
/// language `lang`.
pub open spec fn cell_md(i: nat, c: Cell, lang: Seq<char>) -> Seq<char> {
    let src = source_text(c.source@);
    if c.cell_type@ == "markdown"@ {
        src + "\n\n"@
    } else if c.cell_type@ == "code"@ {
        "**In ["@ + decimal(i + 1) + "]:**\n\n"@ + "```"@ + lang + "\n"@ + with_newline(src) + "```\n\n"@
            + match c.outputs {
            Some(os) => outputs_md(os@),
            None => Seq::empty(),
        }
    } else if c.cell_type@ == "raw"@ {
        "```\n"@ + with_newline(src) + "```\n\n"@
    } else {
        Seq::empty()
    }
}

/// The Markdown of the cells, in order.
pub open spec fn cells_md(cs: Seq<Cell>, lang: Seq<char>) -> Seq<char>
    decreases cs.len(),
{
    if cs.len() == 0 {
        Seq::empty()
    } else {
        cells_md(cs.drop_last(), lang) + cell_md((cs.len() - 1) as nat, cs.last(), lang)
    }
}

/// The language of the notebook's kernel, `python` where none is given.
pub open spec fn notebook_language(nb: Notebook) -> Seq<char> {
    match nb.metadata {
        Some(m) => match m.kernelspec {
            Some(k) => match k.language {
                Some(l) => l@,
                None => "python"@,
            },
            None => "python"@,
        },
        None => "python"@,
    }
}

impl CellSource {
    /// The text of the source: the string, or the lines concatenated.
    pub fn to_string(&self) -> (r: String)
        ensures
            r@ == source_text(self@),
    {
        match self {
            CellSource::Text(s) => s.clone(),
            CellSource::Lines(v) => {
                let mut parts: Vec<Vec<char>> = Vec::new();
                let mut i: usize = 0;
                while i < v.len()
                    invariant
                        i <= v@.len(),
                        parts.deep_view() =~= v@.take(i as int).map_values(|s: String| s@),
                    decreases v@.len() - i,
                {
                    let c = chars_of(v[i].as_str());
                    let ghost before = parts.deep_view();
                    parts.push(c);
                    proof {
                        lemma_push_line(before, parts@, c);
                        assert(v@.take(i + 1) =~= v@.take(i as int).push(v@[i as int]));
                        assert(parts.deep_view() =~= before.push(c@));
                    }
                    i += 1;
                }
                assert(v@.take(i as int) =~= v@);
                let none: Vec<char> = Vec::new();
                let j = join_chars(&parts, none.as_slice());
                assert(none@ =~= Seq::<char>::empty());
                to_string(j.as_slice())
            },
        }
    }
}

/// Appends the text and a newline where it does not end with one.
fn push_with_newline(md: &mut Vec<char>, s: &[char])
    ensures
        final(md)@ == old(md)@ + with_newline(s@),
{
    extend_chars(md, s);
    if !(s.len() > 0 && s[s.len() - 1] == '\n') {
        extend_str(md, "\n");
    }
}

impl JupyterConverter {
    /// The text shown for an output.
    pub fn extract_output(output: &Output) -> (r: String)
        ensures
            r@ == output_text(*output),
    {
        let t = chars_of(output.output_type.as_str());
        let s = t.as_slice();
        if chars_eq_str(s, "stream") || chars_eq_str(s, "execute_result") || chars_eq_str(s, "display_data") {
            match &output.text {
                Some(text) => {
                    return text.to_string();
                },
                None => {},
            }
            match &output.data {
                Some(d) => {
                    match &d.text_plain {
                        Some(p) => {
                            return p.to_string();
                        },
                        None => {},
                    }
                    match &d.text_html {
                        Some(h) => {
                            let html = h.to_string();
                            return parse_html(html.as_str());
                        },
                        None => {},
                    }
                },
                None => {},
            }
        } else if chars_eq_str(s, "error") {
            return String::from_str("[Error output]");
        }
        String::new()
    }

    /// Converts a notebook to a one-page document: each cell as
    /// [`cell_md`] gives it, code cells fenced in the kernel's language.
    pub fn convert_notebook(notebook: &Notebook) -> (r: Document)
        ensures
            is_markdown_doc(r, cells_md(notebook.cells@, notebook_language(*notebook))),
    {
        let language: Vec<char> = match &notebook.metadata {
            Some(m) => match &m.kernelspec {
                Some(k) => match &k.language {
                    Some(l) => chars_of(l.as_str()),
                    None => chars_of("python"),
                },
                None => chars_of("python"),
            },
            None => chars_of("python"),
        };
        let ghost lang = notebook_language(*notebook);
        assert(language@ == lang);
        let ghost cs = notebook.cells@;
        let mut md: Vec<char> = Vec::new();
        let mut i: usize = 0;
        while i < notebook.cells.len()
            invariant
                i <= cs.len(),
                cs == notebook.cells@,
                language@ == lang,
                md@ == cells_md(cs.take(i as int), lang),
            decreases cs.len() - i,
        {
            let ghost before = md@;
            push_cell(&mut md, i, &notebook.cells[i], language.as_slice());
            proof {
                assert(cs.take(i + 1).drop_last() =~= cs.take(i as int));
            }
            i += 1;
        }
        assert(cs.take(i as int) =~= cs);
        markdown_document(md)
    }
}

/// Appends the blocks of the outputs.
fn push_outputs(md: &mut Vec<char>, os: &Vec<Output>)
    ensures
        final(md)@ == old(md)@ + outputs_md(os@),
{
    let ghost start = md@;
    let mut i: usize = 0;
    while i < os.len()
        invariant
            i <= os@.len(),
            md@ == start + outputs_md(os@.take(i as int)),
        decreases os@.len() - i,
    {
        let ghost before = md@;
        let t = chars_of(JupyterConverter::extract_output(&os[i]).as_str());
        if t.len() > 0 {
            extend_str(md, "**Out:**\n\n");
            extend_str(md, "```\n");
            push_with_newline(md, t.as_slice());
            extend_str(md, "```\n\n");
        }
        proof {
            assert(os@.take(i + 1).drop_last() =~= os@.take(i as int));
            assert(md@ =~= start + outputs_md(os@.take(i + 1)));
        }
        i += 1;
    }
    assert(os@.take(i as int) =~= os@);
}

/// Appends the Markdown of the cell at position `i`.
fn push_cell(md: &mut Vec<char>, i: usize, c: &Cell, lang: &[char])
    requires
        i < usize::MAX,
    ensures
        final(md)@ == old(md)@ + cell_md(i as nat, *c, lang@),
{
    let ghost start = md@;
    let t = chars_of(c.cell_type.as_str());
    let ty = t.as_slice();
    let src = chars_of(c.source.to_string().as_str());
    if chars_eq_str(ty, "markdown") {
        extend_chars(md, src.as_slice());
        extend_str(md, "\n\n");
    } else if chars_eq_str(ty, "code") {
        extend_str(md, "**In [");
        push_decimal(md, i + 1);
        extend_str(md, "]:**\n\n");
        extend_str(md, "```");
        extend_chars(md, lang);
        extend_str(md, "\n");
        push_with_newline(md, src.as_slice());
        extend_str(md, "```\n\n");
        let ghost mid = md@;
        match &c.outputs {
            Some(os) => push_outputs(md, os),
            None => {
                assert(mid + Seq::<char>::empty() =~= mid);
            },
        }
    } else if chars_eq_str(ty, "raw") {
        extend_str(md, "```\n");
        push_with_newline(md, src.as_slice());
        extend_str(md, "```\n\n");
    } else {
        assert(start + Seq::<char>::empty() =~= start);
    }
    assert(md@ =~= start + cell_md(i as nat, *c, lang@));
}

impl DocumentConverter for JupyterConverter {
    open spec fn extensions(&self) -> Seq<Seq<char>> {
        seq![".ipynb"@]
    }

    fn supported_extensions(&self) -> (r: Vec<&'static str>) {
        let r = vec![".ipynb"];
        assert(ext_views(r@) =~= self.extensions());
        r
    }
}

} // verus!
