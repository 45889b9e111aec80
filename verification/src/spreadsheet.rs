//! Spreadsheets read with the `calamine` crate: XLSX workbooks as one page
//! per sheet with its table, and legacy XLS workbooks as one Markdown page.
use vstd::prelude::*;
use calamine::Reader;
use crate::chars::to_string;
use crate::error::{parse_error, MarkitdownError};
use crate::model::{
    ext_views, is_markdown_doc, markdown_document, opt_str, strs, BlockView, ContentBlock, ConversionOptions,
    DocPageView, Document, DocumentConverter, DocumentView, Page,
};
use crate::sqlite::{data_row_md, data_rows_md, escape_cell};
use crate::text::{chars_eq_str, chars_of, decimal, extend_chars, extend_str, join, push_decimal};

verus! {

/// The sheet names of an XLSX workbook as `Xlsx::new` and `sheet_names`
/// give them, or the message of the error of `Xlsx::new`.
pub uninterp spec fn xlsx_sheet_names(data: Seq<u8>) -> Result<Seq<Seq<char>>, Seq<char>>;

/// The rows of the named sheet of an XLSX workbook, each cell as its
/// `Display` writes it; none where `worksheet_range` fails.
pub uninterp spec fn xlsx_rows(data: Seq<u8>, sheet: Seq<char>) -> Option<Seq<Seq<Seq<char>>>>;

/// The sheet names of a workbook opened by `open_workbook_auto_from_rs`,
/// or the message of its error.
pub uninterp spec fn auto_sheet_names(data: Seq<u8>) -> Result<Seq<Seq<char>>, Seq<char>>;

/// The rows of the named sheet of a workbook opened by
/// `open_workbook_auto_from_rs`; none where `worksheet_range` fails.
pub uninterp spec fn auto_rows(data: Seq<u8>, sheet: Seq<char>) -> Option<Seq<Seq<Seq<char>>>>;

/// The views of rows of strings.
pub open spec fn rows_view(r: Vec<Vec<String>>) -> Seq<Seq<Seq<char>>> {
    r@.map_values(|row: Vec<String>| strs(row@))
}

/// The views of optional rows.
pub open spec fn opt_rows(r: Option<Vec<Vec<String>>>) -> Option<Seq<Seq<Seq<char>>>> {
    match r {
        Some(v) => Some(rows_view(v)),
        None => None,
    }
}

/// Opens an XLSX workbook with `Xlsx::new` and gives its `sheet_names`.
#[verifier::external_body]
fn open_xlsx_sheets(data: &[u8]) -> (r: Result<Vec<String>, String>)
    ensures
        match r {
            Ok(v) => xlsx_sheet_names(data@) == Ok::<Seq<Seq<char>>, Seq<char>>(strs(v@)),
            Err(m) => xlsx_sheet_names(data@) == Err::<Seq<Seq<char>>, Seq<char>>(m@),
        },
{
    match calamine::Xlsx::new(std::io::Cursor::new(data)) {
        Ok(wb) => Ok(wb.sheet_names()),
        Err(e) => Err(e.to_string()),
    }
}

/// Opens an XLSX workbook and gives the cells of `worksheet_range(sheet)`,
/// row by row, each as `to_string` writes it.
#[verifier::external_body]
fn xlsx_sheet_rows(data: &[u8], sheet: &str) -> (r: Option<Vec<Vec<String>>>)
    ensures
        opt_rows(r) == xlsx_rows(data@, sheet@),
{
    let mut wb: calamine::Xlsx<_> = calamine::Xlsx::new(std::io::Cursor::new(data)).ok()?;
    let range = wb.worksheet_range(sheet).ok()?;
    Some(range.rows().map(|row| row.iter().map(|c| c.to_string()).collect()).collect())
}

/// Opens a workbook with `open_workbook_auto_from_rs` and gives its
/// `sheet_names`.
#[verifier::external_body]
pub(crate) fn open_auto_sheets(data: &[u8]) -> (r: Result<Vec<String>, String>)
    ensures
        match r {
            Ok(v) => auto_sheet_names(data@) == Ok::<Seq<Seq<char>>, Seq<char>>(strs(v@)),
            Err(m) => auto_sheet_names(data@) == Err::<Seq<Seq<char>>, Seq<char>>(m@),
        },
{
    match calamine::open_workbook_auto_from_rs(std::io::Cursor::new(data.to_vec())) {
        Ok(wb) => Ok(wb.sheet_names()),
        Err(e) => Err(e.to_string()),
    }
}

/// Opens a workbook with `open_workbook_auto_from_rs` and gives the cells
/// of `worksheet_range(sheet)`, row by row, each as `to_string` writes it.
#[verifier::external_body]
pub(crate) fn auto_sheet_rows(data: &[u8], sheet: &str) -> (r: Option<Vec<Vec<String>>>)
    ensures
        opt_rows(r) == auto_rows(data@, sheet@),
{
    let mut wb = calamine::open_workbook_auto_from_rs(std::io::Cursor::new(data.to_vec())).ok()?;
    let range = wb.worksheet_range(sheet).ok()?;
    Some(range.rows().map(|row| row.iter().map(|c| c.to_string()).collect()).collect())
}

/// XLSX converter.
pub struct ExcelConverter;

/// Legacy XLS converter.
pub struct XlsConverter;

/// The page of the `idx`-th sheet (from 0): its name as a level-2 heading
/// and, where its rows were read and there is one, a table whose header is
/// the first row.
pub open spec fn sheet_page(idx: int, name: Seq<char>, rows: Option<Seq<Seq<Seq<char>>>>) -> DocPageView {
    DocPageView {
        page_number: (idx + 1) as u32,
        content: seq![BlockView::Heading { level: 2, text: name }] + match rows {
            Some(r) => if r.len() > 0 {
                seq![BlockView::Table { headers: r[0], rows: r.skip(1) }]
            } else {
                Seq::empty()
            },
            None => Seq::empty(),
        },
        rendered_image: None,
    }
}

/// The document of an XLSX workbook with these sheets: one page per sheet,
/// or one empty page where there is no sheet.
pub open spec fn xlsx_document(data: Seq<u8>, names: Seq<Seq<char>>) -> DocumentView {
    DocumentView {
        title: None,
        pages: if names.len() == 0 {
            seq![DocPageView { page_number: 1, content: Seq::empty(), rendered_image: None }]
        } else {
            Seq::new(names.len(), |i: int| sheet_page(i, names[i], xlsx_rows(data, names[i])))
        },
        metadata: Seq::empty(),
    }
}

/// The result for XLSX bytes.
pub open spec fn xlsx_result(data: Seq<u8>, r: Result<Document, MarkitdownError>) -> bool {
    match xlsx_sheet_names(data) {
        Ok(names) => r matches Ok(d) && d@ == xlsx_document(data, names),
        Err(m) => r matches Err(MarkitdownError::ParseError(x)) && x@ == "Failed to open Excel file: "@ + m,
    }
}

/// Every row is empty.
pub open spec fn all_rows_empty(rows: Seq<Seq<Seq<char>>>) -> bool {
    forall|i: int| 0 <= i < rows.len() ==> #[trigger] rows[i].len() == 0
}

/// The section of a legacy sheet whose rows were read: its name, then a note
/// where it has no rows, nothing more where all rows are empty, else the
/// table of the first row and at most 100 further rows (cells escaped) and a
/// note of how many rows were left out.
pub open spec fn xls_sheet_md(name: Seq<char>, rows: Seq<Seq<Seq<char>>>) -> Seq<char> {
    "## Sheet: "@ + name + "\n\n"@ + if rows.len() == 0 {
        "*Empty sheet*\n\n"@
    } else if all_rows_empty(rows) {
        Seq::empty()
    } else {
        xls_table_md(rows)
    }
}

/// The table of a legacy sheet: the first row as header, a separator per
/// header cell, at most 100 further rows, and a note of the rows left out.
pub open spec fn xls_table_md(rows: Seq<Seq<Seq<char>>>) -> Seq<char> {
    {
        data_row_md(rows[0]) + "|"@ + join(Seq::new(rows[0].len(), |i: int| "---"@), "|"@) + "|\n"@
            + data_rows_md(rows.subrange(1, if rows.len() > 101 { 101 } else { rows.len() as int })) + (if rows.len()
            > 101 {
            "\n*... and "@ + decimal((rows.len() - 101) as nat) + " more rows*\n"@
        } else {
            Seq::empty()
        }) + "\n"@
    }
}

/// The sections of the sheets, in order; a sheet whose rows cannot be read
/// is left out.
pub open spec fn xls_sheets_md(data: Seq<u8>, names: Seq<Seq<char>>) -> Seq<char>
    decreases names.len(),
{
    if names.len() == 0 {
        Seq::empty()
    } else {
        xls_sheets_md(data, names.drop_last()) + match auto_rows(data, names.last()) {
            Some(rows) => xls_sheet_md(names.last(), rows),
            None => Seq::empty(),
        }
    }
}

/// The result for legacy XLS bytes.
pub open spec fn xls_result(data: Seq<u8>, r: Result<Document, MarkitdownError>) -> bool {
    match auto_sheet_names(data) {
        Ok(names) => r matches Ok(d) && is_markdown_doc(
            d,
            "# Excel Spreadsheet (.xls)\n\n"@ + xls_sheets_md(data, names),
        ),
        Err(m) => r matches Err(MarkitdownError::ParseError(x)) && x@ == "XLS parse error: "@ + m,
    }
}

/// The page of one XLSX sheet.
fn sheet_to_page(idx: usize, name: &String, rows: Option<Vec<Vec<String>>>) -> (r: Page)
    requires
        idx < usize::MAX,
    ensures
        r@ == sheet_page(idx as int, name@, opt_rows(rows)),
{
    let mut page = Page::new((idx + 1) as u32);
    page.add_content(ContentBlock::Heading { level: 2, text: name.clone() });
    let ghost h = page@.content;
    match rows {
        Some(r) => {
            if r.len() > 0 {
                let ghost rv = rows_view(r);
                let mut r = r;
                let headers = r.remove(0);
                assert(strs(headers@) == rv[0]);
                assert(rows_view(r) =~= rv.skip(1));
                page.add_content(ContentBlock::Table { headers, rows: r });
                assert(page@.content =~= h.push(BlockView::Table { headers: rv[0], rows: rv.skip(1) }));
            }
        },
        None => {},
    }
    assert(page@.content =~= sheet_page(idx as int, name@, opt_rows(rows)).content);
    page
}

impl ExcelConverter {
    /// Converts XLSX bytes: one page per sheet (see [`sheet_page`]), or a
    /// parse error where the workbook cannot be opened.
    pub fn convert_excel_bytes(&self, bytes: &[u8]) -> (r: Result<Document, MarkitdownError>)
        ensures
            xlsx_result(bytes@, r),
    {
        let names = match open_xlsx_sheets(bytes) {
            Ok(v) => v,
            Err(m) => {
                let mc = chars_of(m.as_str());
                return Err(parse_error("Failed to open Excel file: ", mc.as_slice()));
            },
        };
        let ghost nv = strs(names@);
        let mut doc = Document::new();
        let mut i: usize = 0;
        while i < names.len()
            invariant
                i <= names@.len(),
                nv == strs(names@),
                doc.title is None,
                doc@.metadata.len() == 0,
                doc@.pages =~= Seq::new(i as nat, |k: int| sheet_page(k, nv[k], xlsx_rows(bytes@, nv[k]))),
            decreases names@.len() - i,
        {
            let rows = xlsx_sheet_rows(bytes, names[i].as_str());
            let page = sheet_to_page(i, &names[i], rows);
            let ghost before = doc@.pages;
            let ghost pv = page@;
            assert(names@[i as int]@ == nv[i as int]);
            doc.add_page(page);
            assert(doc@.pages =~= before.push(pv));
            i += 1;
        }
        if names.len() == 0 {
            let p = Page::new(1);
            let ghost pv = p@;
            doc.add_page(p);
            assert(pv.content =~= Seq::<BlockView>::empty());
            assert(doc@.pages =~= seq![pv]);
        }
        assert(doc@.pages =~= xlsx_document(bytes@, nv).pages);
        assert(doc@.metadata =~= Seq::<(Seq<char>, Seq<char>)>::empty());
        Ok(doc)
    }

    /// Converts XLSX bytes; an extension hint other than `.xlsx` or `.xls`
    /// (compared exactly) is an invalid file.
    pub fn convert_bytes(&self, bytes: &[u8], options: Option<&ConversionOptions>) -> (r: Result<Document, MarkitdownError>)
        ensures
            match options {
                Some(o) => match opt_str(o.file_extension) {
                    Some(e) => if e == ".xlsx"@ || e == ".xls"@ {
                        xlsx_result(bytes@, r)
                    } else {
                        r matches Err(MarkitdownError::InvalidFile(m)) && m@ == "Expected .xlsx or .xls file, got "@ + e
                    },
                    None => xlsx_result(bytes@, r),
                },
                None => xlsx_result(bytes@, r),
            },
    {
        match options {
            Some(o) => match &o.file_extension {
                Some(e) => {
                    let c = chars_of(e.as_str());
                    let s = c.as_slice();
                    if !(chars_eq_str(s, ".xlsx") || chars_eq_str(s, ".xls")) {
                        let mut m: Vec<char> = Vec::new();
                        extend_str(&mut m, "Expected .xlsx or .xls file, got ");
                        extend_chars(&mut m, s);
                        return Err(MarkitdownError::InvalidFile(to_string(m.as_slice())));
                    }
                },
                None => {},
            },
            None => {},
        }
        self.convert_excel_bytes(bytes)
    }
}

/// Appends a row of escaped cells.
fn push_row(md: &mut Vec<char>, row: &Vec<String>)
    ensures
        final(md)@ == old(md)@ + data_row_md(strs(row@)),
{
    let ghost rv = strs(row@);
    let mut parts: Vec<Vec<char>> = Vec::new();
    let mut i: usize = 0;
    while i < row.len()
        invariant
            i <= row@.len(),
            rv == strs(row@),
            parts.deep_view() =~= rv.take(i as int).map_values(|v: Seq<char>| escape_cell(v)),
        decreases row@.len() - i,
    {
        let v = chars_of(row[i].as_str());
        let e = crate::bibtex::replace_chars(v.as_slice(), "|", "\\|");
        let ghost before = parts.deep_view();
        parts.push(e);
        proof {
            crate::text::lemma_push_line(before, parts@, e);
            assert(rv.take(i + 1) =~= rv.take(i as int).push(rv[i as int]));
            assert(parts.deep_view() =~= before.push(e@));
        }
        i += 1;
    }
    assert(rv.take(i as int) =~= rv);
    extend_str(md, "| ");
    let j = crate::text::join_chars(&parts, chars_of(" | ").as_slice());
    extend_chars(md, j.as_slice());
    extend_str(md, " |\n");
}

/// Whether every row is empty.
pub(crate) fn rows_all_empty(rows: &Vec<Vec<String>>) -> (r: bool)
    ensures
        r == all_rows_empty(rows_view(*rows)),
{
    let ghost rv = rows_view(*rows);
    let mut k: usize = 0;
    while k < rows.len()
        invariant
            k <= rows@.len(),
            rv == rows_view(*rows),
            all_rows_empty(rv.take(k as int)),
        decreases rows@.len() - k,
    {
        assert(rv[k as int].len() == rows@[k as int]@.len());
        if rows[k].len() > 0 {
            assert(rv[k as int].len() != 0);
            return false;
        }
        assert forall|j: int| 0 <= j < k + 1 implies #[trigger] rv.take(k + 1)[j].len() == 0 by {
            if j < k {
                assert(rv.take(k + 1)[j] == rv.take(k as int)[j]);
            }
        }
        k += 1;
    }
    assert(rv.take(k as int) =~= rv);
    true
}

/// Appends the table of a legacy sheet.
fn push_xls_table(md: &mut Vec<char>, rows: &Vec<Vec<String>>)
    requires
        rows@.len() > 0,
    ensures
        final(md)@ == old(md)@ + xls_table_md(rows_view(*rows)),
{
    let ghost rv = rows_view(*rows);
    let ghost start = md@;
    push_row(md, &rows[0]);
    extend_str(md, "|");
    let mut seps: Vec<Vec<char>> = Vec::new();
    let mut c: usize = 0;
    while c < rows[0].len()
        invariant
            c <= rows@[0]@.len(),
            rows@.len() > 0,
            seps.deep_view() =~= Seq::new(c as nat, |x: int| "---"@),
        decreases rows@[0]@.len() - c,
    {
        let d = chars_of("---");
        let ghost b = seps.deep_view();
        seps.push(d);
        proof {
            crate::text::lemma_push_line(b, seps@, d);
            assert(seps.deep_view() =~= b.push(d@));
        }
        c += 1;
    }
    let j = crate::text::join_chars(&seps, chars_of("|").as_slice());
    extend_chars(md, j.as_slice());
    extend_str(md, "|\n");
    let ghost after_sep = md@;
    let limit: usize = if rows.len() > 101 {
        101
    } else {
        rows.len()
    };
    let ghost body = rv.subrange(1, limit as int);
    let mut i: usize = 1;
    while i < limit
        invariant
            1 <= i <= limit <= rows@.len(),
            rv == rows_view(*rows),
            body == rv.subrange(1, limit as int),
            md@ == after_sep + data_rows_md(body.take(i - 1)),
        decreases limit - i,
    {
        push_row(md, &rows[i]);
        proof {
            assert(body.take(i as int).drop_last() =~= body.take(i - 1));
            assert(body.take(i as int).last() == rv[i as int]);
        }
        i += 1;
    }
    assert(body.take(i - 1) =~= body);
    let ghost before_tail = md@;
    if rows.len() > 101 {
        extend_str(md, "\n*... and ");
        push_decimal(md, rows.len() - 101);
        extend_str(md, " more rows*\n");
    }
    extend_str(md, "\n");
    assert(md@ =~= start + xls_table_md(rv));
}

/// Appends the section of a legacy sheet.
fn push_xls_sheet(md: &mut Vec<char>, name: &String, rows: &Vec<Vec<String>>)
    ensures
        final(md)@ == old(md)@ + xls_sheet_md(name@, rows_view(*rows)),
{
    let ghost rv = rows_view(*rows);
    let ghost start = md@;
    extend_str(md, "## Sheet: ");
    extend_str(md, name.as_str());
    extend_str(md, "\n\n");
    if rows.len() == 0 {
        extend_str(md, "*Empty sheet*\n\n");
    } else if !rows_all_empty(rows) {
        push_xls_table(md, rows);
    }
    assert(md@ =~= start + xls_sheet_md(name@, rv));
}

impl XlsConverter {
    /// Converts legacy XLS bytes to a one-page document: a heading, then the
    /// section of each sheet whose rows can be read (see [`xls_sheet_md`]);
    /// a workbook that cannot be opened is a parse error.
    pub fn convert_xls(bytes: &[u8]) -> (r: Result<Document, MarkitdownError>)
        ensures
            xls_result(bytes@, r),
    {
        let names = match open_auto_sheets(bytes) {
            Ok(v) => v,
            Err(m) => {
                let mc = chars_of(m.as_str());
                return Err(parse_error("XLS parse error: ", mc.as_slice()));
            },
        };
        let ghost nv = strs(names@);
        let mut md: Vec<char> = Vec::new();
        extend_str(&mut md, "# Excel Spreadsheet (.xls)\n\n");
        let ghost head = md@;
        let mut i: usize = 0;
        while i < names.len()
            invariant
                i <= names@.len(),
                nv == strs(names@),
                md@ == head + xls_sheets_md(bytes@, nv.take(i as int)),
            decreases names@.len() - i,
        {
            let ghost before = md@;
            match auto_sheet_rows(bytes, names[i].as_str()) {
                Some(rows) => {
                    push_xls_sheet(&mut md, &names[i], &rows);
                },
                None => {},
            }
            proof {
                assert(nv.take(i + 1).drop_last() =~= nv.take(i as int));
                assert(nv.take(i + 1).last() == nv[i as int]);
            }
            i += 1;
        }
        assert(nv.take(i as int) =~= nv);
        Ok(markdown_document(md))
    }

    /// Converts legacy XLS bytes (the options are not used).
    pub fn convert_bytes(&self, bytes: &[u8], options: Option<&ConversionOptions>) -> (r: Result<Document, MarkitdownError>)
        ensures
            xls_result(bytes@, r),
    {
        Self::convert_xls(bytes)
    }
}

impl DocumentConverter for ExcelConverter {
    open spec fn extensions(&self) -> Seq<Seq<char>> {
        seq![".xlsx"@, ".xls"@]
    }

    fn supported_extensions(&self) -> (r: Vec<&'static str>) {
        let r = vec![".xlsx", ".xls"];
        assert(ext_views(r@) =~= self.extensions());
        r
    }
}

impl DocumentConverter for XlsConverter {
    open spec fn extensions(&self) -> Seq<Seq<char>> {
        seq![".xls"@]
    }

    fn supported_extensions(&self) -> (r: Vec<&'static str>) {
        let r = vec![".xls"];
        assert(ext_views(r@) =~= self.extensions());
        r
    }
}

} // verus!
