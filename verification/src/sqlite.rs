//! SQLite databases to Markdown: for each table its schema, its row count
//! and its first rows. The queries are made by the caller, which hands over
//! what they returned as [`TableInfo`] values.
use vstd::prelude::*;
use crate::bibtex::{replace_chars, replace_seq};
use crate::chars::to_string;
use crate::error::MarkitdownError;
use crate::model::{ext_views, is_markdown_doc, markdown_document, opt_str, ConversionOptions, Document, DocumentConverter};
use crate::text::{chars_eq_str, chars_of, decimal, extend_chars, extend_str, join, lemma_chars_deep_view, push_decimal};

verus! {

/// SQLite converter.
pub struct SqliteConverter;

/// A column of a table, as `PRAGMA table_info` gives it.
pub struct ColumnInfo {
    pub name: String,
    pub col_type: String,
    pub notnull: i32,
    pub pk: i32,
}

/// The mathematical content of a [`ColumnInfo`].
pub struct ColumnView {
    pub name: Seq<char>,
    pub col_type: Seq<char>,
    pub notnull: int,
    pub pk: int,
}

impl View for ColumnInfo {
    type V = ColumnView;

    open spec fn view(&self) -> ColumnView {
        ColumnView { name: self.name@, col_type: self.col_type@, notnull: self.notnull as int, pk: self.pk as int }
    }
}

/// A table: its name, its columns, its number of rows and, where they were
/// read, its first rows (each value as text, `NULL` for none).
pub struct TableInfo {
    pub name: String,
    pub columns: Vec<ColumnInfo>,
    pub row_count: usize,
    pub sample_rows: Option<Vec<Vec<String>>>,
}

/// The mathematical content of a [`TableInfo`].
pub struct TableView {
    pub name: Seq<char>,
    pub columns: Seq<ColumnView>,
    pub row_count: nat,
    pub sample_rows: Option<Seq<Seq<Seq<char>>>>,
}

/// The views of the values of a row.
pub open spec fn row_view(r: Vec<String>) -> Seq<Seq<char>> {
    r@.map_values(|s: String| s@)
}

impl View for TableInfo {
    type V = TableView;

    open spec fn view(&self) -> TableView {
        TableView {
            name: self.name@,
            columns: self.columns@.map_values(|c: ColumnInfo| c@),
            row_count: self.row_count as nat,
            sample_rows: match self.sample_rows {
                Some(rows) => Some(rows@.map_values(|r: Vec<String>| row_view(r))),
                None => None,
            },
        }
    }
}

/// `Yes` or `No`.
pub open spec fn yes_no(b: bool) -> Seq<char> {
    if b {
        "Yes"@
    } else {
        "No"@
    }
}

/// The schema row of a column: name, type, whether it may be null (its
/// not-null flag is 0) and whether it is part of the primary key.
pub open spec fn column_md(c: ColumnView) -> Seq<char> {
    "| "@ + c.name + " | "@ + c.col_type + " | "@ + yes_no(c.notnull == 0) + " | "@ + yes_no(c.pk > 0) + " |\n"@
}

/// The schema rows of the columns, in order.
pub open spec fn columns_md(cs: Seq<ColumnView>) -> Seq<char>
    decreases cs.len(),
{
    if cs.len() == 0 {
        Seq::empty()
    } else {
        columns_md(cs.drop_last()) + column_md(cs.last())
    }
}

/// The schema table of the columns; nothing where there are none.
pub open spec fn schema_md(cs: Seq<ColumnView>) -> Seq<char> {
    if cs.len() == 0 {
        Seq::empty()
    } else {
        "### Schema\n\n"@ + "| Column | Type | Nullable | Primary Key |\n"@ + "|--------|------|----------|-------------|\n"@
            + columns_md(cs) + "\n"@
    }
}

/// A value with each `|` escaped as `\|`.
pub open spec fn escape_cell(s: Seq<char>) -> Seq<char> {
    replace_seq(s, "|"@, "\\|"@)
}

/// A row of values, escaped, between pipes.
pub open spec fn data_row_md(vals: Seq<Seq<char>>) -> Seq<char> {
    "| "@ + join(vals.map_values(|v: Seq<char>| escape_cell(v)), " | "@) + " |\n"@
}

/// The rows of values, in order.
pub open spec fn data_rows_md(rows: Seq<Seq<Seq<char>>>) -> Seq<char>
    decreases rows.len(),
{
    if rows.len() == 0 {
        Seq::empty()
    } else {
        data_rows_md(rows.drop_last()) + data_row_md(rows.last())
    }
}

/// The sample table: shown where the table has rows and columns and some
/// rows were read; its header is the column names, its separator one
/// `---` per column.
pub open spec fn sample_md(t: TableView) -> Seq<char> {
    if t.row_count > 0 && t.columns.len() > 0 {
        match t.sample_rows {
            Some(rows) => if rows.len() > 0 {
                "### Sample Data (first 5 rows)\n\n"@ + "| "@ + join(
                    t.columns.map_values(|c: ColumnView| c.name),
                    " | "@,
                ) + " |\n"@ + "|"@ + join(Seq::new(t.columns.len(), |i: int| "---"@), "|"@) + "|\n"@
                    + data_rows_md(rows) + "\n"@
            } else {
                Seq::empty()
            },
            None => Seq::empty(),
        }
    } else {
        Seq::empty()
    }
}

/// The section of a table.
pub open spec fn table_md(t: TableView) -> Seq<char> {
    "## Table: `"@ + t.name + "`\n\n"@ + schema_md(t.columns) + "**Row count:** "@ + decimal(t.row_count) + "\n\n"@
        + sample_md(t)
}

/// The sections of the tables, in order.
pub open spec fn tables_md(ts: Seq<TableView>) -> Seq<char>
    decreases ts.len(),
{
    if ts.len() == 0 {
        Seq::empty()
    } else {
        tables_md(ts.drop_last()) + table_md(ts.last())
    }
}

/// The Markdown of a database with these tables.
pub open spec fn sqlite_md(ts: Seq<TableView>) -> Seq<char> {
    "# SQLite Database\n\n"@ + if ts.len() == 0 {
        "*No tables found in database.*\n"@
    } else {
        "**Tables:** "@ + decimal(ts.len()) + "\n\n"@ + tables_md(ts)
    }
}

/// Appends the items of `parts` separated by `sep`.
fn push_joined(md: &mut Vec<char>, parts: &Vec<Vec<char>>, sep: &str)
    ensures
        final(md)@ == old(md)@ + join(parts.deep_view(), sep@),
{
    let j = crate::text::join_chars(parts, chars_of(sep).as_slice());
    extend_chars(md, j.as_slice());
}

/// Appends the schema row of a column.
fn push_column(md: &mut Vec<char>, c: &ColumnInfo)
    ensures
        final(md)@ == old(md)@ + column_md(c@),
{
    let ghost start = md@;
    extend_str(md, "| ");
    extend_str(md, c.name.as_str());
    extend_str(md, " | ");
    extend_str(md, c.col_type.as_str());
    extend_str(md, " | ");
    if c.notnull == 0 {
        extend_str(md, "Yes");
    } else {
        extend_str(md, "No");
    }
    let ghost mid = md@;
    extend_str(md, " | ");
    if c.pk > 0 {
        extend_str(md, "Yes");
    } else {
        extend_str(md, "No");
    }
    extend_str(md, " |\n");
    assert(mid =~= start + "| "@ + c@.name + " | "@ + c@.col_type + " | "@ + yes_no(c@.notnull == 0));
    assert(md@ =~= start + column_md(c@));
}

/// Appends the section of a table.
fn push_table(md: &mut Vec<char>, t: &TableInfo)
    ensures
        final(md)@ == old(md)@ + table_md(t@),
{
    let ghost start = md@;
    extend_str(md, "## Table: `");
    extend_str(md, t.name.as_str());
    extend_str(md, "`\n\n");
    push_schema(md, &t.columns);
    extend_str(md, "**Row count:** ");
    push_decimal(md, t.row_count);
    extend_str(md, "\n\n");
    push_sample(md, t);
    assert(md@ =~= start + table_md(t@));
}

/// Appends the schema table.
fn push_schema(md: &mut Vec<char>, cols: &Vec<ColumnInfo>)
    ensures
        final(md)@ == old(md)@ + schema_md(cols@.map_values(|c: ColumnInfo| c@)),
{
    let ghost cv = cols@.map_values(|c: ColumnInfo| c@);
    let ghost start = md@;
    if cols.len() == 0 {
        assert(start + Seq::<char>::empty() =~= start);
        return;
    }
    extend_str(md, "### Schema\n\n");
    extend_str(md, "| Column | Type | Nullable | Primary Key |\n");
    extend_str(md, "|--------|------|----------|-------------|\n");
    let ghost head = md@;
    let mut i: usize = 0;
    while i < cols.len()
        invariant
            i <= cols@.len(),
            cv == cols@.map_values(|c: ColumnInfo| c@),
            md@ == head + columns_md(cv.take(i as int)),
        decreases cols@.len() - i,
    {
        let ghost before = md@;
        push_column(md, &cols[i]);
        proof {
            assert(cv.take(i + 1).drop_last() =~= cv.take(i as int));
            assert(md@ =~= before + column_md(cv[i as int]));
        }
        i += 1;
    }
    assert(cv.take(i as int) =~= cv);
    extend_str(md, "\n");
    assert(md@ =~= start + schema_md(cv));
}

/// Appends a row of escaped values.
fn push_data_row(md: &mut Vec<char>, row: &Vec<String>)
    ensures
        final(md)@ == old(md)@ + data_row_md(row_view(*row)),
{
    let ghost rv = row_view(*row);
    let mut parts: Vec<Vec<char>> = Vec::new();
    let mut i: usize = 0;
    while i < row.len()
        invariant
            i <= row@.len(),
            rv == row_view(*row),
            parts.deep_view() =~= rv.take(i as int).map_values(|v: Seq<char>| escape_cell(v)),
        decreases row@.len() - i,
    {
        let v = chars_of(row[i].as_str());
        let e = replace_chars(v.as_slice(), "|", "\\|");
        let ghost before = parts.deep_view();
        parts.push(e);
        proof {
            crate::text::lemma_push_line(before, parts@, e);
            assert(rv.take(i + 1) =~= rv.take(i as int).push(rv[i as int]));
            assert(parts.deep_view() =~= before.push(e@));
        }
        i += 1;
    }
    assert(rv.take(i as int) =~= rv);
    extend_str(md, "| ");
    push_joined(md, &parts, " | ");
    extend_str(md, " |\n");
}

/// Appends the sample table.
fn push_sample(md: &mut Vec<char>, t: &TableInfo)
    ensures
        final(md)@ == old(md)@ + sample_md(t@),
{
    let ghost tv = t@;
    let ghost start = md@;
    if t.row_count > 0 && t.columns.len() > 0 {
        match &t.sample_rows {
            Some(rows) => {
                if rows.len() > 0 {
                    extend_str(md, "### Sample Data (first 5 rows)\n\n");
                    let mut names: Vec<Vec<char>> = Vec::new();
                    let mut seps: Vec<Vec<char>> = Vec::new();
                    let mut i: usize = 0;
                    while i < t.columns.len()
                        invariant
                            i <= t.columns@.len(),
                            tv == t@,
                            names.deep_view() =~= tv.columns.take(i as int).map_values(|c: ColumnView| c.name),
                            seps.deep_view() =~= Seq::new(i as nat, |k: int| "---"@),
                        decreases t.columns@.len() - i,
                    {
                        let n = chars_of(t.columns[i].name.as_str());
                        let d = chars_of("---");
                        let ghost b1 = names.deep_view();
                        let ghost b2 = seps.deep_view();
                        names.push(n);
                        seps.push(d);
                        proof {
                            crate::text::lemma_push_line(b1, names@, n);
                            crate::text::lemma_push_line(b2, seps@, d);
                            assert(tv.columns.take(i + 1) =~= tv.columns.take(i as int).push(tv.columns[i as int]));
                            assert(names.deep_view() =~= b1.push(n@));
                            assert(seps.deep_view() =~= b2.push(d@));
                        }
                        i += 1;
                    }
                    assert(tv.columns.take(i as int) =~= tv.columns);
                    extend_str(md, "| ");
                    push_joined(md, &names, " | ");
                    extend_str(md, " |\n");
                    extend_str(md, "|");
                    push_joined(md, &seps, "|");
                    extend_str(md, "|\n");
                    let ghost rows_v = rows@.map_values(|r: Vec<String>| row_view(r));
                    let ghost head = md@;
                    let mut j: usize = 0;
                    while j < rows.len()
                        invariant
                            j <= rows@.len(),
                            rows_v == rows@.map_values(|r: Vec<String>| row_view(r)),
                            md@ == head + data_rows_md(rows_v.take(j as int)),
                        decreases rows@.len() - j,
                    {
                        let ghost before = md@;
                        push_data_row(md, &rows[j]);
                        proof {
                            assert(rows_v.take(j + 1).drop_last() =~= rows_v.take(j as int));
                        }
                        j += 1;
                    }
                    assert(rows_v.take(j as int) =~= rows_v);
                    extend_str(md, "\n");
                    assert(md@ =~= start + sample_md(tv));
                } else {
                    assert(start + Seq::<char>::empty() =~= start);
                }
            },
            None => {
                assert(start + Seq::<char>::empty() =~= start);
            },
        }
    } else {
        assert(start + Seq::<char>::empty() =~= start);
    }
}

impl SqliteConverter {
    /// A one-page document of the database with these tables: the number
    /// of tables (or a note that there are none), then for each table its
    /// schema, its row count and its sample rows.
    pub fn tables_to_document(tables: &Vec<TableInfo>) -> (r: Document)
        ensures
            is_markdown_doc(r, sqlite_md(tables@.map_values(|t: TableInfo| t@))),
    {
        let ghost tv = tables@.map_values(|t: TableInfo| t@);
        let mut md: Vec<char> = Vec::new();
        extend_str(&mut md, "# SQLite Database\n\n");
        if tables.len() == 0 {
            extend_str(&mut md, "*No tables found in database.*\n");
        } else {
            extend_str(&mut md, "**Tables:** ");
            push_decimal(&mut md, tables.len());
            extend_str(&mut md, "\n\n");
            let ghost head = md@;
            let mut i: usize = 0;
            while i < tables.len()
                invariant
                    i <= tables@.len(),
                    tv == tables@.map_values(|t: TableInfo| t@),
                    md@ == head + tables_md(tv.take(i as int)),
                decreases tables@.len() - i,
            {
                let ghost before = md@;
                push_table(&mut md, &tables[i]);
                proof {
                    assert(tv.take(i + 1).drop_last() =~= tv.take(i as int));
                    assert(md@ =~= before + table_md(tv[i as int]));
                }
                i += 1;
            }
            assert(tv.take(i as int) =~= tv);
            assert(md@ =~= sqlite_md(tv));
        }
        proof {
            if tables.len() == 0 {
                assert(md@ =~= sqlite_md(tv));
            }
        }
        markdown_document(md)
    }

    /// Checks an extension hint: one other than `.db`, `.sqlite` and
    /// `.sqlite3` (compared exactly) is an invalid file.
    pub fn check_extension(options: Option<&ConversionOptions>) -> (r: Result<(), MarkitdownError>)
        ensures
            match options {
                Some(o) => match opt_str(o.file_extension) {
                    Some(e) => if e == ".db"@ || e == ".sqlite"@ || e == ".sqlite3"@ {
                        r is Ok
                    } else {
                        r matches Err(MarkitdownError::InvalidFile(m))
                            && m@ == "Expected SQLite file (.db, .sqlite, .sqlite3), got "@ + e
                    },
                    None => r is Ok,
                },
                None => r is Ok,
            },
    {
        match options {
            Some(o) => match &o.file_extension {
                Some(e) => {
                    let c = chars_of(e.as_str());
                    let s = c.as_slice();
                    if !(chars_eq_str(s, ".db") || chars_eq_str(s, ".sqlite") || chars_eq_str(s, ".sqlite3")) {
                        let mut m: Vec<char> = Vec::new();
                        extend_str(&mut m, "Expected SQLite file (.db, .sqlite, .sqlite3), got ");
                        extend_chars(&mut m, s);
                        return Err(MarkitdownError::InvalidFile(to_string(m.as_slice())));
                    }
                },
                None => {},
            },
            None => {},
        }
        Ok(())
    }
}

impl DocumentConverter for SqliteConverter {
    open spec fn extensions(&self) -> Seq<Seq<char>> {
        seq![".db"@, ".sqlite"@, ".sqlite3"@]
    }

    fn supported_extensions(&self) -> (r: Vec<&'static str>) {
        let r = vec![".db", ".sqlite", ".sqlite3"];
        assert(ext_views(r@) =~= self.extensions());
        r
    }
}

} // verus!
