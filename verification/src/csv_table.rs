//! CSV files as a Markdown table, read with the csv crate.
use vstd::prelude::*;
use crate::error::{is_parse_error, parse_error, MarkitdownError};
use crate::model::{
    ext_views, opt_str, strs, BlockView, ContentBlock, ConversionOptions, DocPageView, Document, DocumentConverter,
    DocumentView, Page,
};
use crate::text::{chars_eq_str, chars_of, extend_chars, extend_str};

verus! {

/// CSV converter.
pub struct CsvConverter;

/// The header fields that the csv reader (with a header row) reads from the
/// data, or the message of its error.
pub uninterp spec fn csv_headers(data: Seq<u8>) -> Result<Seq<Seq<char>>, Seq<char>>;

/// The records that the csv reader yields after the header row: the fields
/// of each, or the message of the error reading it.
pub uninterp spec fn csv_records(data: Seq<u8>) -> Seq<Result<Seq<Seq<char>>, Seq<char>>>;

/// The views of a list of fields.
pub open spec fn fields_view(v: Seq<Vec<char>>) -> Seq<Seq<char>> {
    v.map_values(|f: Vec<char>| f@)
}

/// Calls `csv::ReaderBuilder::new().has_headers(true).from_reader` and
/// `Reader::headers`.
#[verifier::external_body]
fn read_headers(data: &[u8]) -> (r: Result<Vec<Vec<char>>, Vec<char>>)
    ensures
        match r {
            Ok(h) => csv_headers(data@) == Ok::<Seq<Seq<char>>, Seq<char>>(fields_view(h@)),
            Err(m) => csv_headers(data@) == Err::<Seq<Seq<char>>, Seq<char>>(m@),
        },
{
    let mut rdr = csv::ReaderBuilder::new().has_headers(true).from_reader(data);
    match rdr.headers() {
        Ok(h) => Ok(h.iter().map(|s| s.chars().collect()).collect()),
        Err(e) => Err(e.to_string().chars().collect()),
    }
}

/// Record `i` that the reader (`Reader::records`, `Iterator::nth`) yields
/// after the header row. A record takes at least one byte of the data, so
/// there are at most as many records as bytes.
#[verifier::external_body]
fn read_record(data: &[u8], i: usize) -> (r: Option<Result<Vec<Vec<char>>, Vec<char>>>)
    ensures
        match r {
            None => i >= csv_records(data@).len() && csv_records(data@).len() <= data@.len(),
            Some(Ok(f)) => i < csv_records(data@).len() && csv_records(data@).len() <= data@.len()
                && csv_records(data@)[i as int] == Ok::<Seq<Seq<char>>, Seq<char>>(fields_view(f@)),
            Some(Err(m)) => i < csv_records(data@).len() && csv_records(data@).len() <= data@.len()
                && csv_records(data@)[i as int] == Err::<Seq<Seq<char>>, Seq<char>>(m@),
        },
{
    let mut rdr = csv::ReaderBuilder::new().has_headers(true).from_reader(data);
    match rdr.records().nth(i)? {
        Ok(rec) => Some(Ok(rec.iter().map(|s| s.chars().collect()).collect())),
        Err(e) => Some(Err(e.to_string().chars().collect())),
    }
}

/// The rows of the records from `i` on, with `rows` read so far, or the
/// message of the first record that cannot be read.
pub open spec fn csv_rows_from(
    recs: Seq<Result<Seq<Seq<char>>, Seq<char>>>,
    i: int,
    rows: Seq<Seq<Seq<char>>>,
) -> Result<Seq<Seq<Seq<char>>>, Seq<char>>
    decreases recs.len() - i,
{
    if i < 0 || i >= recs.len() {
        Ok(rows)
    } else {
        match recs[i] {
            Ok(f) => csv_rows_from(recs, i + 1, rows.push(f)),
            Err(m) => Err("Failed to parse CSV row: "@ + m),
        }
    }
}

/// The document of a CSV file: one page with a table of the header row and
/// the records (no table when there are neither), or the message of the
/// first error.
pub open spec fn csv_document(data: Seq<u8>) -> Result<DocumentView, Seq<char>> {
    match csv_headers(data) {
        Err(m) => Err("Failed to read CSV headers: "@ + m),
        Ok(h) => match csv_rows_from(csv_records(data), 0, seq![]) {
            Err(m) => Err(m),
            Ok(rows) => Ok(
                DocumentView {
                    title: None,
                    pages: seq![
                        DocPageView {
                            page_number: 1,
                            content: if h.len() > 0 || rows.len() > 0 {
                                seq![BlockView::Table { headers: h, rows }]
                            } else {
                                seq![]
                            },
                            rendered_image: None,
                        },
                    ],
                    metadata: seq![],
                },
            ),
        },
    }
}

/// Strings of the fields.
fn to_strings(v: Vec<Vec<char>>) -> (r: Vec<String>)
    ensures
        strs(r@) == fields_view(v@),
{
    let mut out: Vec<String> = Vec::new();
    let mut k: usize = 0;
    while k < v.len()
        invariant
            k <= v@.len(),
            out@.len() == k,
            forall|j: int| 0 <= j < k ==> (#[trigger] out@[j])@ == v@[j]@,
        decreases v@.len() - k,
    {
        out.push(crate::chars::to_string(v[k].as_slice()));
        k += 1;
    }
    assert(strs(out@) =~= fields_view(v@));
    out
}

impl CsvConverter {
    /// Converts CSV bytes to a one-page document holding a table.
    pub fn convert_csv_bytes(&self, bytes: &[u8]) -> (r: Result<Document, MarkitdownError>)
        ensures
            match csv_document(bytes@) {
                Ok(d) => r matches Ok(x) && x@ == d,
                Err(m) => r matches Err(e) && is_parse_error(e, m),
            },
    {
        let headers = match read_headers(bytes) {
            Ok(h) => to_strings(h),
            Err(m) => {
                return Err(parse_error("Failed to read CSV headers: ", m.as_slice()));
            },
        };
        let n = bytes.len();
        let mut rows: Vec<Vec<String>> = Vec::new();
        assert(rows@.map_values(|r: Vec<String>| strs(r@)) =~= Seq::<Seq<Seq<char>>>::empty());
        let mut i: usize = 0;
        loop
            invariant_except_break
                n == bytes@.len(),
                csv_headers(bytes@) == Ok::<Seq<Seq<char>>, Seq<char>>(strs(headers@)),
                i <= n,
                rows@.len() == i,
                csv_rows_from(csv_records(bytes@), 0, seq![]) == csv_rows_from(
                    csv_records(bytes@),
                    i as int,
                    rows@.map_values(|r: Vec<String>| strs(r@)),
                ),
            ensures
                csv_headers(bytes@) == Ok::<Seq<Seq<char>>, Seq<char>>(strs(headers@)),
                csv_rows_from(csv_records(bytes@), 0, seq![]) == Ok::<Seq<Seq<Seq<char>>>, Seq<char>>(
                    rows@.map_values(|r: Vec<String>| strs(r@)),
                ),
            decreases n - i,
        {
            match read_record(bytes, i) {
                None => {
                    assert(csv_rows_from(csv_records(bytes@), i as int, rows@.map_values(|r: Vec<String>| strs(r@)))
                        == Ok::<Seq<Seq<Seq<char>>>, Seq<char>>(rows@.map_values(|r: Vec<String>| strs(r@))));
                    break;
                },
                Some(Err(m)) => {
                    return Err(parse_error("Failed to parse CSV row: ", m.as_slice()));
                },
                Some(Ok(f)) => {
                    let ghost before = rows@.map_values(|r: Vec<String>| strs(r@));
                    let row = to_strings(f);
                    rows.push(row);
                    assert(rows@.map_values(|r: Vec<String>| strs(r@)) =~= before.push(strs(row@)));
                },
            }
            i += 1;
        }
        let ghost rv = rows@.map_values(|r: Vec<String>| strs(r@));
        let mut page = Page::new(1);
        if headers.len() > 0 || rows.len() > 0 {
            page.add_content(ContentBlock::Table { headers, rows });
        }
        assert(page@.content =~= csv_document(bytes@)->Ok_0.pages[0].content);
        let d = Document::from_page(page);
        assert(d@.metadata =~= Seq::<(Seq<char>, Seq<char>)>::empty());
        assert(d@.pages =~= csv_document(bytes@)->Ok_0.pages);
        Ok(d)
    }

    /// Converts CSV bytes; an extension hint other than `.csv` is an invalid
    /// file.
    pub fn convert_bytes(&self, bytes: &[u8], options: Option<&ConversionOptions>) -> (r: Result<Document, MarkitdownError>)
        ensures
            match options {
                Some(o) => match opt_str(o.file_extension) {
                    Some(e) => e != ".csv"@ ==> (r matches Err(MarkitdownError::InvalidFile(m)) && m@ == "Expected .csv file, got "@ + e),
                    None => true,
                },
                None => true,
            },
            (match options {
                Some(o) => match opt_str(o.file_extension) {
                    Some(e) => e == ".csv"@,
                    None => true,
                },
                None => true,
            }) ==> match csv_document(bytes@) {
                Ok(d) => r matches Ok(x) && x@ == d,
                Err(m) => r matches Err(e) && is_parse_error(e, m),
            },
    {
        match options {
            Some(o) => match &o.file_extension {
                Some(e) => {
                    let c = chars_of(e.as_str());
                    if !chars_eq_str(c.as_slice(), ".csv") {
                        let mut m: Vec<char> = Vec::new();
                        extend_str(&mut m, "Expected .csv file, got ");
                        extend_chars(&mut m, c.as_slice());
                        return Err(MarkitdownError::InvalidFile(crate::chars::to_string(m.as_slice())));
                    }
                },
                None => {},
            },
            None => {},
        }
        self.convert_csv_bytes(bytes)
    }
}

impl DocumentConverter for CsvConverter {
    open spec fn extensions(&self) -> Seq<Seq<char>> {
        seq![".csv"@]
    }

    fn supported_extensions(&self) -> (r: Vec<&'static str>) {
        let r = vec![".csv"];
        assert(ext_views(r@) =~= self.extensions());
        r
    }
}

} // verus!
