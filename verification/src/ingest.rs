//! From the bytes of a comma-separated table to its rows: the predictor and
//! the response of each record as text, and its denominator as a count.

use vstd::prelude::*;
use crate::columns::{layout_of, resolve_columns, ColumnLayout};
use crate::count::{count_outcome, parse_count};
use crate::text::{texts, trim, trimmed};

verus! {

/// `csv::Error`, the error of the `csv` crate, as a value that is carried
/// through and never looked into.
#[verifier::external_type_specification]
#[verifier::external_body]
pub struct ExCsvError(csv::Error);

/// A table as it was decoded: the header row, the records that were read,
/// and the error that ended the reading, if one did.
#[derive(Debug)]
pub struct RawTable {
    pub headers: Vec<String>,
    pub records: Vec<Vec<String>>,
    pub failure: Option<csv::Error>,
}

/// A decoded table as a mathematical value.
pub struct TableModel {
    pub headers: Seq<Seq<char>>,
    pub records: Seq<Seq<Seq<char>>>,
    /// Whether the records were read to the end of the input.
    pub complete: bool,
}

/// The texts of the fields of each record.
pub open spec fn record_texts(records: Seq<Vec<String>>) -> Seq<Seq<Seq<char>>> {
    Seq::new(records.len(), |i: int| texts(records[i]@))
}

impl View for RawTable {
    type V = TableModel;

    open spec fn view(&self) -> TableModel {
        TableModel {
            headers: texts(self.headers@),
            records: record_texts(self.records@),
            complete: self.failure is None,
        }
    }
}

/// One record, reduced to what a fit reads.
#[derive(Debug, PartialEq, Eq)]
pub struct RawRow {
    /// The predictor as it is written.
    pub x: String,
    /// The response as it is written.
    pub y: String,
    /// The denominator, where the table has such a column and the field is
    /// a count.
    pub unsup_den: Option<usize>,
}

/// A row as a mathematical value.
pub struct RowModel {
    pub x: Seq<char>,
    pub y: Seq<char>,
    pub unsup_den: Option<usize>,
}

impl View for RawRow {
    type V = RowModel;

    open spec fn view(&self) -> RowModel {
        RowModel { x: self.x@, y: self.y@, unsup_den: self.unsup_den }
    }
}

/// The rows of a table, with the layout they were read by and the error that
/// ended the reading, if one did.
#[derive(Debug)]
pub struct RawRows {
    pub layout: ColumnLayout,
    pub rows: Vec<RawRow>,
    pub failure: Option<csv::Error>,
}

/// The rows of a table as a mathematical value.
pub struct RowsModel {
    pub layout: ColumnLayout,
    pub rows: Seq<RowModel>,
    pub complete: bool,
}

/// The rows that a vector holds.
pub open spec fn row_models(rows: Seq<RawRow>) -> Seq<RowModel> {
    Seq::new(rows.len(), |i: int| rows[i]@)
}

impl View for RawRows {
    type V = RowsModel;

    open spec fn view(&self) -> RowsModel {
        RowsModel {
            layout: self.layout,
            rows: row_models(self.rows@),
            complete: self.failure is None,
        }
    }
}

/// What reading `bytes` as a comma-separated table gives: nothing where the
/// header row cannot be read, else the header row and the records up to the
/// end of the input or to the first record that cannot be read. The first
/// row is the header row; fields come trimmed; records may differ in length.
pub uninterp spec fn decoded(bytes: Seq<u8>) -> Option<TableModel>;

/// The field of a record in a column, trimmed; the empty text where the
/// record is too short to have one.
pub open spec fn field_at(record: Seq<Seq<char>>, column: int) -> Seq<char> {
    if 0 <= column < record.len() {
        trimmed(record[column])
    } else {
        Seq::<char>::empty()
    }
}

/// The denominator that a field gives: its count, and none where it is not
/// a count.
pub open spec fn denominator_at(record: Seq<Seq<char>>, column: Option<usize>) -> Option<usize> {
    match column {
        Some(i) => match count_outcome(field_at(record, i as int)) {
            Ok(m) => Some(m),
            Err(_) => None,
        },
        None => None,
    }
}

/// The row that a record gives under a layout.
pub open spec fn row_of(record: Seq<Seq<char>>, layout: ColumnLayout) -> RowModel {
    RowModel {
        x: field_at(record, layout.x as int),
        y: field_at(record, layout.y as int),
        unsup_den: denominator_at(record, layout.den),
    }
}

/// The rows of a table: its layout comes from the header row, and each
/// record gives one row under it.
pub open spec fn rows_of(table: TableModel) -> RowsModel {
    RowsModel {
        layout: layout_of(table.headers),
        rows: Seq::new(
            table.records.len(),
            |i: int| row_of(table.records[i], layout_of(table.headers)),
        ),
        complete: table.complete,
    }
}

/// Whether any observation has a denominator.
pub open spec fn any_given(dens: Seq<Option<usize>>) -> bool {
    exists|i: int| 0 <= i < dens.len() && (#[trigger] dens[i]) is Some
}

/// The denominators with 0 in place of each missing one.
pub open spec fn filled(dens: Seq<Option<usize>>) -> Seq<usize> {
    Seq::new(
        dens.len(),
        |i: int|
            match dens[i] {
                Some(m) => m,
                None => 0,
            },
    )
}

/// Decodes a table with `csv::ReaderBuilder` (a header row, all fields
/// trimmed, records of any length) over `csv::Reader::headers` and
/// `csv::Reader::records`. Believed, not proved: that the outcome depends on
/// the bytes alone. It is what `decoded` names; an error in the header row
/// is the `Err`, and an error further on ends the records and stays in the
/// table.
#[verifier::external_body]
fn decode_table(bytes: &[u8]) -> (r: Result<RawTable, csv::Error>)
    ensures
        match r {
            Ok(table) => decoded(bytes@) == Some(table@),
            Err(_) => decoded(bytes@) is None,
        },
{
    let mut builder = csv::ReaderBuilder::new();
    builder.has_headers(true).trim(csv::Trim::All).flexible(true);
    let mut reader = builder.from_reader(bytes);
    let headers = reader.headers()?.iter().map(String::from).collect();
    let mut records = Vec::new();
    for record in reader.records() {
        match record {
            Ok(fields) => records.push(fields.iter().map(String::from).collect()),
            Err(e) => return Ok(RawTable { headers, records, failure: Some(e) }),
        }
    }
    Ok(RawTable { headers, records, failure: None })
}

/// The trimmed field of a record in a column, or the empty string.
pub fn field_text(record: &Vec<String>, column: usize) -> (field: String)
    ensures
        field@ == field_at(texts(record@), column as int),
{
    if column < record.len() {
        trim(record[column].as_str()).to_owned()
    } else {
        String::new()
    }
}

/// Reads one record under a layout.
pub fn extract_row(record: &Vec<String>, layout: &ColumnLayout) -> (row: RawRow)
    ensures
        row@ == row_of(texts(record@), *layout),
{
    let x = field_text(record, layout.x);
    let y = field_text(record, layout.y);
    let unsup_den = match layout.den {
        Some(i) => {
            let field = field_text(record, i);
            match parse_count(field.as_str()) {
                Ok(m) => Some(m),
                Err(_) => None,
            }
        },
        None => None,
    };
    RawRow { x, y, unsup_den }
}

/// Reads the rows of a decoded table.
pub fn extract_rows(table: RawTable) -> (rows: RawRows)
    ensures
        rows@ == rows_of(table@),
{
    let layout = resolve_columns(&table.headers);
    let mut rows: Vec<RawRow> = Vec::new();
    let mut i: usize = 0;
    while i < table.records.len()
        invariant
            i <= table.records.len(),
            layout == layout_of(texts(table.headers@)),
            rows@.len() == i,
            forall|k: int|
                0 <= k < i ==> (#[trigger] rows@[k])@ == row_of(
                    record_texts(table.records@)[k],
                    layout,
                ),
        decreases table.records.len() - i,
    {
        let row = extract_row(&table.records[i], &layout);
        assert(record_texts(table.records@)[i as int] == texts(table.records@[i as int]@));
        rows.push(row);
        i += 1;
    }
    let out = RawRows { layout, rows, failure: table.failure };
    assert(out@.rows =~= rows_of(table@).rows);
    out
}

/// Reads the bytes of a table into rows. The `Err` is a header row that
/// could not be read.
pub fn read_rows(bytes: &[u8]) -> (r: Result<RawRows, csv::Error>)
    ensures
        match r {
            Ok(rows) => decoded(bytes@) is Some && rows@ == rows_of(decoded(bytes@)->0),
            Err(_) => decoded(bytes@) is None,
        },
{
    match decode_table(bytes) {
        Ok(table) => Ok(extract_rows(table)),
        Err(e) => Err(e),
    }
}

/// The denominators of a table for the weights: none where no observation
/// has one, else one for each observation, 0 standing for a missing one.
pub fn gather_denominators(dens: &[Option<usize>]) -> (r: Option<Vec<usize>>)
    ensures
        r is Some <==> any_given(dens@),
        r is Some ==> r->0@ == filled(dens@),
{
    let mut found = false;
    let mut out: Vec<usize> = Vec::new();
    let mut i: usize = 0;
    while i < dens.len()
        invariant
            i <= dens.len(),
            found <==> any_given(dens@.take(i as int)),
            out@ == filled(dens@.take(i as int)),
        decreases dens.len() - i,
    {
        let ghost front = dens@.take(i as int);
        let ghost next = dens@.take(i + 1);
        assert(next[i as int] == dens@[i as int]);
        assert(any_given(next) <==> any_given(front) || dens@[i as int] is Some) by {
            if any_given(front) {
                let k = choose|k: int| 0 <= k < front.len() && (#[trigger] front[k]) is Some;
                assert(next[k] == front[k]);
            }
            if any_given(next) {
                let k = choose|k: int| 0 <= k < next.len() && (#[trigger] next[k]) is Some;
                if k < i {
                    assert(front[k] == next[k]);
                }
            }
        }
        match dens[i] {
            Some(m) => {
                found = true;
                out.push(m);
            },
            None => {
                out.push(0);
            },
        }
        assert(out@ =~= filled(next));
        i += 1;
    }
    assert(dens@.take(dens.len() as int) =~= dens@);
    if found {
        Some(out)
    } else {
        None
    }
}

} // verus!
