//! Delimited text, read and written by the `csv` crate, as rows of fields.
use vstd::prelude::*;

verus! {

/// The rows of fields that the `csv` reader finds in `b` (comma separated,
/// `"` quoting, no header handling, rows of any length), or `None` where it
/// reports an error.
pub uninterp spec fn csv_rows(b: Seq<u8>) -> Option<Seq<Seq<Seq<char>>>>;

/// The bytes that the `csv` writer, with its defaults, makes of `rows`, or
/// `None` where it reports an error.
pub uninterp spec fn csv_written(rows: Seq<Seq<Seq<char>>>) -> Option<Seq<u8>>;

/// The text of each field of each row.
pub open spec fn table_view(rows: Seq<Vec<String>>) -> Seq<Seq<Seq<char>>> {
    rows.map_values(|row: Vec<String>| row@.map_values(|s: String| s@))
}

/// Relies on csv's `ReaderBuilder` with `has_headers(false)` and
/// `flexible(true)`, and on `StringRecord`'s fields: every record, the first
/// line included, comes back as a row; an error on any record fails the read.
#[verifier::external_body]
pub(crate) fn read_csv(input: &[u8]) -> (r: Option<Vec<Vec<String>>>)
    ensures
        r is None <==> csv_rows(input@) is None,
        r matches Some(t) ==> csv_rows(input@) == Some(table_view(t@)),
{
    let mut reader = csv::ReaderBuilder::new().has_headers(false).flexible(true).from_reader(input);
    let mut rows = Vec::new();
    for record in reader.records() {
        match record {
            Ok(record) => rows.push(record.iter().map(String::from).collect()),
            Err(_) => return None,
        }
    }
    Some(rows)
}

/// Every row has as many fields as the first, and that is at least one.
pub open spec fn uniform_rows(t: Seq<Seq<Seq<char>>>) -> bool {
    forall|i: int| 0 <= i < t.len() ==> (#[trigger] t[i]).len() == t[0].len() > 0
}

/// Relies on csv's `Writer::from_writer` over a `Vec<u8>`: `write_record` for
/// each row, then `into_inner` for the bytes; any error fails the write. Into
/// a `Vec<u8>` the writer fails only on rows of unequal length.
#[verifier::external_body]
pub(crate) fn write_csv(rows: &Vec<Vec<String>>) -> (r: Option<Vec<u8>>)
    ensures
        r is None <==> csv_written(table_view(rows@)) is None,
        r matches Some(b) ==> csv_written(table_view(rows@)) == Some(b@),
        uniform_rows(table_view(rows@)) ==> r is Some,
{
    let mut writer = csv::Writer::from_writer(Vec::new());
    for row in rows {
        if writer.write_record(row).is_err() {
            return None;
        }
    }
    writer.into_inner().ok()
}

} // verus!
