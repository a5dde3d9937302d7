//! Records of the input and output tables, and their mapping to and from rows.
use crate::batch::BatchError;
use crate::table::{csv_rows, csv_written, read_csv, table_view, uniform_rows, write_csv};
use vstd::prelude::*;

verus! {

/// One row of the input table.
#[derive(Debug, Clone, PartialEq, Eq)]
pub struct InputRecord {
    pub email: String,
    pub first_name: String,
    pub date_of_service: String,
}

/// One row of the output table: the input's fields and the generated URL.
#[derive(Debug, Clone, PartialEq, Eq)]
pub struct OutputRecord {
    pub email: String,
    pub first_name: String,
    pub date_of_service: String,
    pub url: String,
}

impl InputRecord {
    /// The fields in column order.
    pub open spec fn fields(self) -> Seq<Seq<char>> {
        seq![self.email@, self.first_name@, self.date_of_service@]
    }
}

impl OutputRecord {
    /// The fields in column order.
    pub open spec fn fields(self) -> Seq<Seq<char>> {
        seq![self.email@, self.first_name@, self.date_of_service@, self.url@]
    }
}

/// The header of the input table.
pub open spec fn input_header() -> Seq<Seq<char>> {
    seq!["Email"@, "First Name"@, "Date of Service"@]
}

/// The header of the output table.
pub open spec fn output_header() -> Seq<Seq<char>> {
    seq!["Email"@, "First Name"@, "Date of Service"@, "URL"@]
}

/// The fields of each record, in order.
pub open spec fn input_fields(recs: Seq<InputRecord>) -> Seq<Seq<Seq<char>>> {
    recs.map_values(|r: InputRecord| r.fields())
}

/// The fields of each record, in order.
pub open spec fn output_fields(recs: Seq<OutputRecord>) -> Seq<Seq<Seq<char>>> {
    recs.map_values(|r: OutputRecord| r.fields())
}

/// A table holds input records: its first row is exactly the input header and
/// every later row has three fields.
pub open spec fn is_input_table(t: Seq<Seq<Seq<char>>>) -> bool {
    &&& t.len() >= 1
    &&& t[0] == input_header()
    &&& forall|i: int| 1 <= i < t.len() ==> (#[trigger] t[i]).len() == 3
}

/// The table starts with exactly the input header.
pub open spec fn header_ok(t: Seq<Seq<Seq<char>>>) -> bool {
    t.len() >= 1 && t[0] == input_header()
}

/// Data row `i` (from 0) is the first that does not have three fields.
pub open spec fn first_bad_row(t: Seq<Seq<Seq<char>>>, i: int) -> bool {
    &&& 0 <= i
    &&& i + 1 < t.len()
    &&& t[i + 1].len() != 3
    &&& forall|j: int| 1 <= j <= i ==> (#[trigger] t[j]).len() == 3
}

/// The reader finds no table in `b`, or the table's header is wrong.
pub open spec fn text_or_header_bad(b: Seq<u8>) -> bool {
    match csv_rows(b) {
        Some(t) => !header_ok(t),
        None => true,
    }
}

/// `b` holds a table with the right header whose data row `i` is the first
/// without three fields.
pub open spec fn bad_row_in(b: Seq<u8>, i: int) -> bool {
    match csv_rows(b) {
        Some(t) => header_ok(t) && first_bad_row(t, i),
        None => false,
    }
}

/// The data rows of an input table, or `None` for a table that is not one.
pub open spec fn records_of_table(t: Seq<Seq<Seq<char>>>) -> Option<Seq<Seq<Seq<char>>>> {
    if is_input_table(t) {
        Some(t.drop_first())
    } else {
        None
    }
}

/// The fields of the records that `b` holds, or `None` where it holds none.
pub open spec fn decode_spec(b: Seq<u8>) -> Option<Seq<Seq<Seq<char>>>> {
    match csv_rows(b) {
        Some(t) => records_of_table(t),
        None => None,
    }
}

/// The table of input records: the input header, then one row per record.
pub open spec fn input_table(recs: Seq<InputRecord>) -> Seq<Seq<Seq<char>>> {
    seq![input_header()] + input_fields(recs)
}

/// The table of output records: the output header, then one row per record.
pub open spec fn output_table(recs: Seq<OutputRecord>) -> Seq<Seq<Seq<char>>> {
    seq![output_header()] + output_fields(recs)
}

fn text(s: &str) -> (r: String)
    ensures
        r@ == s@,
{
    s.to_owned()
}

/// Maps the rows of a table to input records by position, after checking the
/// header and that each data row has three fields. A wrong header fails with
/// `Parse { row: None }`; the first data row with another number of fields
/// fails with `Parse { row: Some(i) }`, `i` counted from 0.
pub fn records_from_rows(rows: &Vec<Vec<String>>) -> (r: Result<Vec<InputRecord>, BatchError>)
    ensures
        r is Ok <==> records_of_table(table_view(rows@)) is Some,
        r matches Ok(recs) ==> records_of_table(table_view(rows@)) == Some(input_fields(recs@)),
        r matches Err(e) ==> e is Parse,
        (r matches Err(BatchError::Parse { row: None })) <==> !header_ok(table_view(rows@)),
        r matches Err(BatchError::Parse { row: Some(i) }) ==> first_bad_row(
            table_view(rows@),
            i as int,
        ),
{
    let ghost t = table_view(rows@);
    if rows.len() == 0 {
        return Err(BatchError::Parse { row: None });
    }
    let header = &rows[0];
    assert(t[0] == header@.map_values(|s: String| s@));
    if header.len() != 3 {
        return Err(BatchError::Parse { row: None });
    }
    let ok = header[0] == text("Email") && header[1] == text("First Name") && header[2] == text(
        "Date of Service",
    );
    if !ok {
        assert(t[0] != input_header()) by {
            if t[0] == input_header() {
                assert(t[0][0] == header@[0]@);
                assert(t[0][1] == header@[1]@);
                assert(t[0][2] == header@[2]@);
            }
        }
        return Err(BatchError::Parse { row: None });
    }
    assert(t[0] =~= input_header());
    let mut recs: Vec<InputRecord> = Vec::new();
    let mut i: usize = 1;
    while i < rows.len()
        invariant
            1 <= i <= rows@.len(),
            t == table_view(rows@),
            t[0] == input_header(),
            forall|k: int| 1 <= k < i ==> (#[trigger] t[k]).len() == 3,
            input_fields(recs@) =~= t.subrange(1, i as int),
        decreases rows@.len() - i,
    {
        let row = &rows[i];
        assert(t[i as int] == row@.map_values(|s: String| s@));
        if row.len() != 3 {
            assert(!is_input_table(t)) by {
                assert(t[i as int].len() != 3);
            }
            return Err(BatchError::Parse { row: Some(i - 1) });
        }
        let rec = InputRecord {
            email: row[0].clone(),
            first_name: row[1].clone(),
            date_of_service: row[2].clone(),
        };
        assert(rec.fields() =~= t[i as int]);
        let ghost before = recs@;
        recs.push(rec);
        assert(input_fields(recs@) =~= input_fields(before).push(rec.fields()));
        assert(t.subrange(1, i + 1) =~= t.subrange(1, i as int).push(t[i as int]));
        i = i + 1;
    }
    assert(t.drop_first() =~= t.subrange(1, rows@.len() as int));
    Ok(recs)
}

/// Reads delimited text into input records, in file order. Fails with
/// `Parse { row: None }` when the text is not well-formed or the header is not
/// exactly `Email,First Name,Date of Service`, and with `Parse { row: Some(i) }`
/// when data row `i` is the first with another number of fields; the first
/// bad row fails the whole table.
pub fn decode(input: &[u8]) -> (r: Result<Vec<InputRecord>, BatchError>)
    ensures
        r is Ok <==> decode_spec(input@) is Some,
        r matches Ok(recs) ==> decode_spec(input@) == Some(input_fields(recs@)),
        r matches Err(e) ==> e is Parse,
        (r matches Err(BatchError::Parse { row: None })) <==> text_or_header_bad(input@),
        r matches Err(BatchError::Parse { row: Some(i) }) ==> bad_row_in(input@, i as int),
{
    match read_csv(input) {
        None => Err(BatchError::Parse { row: None }),
        Some(rows) => records_from_rows(&rows),
    }
}

/// The rows of the input table for `recs`: the header, then one row each.
pub fn input_rows(recs: &Vec<InputRecord>) -> (r: Vec<Vec<String>>)
    ensures
        table_view(r@) == input_table(recs@),
{
    let mut rows: Vec<Vec<String>> = Vec::new();
    let header = vec![text("Email"), text("First Name"), text("Date of Service")];
    assert(header@.map_values(|s: String| s@) =~= input_header());
    rows.push(header);
    assert(table_view(rows@) =~= seq![input_header()]);
    assert(input_table(recs@.subrange(0, 0)) =~= seq![input_header()]);
    let mut i: usize = 0;
    while i < recs.len()
        invariant
            i <= recs@.len(),
            table_view(rows@) =~= input_table(recs@.subrange(0, i as int)),
        decreases recs@.len() - i,
    {
        let rec = &recs[i];
        let row = vec![rec.email.clone(), rec.first_name.clone(), rec.date_of_service.clone()];
        assert(row@.map_values(|s: String| s@) =~= rec.fields());
        let ghost before = rows@;
        rows.push(row);
        assert(table_view(rows@) =~= table_view(before).push(rec.fields()));
        assert(recs@.subrange(0, i + 1) =~= recs@.subrange(0, i as int).push(*rec));
        assert(input_table(recs@.subrange(0, i + 1)) =~= input_table(recs@.subrange(0, i as int)).push(rec.fields()));
        i = i + 1;
    }
    assert(recs@.subrange(0, recs@.len() as int) =~= recs@);
    rows
}

/// The rows of the output table for `recs`: the header, then one row each.
pub fn output_rows(recs: &Vec<OutputRecord>) -> (r: Vec<Vec<String>>)
    ensures
        table_view(r@) == output_table(recs@),
{
    let mut rows: Vec<Vec<String>> = Vec::new();
    let header = vec![text("Email"), text("First Name"), text("Date of Service"), text("URL")];
    assert(header@.map_values(|s: String| s@) =~= output_header());
    rows.push(header);
    assert(table_view(rows@) =~= seq![output_header()]);
    assert(output_table(recs@.subrange(0, 0)) =~= seq![output_header()]);
    let mut i: usize = 0;
    while i < recs.len()
        invariant
            i <= recs@.len(),
            table_view(rows@) =~= output_table(recs@.subrange(0, i as int)),
        decreases recs@.len() - i,
    {
        let rec = &recs[i];
        let row = vec![
            rec.email.clone(),
            rec.first_name.clone(),
            rec.date_of_service.clone(),
            rec.url.clone(),
        ];
        assert(row@.map_values(|s: String| s@) =~= rec.fields());
        let ghost before = rows@;
        rows.push(row);
        assert(table_view(rows@) =~= table_view(before).push(rec.fields()));
        assert(recs@.subrange(0, i + 1) =~= recs@.subrange(0, i as int).push(*rec));
        assert(output_table(recs@.subrange(0, i + 1)) =~= output_table(recs@.subrange(0, i as int)).push(rec.fields()));
        i = i + 1;
    }
    assert(recs@.subrange(0, recs@.len() as int) =~= recs@);
    rows
}

/// Writes input records as delimited text under the input header.
pub fn encode_inputs(recs: &Vec<InputRecord>) -> (r: Result<Vec<u8>, BatchError>)
    ensures
        r is Ok,
        r matches Ok(b) ==> csv_written(input_table(recs@)) == Some(b@),
{
    let rows = input_rows(recs);
    proof {
        let t = input_table(recs@);
        assert forall|i: int| 0 <= i < t.len() implies (#[trigger] t[i]).len() == t[0].len() > 0 by {
            if i > 0 {
                assert(t[i] == recs@[i - 1].fields());
            }
        }
        assert(uniform_rows(t));
    }
    match write_csv(&rows) {
        None => Err(BatchError::Encode),
        Some(b) => Ok(b),
    }
}

/// Writes output records as delimited text under the header
/// `Email,First Name,Date of Service,URL`, one row per record in order. Every
/// row has four fields, so the writer does not fail.
pub fn encode(recs: &Vec<OutputRecord>) -> (r: Result<Vec<u8>, BatchError>)
    ensures
        r is Ok,
        r matches Ok(b) ==> csv_written(output_table(recs@)) == Some(b@),
{
    let rows = output_rows(recs);
    proof {
        let t = output_table(recs@);
        assert forall|i: int| 0 <= i < t.len() implies (#[trigger] t[i]).len() == t[0].len() > 0 by {
            if i > 0 {
                assert(t[i] == recs@[i - 1].fields());
            }
        }
        assert(uniform_rows(t));
    }
    match write_csv(&rows) {
        None => Err(BatchError::Encode),
        Some(b) => Ok(b),
    }
}

/// Rows written for input records map back to those same records: the table
/// that `input_rows` describes is an input table whose data rows are the
/// records' fields, whatever the fields hold. So any bytes that the reader
/// splits into that table decode to the records again.
pub proof fn lemma_rows_round_trip(recs: Seq<InputRecord>)
    ensures
        records_of_table(input_table(recs)) == Some(input_fields(recs)),
        forall|b: Seq<u8>|
            csv_rows(b) == Some(input_table(recs)) ==> #[trigger] decode_spec(b) == Some(
                input_fields(recs),
            ),
{
    let t = input_table(recs);
    assert forall|i: int| 1 <= i < t.len() implies (#[trigger] t[i]).len() == 3 by {
        assert(t[i] == recs[i - 1].fields());
    }
    assert(t.drop_first() =~= input_fields(recs));
}

} // verus!
