//! The batch: decode, seal and link each row, encode. The first failure
//! anywhere ends the batch and no output is produced.
use crate::records::{bad_row_in, decode, decode_spec, text_or_header_bad, encode, output_fields, output_header, InputRecord, OutputRecord};
use crate::table::csv_written;
use crate::template::{expand, expand_spec};
use crate::token::{encrypt, is_token_for, GCM_MAX_MESSAGE, KEY_LEN};
use vstd::prelude::*;
use vstd::utf8::encode_utf8;

verus! {

/// Why a batch produced no output.
#[derive(Debug, Clone, Copy, PartialEq, Eq, Structural)]
pub enum BatchError {
    /// The input is not a well-formed table with the expected header and
    /// three fields in every row: `row` names the first data row (from 0)
    /// with another number of fields, and is `None` when the text itself or
    /// the header is at fault.
    Parse { row: Option<usize> },
    /// The key is not 16 bytes long; `row` is the data row (from 0) that
    /// first needed it, which is always the first.
    KeyLength { row: usize },
    /// The date of service of data row `row` (from 0) could not be sealed:
    /// the cipher refused it, or the random source gave no nonce.
    Encryption { row: usize },
    /// The output could not be written.
    Encode,
}

/// The message that is sealed for a row: the UTF-8 bytes of its date of service.
pub open spec fn row_message(row: Seq<Seq<char>>) -> Seq<u8> {
    encode_utf8(row[2])
}

/// `out` is the output row for the input row `row`: the same three fields,
/// then the template with a token of the row's date of service in place.
pub open spec fn links_row(
    row: Seq<Seq<char>>,
    out: Seq<Seq<char>>,
    key: Seq<u8>,
    template: Seq<char>,
) -> bool {
    &&& out.len() == 4
    &&& out.subrange(0, 3) == row
    &&& exists|t: Seq<char>|
        #[trigger] is_token_for(key, row_message(row), t) && out[3] == expand_spec(template, t)
}

/// `outs` are the output rows for `rows`, one for one and in the same order.
pub open spec fn batch_outputs(
    rows: Seq<Seq<Seq<char>>>,
    outs: Seq<Seq<Seq<char>>>,
    key: Seq<u8>,
    template: Seq<char>,
) -> bool {
    &&& outs.len() == rows.len()
    &&& forall|i: int| 0 <= i < rows.len() ==> links_row(#[trigger] rows[i], outs[i], key, template)
}

/// Every row's message is short enough for the cipher.
pub open spec fn messages_fit(rows: Seq<Seq<Seq<char>>>) -> bool {
    forall|i: int| 0 <= i < rows.len() ==> (#[trigger] row_message(rows[i])).len() <= GCM_MAX_MESSAGE
}

/// The output record for `rec` once its token is known: the record's fields,
/// and `template` with every `{encrypted}` replaced by `token`.
pub fn link_record(rec: &InputRecord, template: &str, token: &str) -> (r: OutputRecord)
    ensures
        r.email@ == rec.email@,
        r.first_name@ == rec.first_name@,
        r.date_of_service@ == rec.date_of_service@,
        r.url@ == expand_spec(template@, token@),
{
    OutputRecord {
        email: rec.email.clone(),
        first_name: rec.first_name.clone(),
        date_of_service: rec.date_of_service.clone(),
        url: expand(template, token),
    }
}

/// Seals each record's date of service under `key`, puts the token into
/// `template`, and returns the output records in input order. A key of the
/// wrong length fails with `KeyLength` at the first row (an empty batch needs
/// no key); the first row that cannot be sealed fails with `Encryption`.
pub fn link_records(recs: &Vec<InputRecord>, key: &[u8], template: &str) -> (r: Result<
    Vec<OutputRecord>,
    BatchError,
>)
    ensures
        (r matches Err(BatchError::KeyLength { .. })) <==> recs@.len() > 0 && key@.len()
            != KEY_LEN,
        r matches Err(BatchError::KeyLength { row }) ==> row == 0,
        r matches Err(e) ==> e is KeyLength || e is Encryption,
        r matches Err(BatchError::Encryption { row }) ==> {
            &&& key@.len() == KEY_LEN
            &&& row < recs@.len()
            &&& forall|j: int|
                0 <= j < row ==> (#[trigger] row_message(recs@[j].fields())).len()
                    <= GCM_MAX_MESSAGE
        },
        key@.len() == KEY_LEN && (exists|i: int|
            0 <= i < recs@.len() && (#[trigger] row_message(recs@[i].fields())).len()
                > GCM_MAX_MESSAGE) ==> r is Err,
        r is Ok ==> recs@.len() == 0 || (key@.len() == KEY_LEN && forall|i: int|
            0 <= i < recs@.len() ==> (#[trigger] row_message(recs@[i].fields())).len()
                <= GCM_MAX_MESSAGE),
        r matches Ok(outs) ==> {
            &&& outs@.len() == recs@.len()
            &&& forall|i: int|
                0 <= i < recs@.len() ==> links_row(
                    (#[trigger] recs@[i]).fields(),
                    outs@[i].fields(),
                    key@,
                    template@,
                )
        },
{
    let mut outs: Vec<OutputRecord> = Vec::new();
    if recs.len() == 0 {
        return Ok(outs);
    }
    if key.len() != KEY_LEN {
        return Err(BatchError::KeyLength { row: 0 });
    }
    let mut i: usize = 0;
    while i < recs.len()
        invariant
            i <= recs@.len(),
            key@.len() == KEY_LEN,
            outs@.len() == i,
            forall|j: int|
                0 <= j < i ==> (#[trigger] row_message(recs@[j].fields())).len()
                    <= GCM_MAX_MESSAGE,
            forall|j: int|
                0 <= j < i ==> links_row(
                    (#[trigger] recs@[j]).fields(),
                    outs@[j].fields(),
                    key@,
                    template@,
                ),
        decreases recs@.len() - i,
    {
        let rec = &recs[i];
        let msg = rec.date_of_service.as_str().as_bytes();
        assert(msg@ == row_message(rec.fields()));
        match encrypt(key, msg) {
            Err(_) => {
                return Err(BatchError::Encryption { row: i });
            },
            Ok(token) => {
                let out = link_record(rec, template, token.as_str());
                assert(out.fields().subrange(0, 3) =~= rec.fields());
                assert(is_token_for(key@, row_message(rec.fields()), token@));
                assert(links_row(rec.fields(), out.fields(), key@, template@));
                outs.push(out);
            },
        }
        i = i + 1;
    }
    Ok(outs)
}

/// Runs the whole batch on the bytes of a table: decode, link every row in
/// order, encode. The result is the output table's bytes, or the first error,
/// and then no bytes at all.
pub fn run_batch(input: &[u8], key: &[u8], template: &str) -> (r: Result<Vec<u8>, BatchError>)
    ensures
        (r matches Err(BatchError::Parse { .. })) <==> decode_spec(input@) is None,
        (r matches Err(BatchError::Parse { row: None })) <==> text_or_header_bad(input@),
        r matches Err(BatchError::Parse { row: Some(i) }) ==> bad_row_in(input@, i as int),
        r matches Err(e) ==> e != BatchError::Encode,
        decode_spec(input@) matches Some(rows) ==> {
            &&& (r matches Err(BatchError::KeyLength { .. })) <==> rows.len() > 0 && key@.len()
                != KEY_LEN
            &&& r matches Err(BatchError::KeyLength { row }) ==> row == 0
            &&& r matches Err(BatchError::Encryption { row }) ==> {
                &&& key@.len() == KEY_LEN
                &&& row < rows.len()
                &&& forall|j: int|
                    0 <= j < row ==> (#[trigger] row_message(rows[j])).len() <= GCM_MAX_MESSAGE
            }
            &&& key@.len() == KEY_LEN && !messages_fit(rows) ==> r is Err
            &&& r is Ok ==> rows.len() == 0 || (key@.len() == KEY_LEN && messages_fit(rows))
            &&& r matches Ok(b) ==> exists|outs: Seq<Seq<Seq<char>>>|
                #[trigger] batch_outputs(rows, outs, key@, template@) && csv_written(
                    seq![output_header()] + outs,
                ) == Some(b@)
            &&& rows.len() == 0 ==> (r matches Ok(b) && csv_written(seq![output_header()])
                == Some(b@))
        },
{
    let recs = decode(input)?;
    let ghost rows = decode_spec(input@)->0;
    assert forall|i: int| 0 <= i < recs@.len() implies #[trigger] rows[i] == recs@[i].fields() by {}
    let outs = match link_records(&recs, key, template) {
        Ok(outs) => outs,
        Err(e) => {
            proof {
                if !messages_fit(rows) && key@.len() == KEY_LEN {
                    let i = choose|i: int|
                        0 <= i < rows.len() && !((#[trigger] row_message(rows[i])).len()
                            <= GCM_MAX_MESSAGE);
                    assert(row_message(recs@[i].fields()).len() > GCM_MAX_MESSAGE);
                }
            }
            return Err(e);
        },
    };
    let ghost o = output_fields(outs@);
    assert(batch_outputs(rows, o, key@, template@)) by {
        assert forall|i: int| 0 <= i < rows.len() implies links_row(
            #[trigger] rows[i],
            o[i],
            key@,
            template@,
        ) by {
            assert(rows[i] == recs@[i].fields());
        }
    }
    assert(messages_fit(rows)) by {
        assert forall|i: int| 0 <= i < rows.len() implies (#[trigger] row_message(
            rows[i],
        )).len() <= GCM_MAX_MESSAGE by {
            assert(rows[i] == recs@[i].fields());
        }
    }
    if recs.len() == 0 {
        assert(seq![output_header()] + o =~= seq![output_header()]);
    }
    encode(&outs)
}

} // verus!
