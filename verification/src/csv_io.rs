//! Delimited-record parsing and re-encoding, delegated to the csv crate.
//! Records are sequences of byte fields; both reading and writing accept a
//! flexible field count per record.

use vstd::prelude::*;

use crate::errors::ISUProcessorError;

verus! {

/// The records a delimited byte stream parses into, each record a sequence
/// of byte fields in order, with no header treatment; `None` when parsing
/// fails. The outcome depends on the bytes alone.
pub uninterp spec fn csv_rows_of(data: Seq<u8>) -> Option<Seq<Seq<Seq<u8>>>>;

/// The delimited encoding of the rows, one line per record. The outcome
/// depends on the rows alone.
pub uninterp spec fn csv_encoding_of(rows: Seq<Seq<Seq<u8>>>) -> Seq<u8>;

/// The records of a byte span, with the empty span known to hold none.
pub open spec fn spec_parse_records(span: Seq<u8>) -> Option<Seq<Seq<Seq<u8>>>> {
    if span.len() == 0 {
        Some(Seq::empty())
    } else {
        csv_rows_of(span)
    }
}

/// Relies on the csv crate's `Reader` over an in-memory byte slice, built
/// flexible and with no header row: it yields every record in order, and
/// empty input yields no records.
#[verifier::external_body]
pub fn csv_parse(data: &[u8]) -> (r: Result<Vec<Vec<Vec<u8>>>, ISUProcessorError>)
    ensures
        r matches Ok(rows) ==> csv_rows_of(data@) == Some(rows.deep_view()),
        r matches Err(e) ==> csv_rows_of(data@) is None && e == ISUProcessorError::CSVError,
        data@.len() == 0 ==> r is Ok,
        r matches Ok(rows) ==> data@.len() == 0 ==> rows@.len() == 0,
{
    let mut reader = csv::ReaderBuilder::new().has_headers(false).flexible(true).from_reader(
        data,
    );
    let mut out: Vec<Vec<Vec<u8>>> = Vec::new();
    for rec in reader.byte_records() {
        match rec {
            Ok(record) => out.push(record.iter().map(|field| field.to_vec()).collect()),
            Err(_) => return Err(ISUProcessorError::CSVError),
        }
    }
    Ok(out)
}

/// Relies on the csv crate's `Writer` into an in-memory buffer, built
/// flexible: it encodes every row in order, one line per record.
#[verifier::external_body]
pub fn csv_write(rows: &Vec<Vec<Vec<u8>>>) -> (r: Result<Vec<u8>, ISUProcessorError>)
    ensures
        r matches Ok(data) ==> data@ == csv_encoding_of(rows.deep_view()),
        r matches Err(e) ==> e == ISUProcessorError::CSVError,
{
    let mut writer = csv::WriterBuilder::new().flexible(true).from_writer(Vec::new());
    for row in rows {
        if writer.write_record(row).is_err() {
            return Err(ISUProcessorError::CSVError);
        }
    }
    match writer.into_inner() {
        Ok(buf) => Ok(buf),
        Err(_) => Err(ISUProcessorError::CSVError),
    }
}

} // verus!
