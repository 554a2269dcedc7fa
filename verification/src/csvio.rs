//! The trusted boundary to the `csv` crate: raw database bytes in, rows of
//! text fields out.

use vstd::prelude::*;

verus! {

/// What the CSV reader makes of the raw bytes: the sequence of rows, each a
/// sequence of fields, or nothing when the bytes cannot be decoded. The
/// result is a function of the bytes alone.
pub uninterp spec fn csv_parse(data: Seq<u8>) -> Option<Seq<Seq<Seq<char>>>>;

/// Relies on `csv::ReaderBuilder` / `csv::Reader::into_records` (csv 1.4):
/// with headers off and flexible field counts, the reader splits the input
/// bytes into records and fields by the CSV quoting rules, in input order,
/// deterministically; a record fails only when it cannot be decoded as text
/// (invalid UTF-8). One failed record fails the whole read here.
#[verifier::external_body]
pub(crate) fn parse_csv(data: &[u8]) -> (r: Option<Vec<Vec<String>>>)
    ensures
        r is Some <==> csv_parse(data@) is Some,
        r matches Some(rows) ==> csv_parse(data@) == Some(rows.deep_view()),
{
    let rdr = csv::ReaderBuilder::new().has_headers(false).flexible(true).from_reader(data);
    let mut out: Vec<Vec<String>> = Vec::new();
    for rec in rdr.into_records() {
        match rec {
            Ok(r) => out.push(r.iter().map(|f| f.to_string()).collect()),
            Err(_) => return None,
        }
    }
    Some(out)
}

} // verus!
