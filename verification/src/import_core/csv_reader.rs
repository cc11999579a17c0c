//! Reading the fields of a CSV text with the `csv` crate.
use vstd::prelude::*;

verus! {

/// What the `csv` crate reads from `data`, with `delimiter` between fields and,
/// when `flexible`, records of any length: the fields of the header row (`None`
/// when they are not valid UTF-8) and the fields of each following record
/// (`None` for a record it reports an error for).
pub uninterp spec fn csv_table(data: Seq<u8>, delimiter: u8, flexible: bool) -> (
    Option<Seq<Seq<char>>>,
    Seq<Option<Seq<Seq<char>>>>,
);

/// Reads `data` with `csv::ReaderBuilder` (`delimiter`, `flexible`), then
/// `Reader::headers` and `Reader::records`. The result is named by `csv_table`,
/// a function of the bytes and the two settings alone; nothing more is claimed.
#[verifier::external_body]
pub(crate) fn read_csv_table(data: &[u8], delimiter: u8, flexible: bool) -> (res: (
    Option<Vec<String>>,
    Vec<Option<Vec<String>>>,
))
    ensures
        res.deep_view() == csv_table(data@, delimiter, flexible),
{
    let mut rdr = csv::ReaderBuilder::new().delimiter(delimiter).flexible(flexible).from_reader(
        data,
    );
    let headers = rdr.headers().ok().map(|h| h.iter().map(|f| f.to_string()).collect());
    let records = rdr.records().map(|r| r.ok().map(|rec| rec.iter().map(|f| f.to_string()).collect())).collect();
    (headers, records)
}

} // verus!
