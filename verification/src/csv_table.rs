//! Tables in comma-separated form. The cutting of a text into rows and cells is done by
//! the `csv` crate and is not proved here.

use vstd::prelude::*;

verus! {

/// The error type of the `csv` crate. Nothing is known of a value of it.
#[verifier::external_type_specification]
#[verifier::external_body]
pub struct ExCsvError(csv::Error);

/// The rows that the `csv` crate, as it is configured by default, reads from the text
/// `content`: the rows below the heading, each as the texts of its cells. `None` where
/// the crate reports an error instead.
pub uninterp spec fn csv_rows(content: Seq<char>) -> Option<Seq<Seq<Seq<char>>>>;

/// Reads `content` with `csv::Reader::from_reader` and gathers what its `records`
/// yield, each record as the texts of its cells. The first error ends the reading.
/// The contract only names the result: it claims that the rows depend on nothing but
/// the text.
#[verifier::external_body]
pub(crate) fn read_csv(content: &str) -> (result: Result<Vec<Vec<String>>, csv::Error>)
    ensures
        match csv_rows(content@) {
            Some(rows) => result matches Ok(table) && table.deep_view() == rows,
            None => result is Err,
        },
{
    let mut reader = csv::Reader::from_reader(content.as_bytes());
    let mut table = Vec::new();
    for record in reader.records() {
        table.push(record?.iter().map(|cell| cell.to_string()).collect());
    }
    Ok(table)
}

} // verus!
