use vstd::prelude::*;

verus! {

/// A table as the CSV reader hands it over: the header row, if it could be read, and each
/// later row's fields, or `None` for a row that could not be read.
pub struct RawTable {
    pub header: Option<Vec<String>>,
    pub rows: Vec<Option<Vec<String>>>,
}

pub open spec fn fields_view(v: Vec<String>) -> Seq<Seq<char>> {
    v@.map_values(|s: String| s@)
}

pub open spec fn row_view(r: Option<Vec<String>>) -> Option<Seq<Seq<char>>> {
    match r {
        Some(v) => Some(fields_view(v)),
        None => None,
    }
}

impl View for RawTable {
    type V = (Option<Seq<Seq<char>>>, Seq<Option<Seq<Seq<char>>>>);

    open spec fn view(&self) -> Self::V {
        (row_view(self.header), self.rows@.map_values(|r: Option<Vec<String>>| row_view(r)))
    }
}

/// What the `csv` crate reads from the bytes with its default settings: the header row and
/// the later rows, as the view of `RawTable` lays them out.
pub uninterp spec fn csv_table(b: Seq<u8>) -> (Option<Seq<Seq<char>>>, Seq<Option<Seq<Seq<char>>>>);

/// Relies on `csv::Reader::from_reader`, `Reader::headers` and `Reader::records`: with the
/// default settings (first row as header, comma delimiter) the rows read depend on the bytes
/// alone.
#[verifier::external_body]
pub(crate) fn read_table(bytes: &[u8]) -> (r: RawTable)
    ensures
        r@ == csv_table(bytes@),
{
    let mut rdr = csv::Reader::from_reader(bytes);
    let header = rdr.headers().ok().map(|h| h.iter().map(String::from).collect());
    let rows = rdr.records().map(|r| r.ok().map(|rec| rec.iter().map(String::from).collect())).collect();
    RawTable { header, rows }
}

} // verus!
