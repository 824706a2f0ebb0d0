use vstd::prelude::*;
use crate::amount::{amount_of, parse_amount, Decimal};
use crate::date::{date_of, parse_date, Date};
use crate::table::{fields_view, row_view, RawTable};

verus! {

/// One decoded transaction row.
pub struct Record {
    pub transaction_date: Date,
    pub merchant_name: String,
    pub billing_amount: Decimal,
}

/// A record as plain values.
pub struct RecordView {
    pub transaction_date: Date,
    pub merchant_name: Seq<char>,
    pub billing_amount: Decimal,
}

impl View for Record {
    type V = RecordView;

    open spec fn view(&self) -> RecordView {
        RecordView {
            transaction_date: self.transaction_date,
            merchant_name: self.merchant_name@,
            billing_amount: self.billing_amount,
        }
    }
}

impl RecordView {
    pub open spec fn wf(&self) -> bool {
        self.transaction_date.wf() && self.billing_amount.wf()
    }
}

pub open spec fn date_label() -> Seq<char> {
    "Transaction date"@
}

pub open spec fn merchant_label() -> Seq<char> {
    "Merchant name"@
}

pub open spec fn amount_label() -> Seq<char> {
    "Billing amount"@
}

/// Column `i` is the one and only column of the header named `label`.
pub open spec fn sole_column(header: Seq<Seq<char>>, label: Seq<char>, i: int) -> bool {
    0 <= i < header.len() && header[i] == label && forall|j: int|
        0 <= j < header.len() && header[j] == label ==> j == i
}

pub open spec fn has_sole_column(header: Seq<Seq<char>>, label: Seq<char>) -> bool {
    exists|i: int| sole_column(header, label, i)
}

/// The positions of the date, merchant and amount columns, when each label names exactly
/// one column of the header.
pub open spec fn columns(header: Seq<Seq<char>>) -> Option<(int, int, int)> {
    if has_sole_column(header, date_label()) && has_sole_column(header, merchant_label())
        && has_sole_column(header, amount_label()) {
        Some(
            (
                choose|i: int| sole_column(header, date_label(), i),
                choose|i: int| sole_column(header, merchant_label(), i),
                choose|i: int| sole_column(header, amount_label(), i),
            ),
        )
    } else {
        None
    }
}

/// The record that a row's fields give under the column positions `cols`, if its date
/// and amount can be read.
pub open spec fn record_of(fields: Seq<Seq<char>>, cols: (int, int, int)) -> Option<RecordView> {
    let (d, m, a) = cols;
    if 0 <= d < fields.len() && 0 <= m < fields.len() && 0 <= a < fields.len() {
        match (date_of(fields[d]), amount_of(fields[a])) {
            (Some(date), Some(amount)) => Some(
                RecordView { transaction_date: date, merchant_name: fields[m], billing_amount: amount },
            ),
            _ => None,
        }
    } else {
        None
    }
}

pub open spec fn row_record(row: Option<Seq<Seq<char>>>, cols: (int, int, int)) -> Option<RecordView> {
    match row {
        Some(fields) => record_of(fields, cols),
        None => None,
    }
}

/// The records of the rows that decode, in row order.
pub open spec fn decode_rows(rows: Seq<Option<Seq<Seq<char>>>>, cols: (int, int, int)) -> Seq<RecordView>
    decreases rows.len(),
{
    if rows.len() == 0 {
        Seq::empty()
    } else {
        let prev = decode_rows(rows.drop_last(), cols);
        match row_record(rows.last(), cols) {
            Some(r) => prev.push(r),
            None => prev,
        }
    }
}

/// The records of a table: none when its header is unreadable or lacks one of the
/// three columns.
pub open spec fn decoded(t: (Option<Seq<Seq<char>>>, Seq<Option<Seq<Seq<char>>>>)) -> Seq<RecordView> {
    match t.0 {
        Some(header) => match columns(header) {
            Some(cols) => decode_rows(t.1, cols),
            None => Seq::empty(),
        },
        None => Seq::empty(),
    }
}

pub open spec fn records_view(v: Seq<Record>) -> Seq<RecordView> {
    v.map_values(|r: Record| r@)
}

/// The position of the one column named `label`, if exactly one is.
fn find_column(header: &Vec<String>, label: &String) -> (r: Option<usize>)
    ensures
        r is Some <==> has_sole_column(fields_view(*header), label@),
        r matches Some(i) ==> sole_column(fields_view(*header), label@, i as int),
{
    let ghost h = fields_view(*header);
    let mut found: Option<usize> = None;
    let mut twice = false;
    let mut i: usize = 0;
    while i < header.len()
        invariant
            i <= header.len(),
            h == fields_view(*header),
            h.len() == header.len(),
            !twice ==> match found {
                Some(k) => k < i && h[k as int] == label@ && forall|j: int|
                    0 <= j < i && h[j] == label@ ==> j == k,
                None => forall|j: int| 0 <= j < i ==> h[j] != label@,
            },
            twice ==> !has_sole_column(h, label@),
        decreases header.len() - i,
    {
        if header[i] == *label {
            if found.is_some() {
                if !twice {
                    let k = found.unwrap();
                    assert forall|x: int| !sole_column(h, label@, x) by {
                        if sole_column(h, label@, x) {
                            assert(h[k as int] == label@ && h[i as int] == label@);
                        }
                    }
                }
                twice = true;
            } else {
                found = Some(i);
            }
        }
        i = i + 1;
    }
    if twice {
        None
    } else {
        match found {
            Some(k) => {
                assert(sole_column(h, label@, k as int));
                Some(k)
            },
            None => None,
        }
    }
}

/// The record of one row's fields, under the column positions `(d, m, a)`.
fn decode_fields(fields: &Vec<String>, d: usize, m: usize, a: usize) -> (r: Option<Record>)
    ensures
        row_record(Some(fields_view(*fields)), (d as int, m as int, a as int)) == match r {
            Some(x) => Some(x@),
            None => None::<RecordView>,
        },
        r matches Some(x) ==> x@.wf(),
{
    if d < fields.len() && m < fields.len() && a < fields.len() {
        match (parse_date(fields[d].as_str()), parse_amount(fields[a].as_str())) {
            (Some(date), Some(amount)) => Some(
                Record {
                    transaction_date: date,
                    merchant_name: fields[m].clone(),
                    billing_amount: amount,
                },
            ),
            _ => None,
        }
    } else {
        None
    }
}

/// Decodes the table's rows into records, keeping row order and dropping each row that
/// cannot be read or decoded.
pub fn decode(table: &RawTable) -> (r: Vec<Record>)
    ensures
        records_view(r@) == decoded(table@),
        forall|i: int| 0 <= i < r@.len() ==> (#[trigger] r@[i])@.wf(),
{
    let header = match &table.header {
        Some(h) => h,
        None => {
            return Vec::new();
        },
    };
    let d = find_column(header, &String::from_str("Transaction date"));
    let m = find_column(header, &String::from_str("Merchant name"));
    let a = find_column(header, &String::from_str("Billing amount"));
    let (d, m, a) = match (d, m, a) {
        (Some(d), Some(m), Some(a)) => (d, m, a),
        _ => {
            return Vec::new();
        },
    };
    let ghost h = fields_view(*header);
    let ghost cols = (d as int, m as int, a as int);
    proof {
        assert(columns(h) == Some(cols));
    }
    let ghost rows = table@.1;
    let mut out: Vec<Record> = Vec::new();
    let mut i: usize = 0;
    while i < table.rows.len()
        invariant
            i <= table.rows.len(),
            rows == table@.1,
            cols == (d as int, m as int, a as int),
            rows.len() == table.rows.len(),
            records_view(out@) == decode_rows(rows.take(i as int), cols),
            forall|k: int| 0 <= k < out@.len() ==> (#[trigger] out@[k])@.wf(),
        decreases table.rows.len() - i,
    {
        assert(rows.take(i + 1).drop_last() == rows.take(i as int));
        assert(rows.take(i + 1).last() == row_view(table.rows@[i as int]));
        match &table.rows[i] {
            Some(fields) => {
                assert(table.rows@[i as int] == Some(*fields));
                match decode_fields(fields, d, m, a) {
                    Some(rec) => {
                        let ghost before = out@;
                        let ghost rv = rec@;
                        out.push(rec);
                        assert(records_view(out@) =~= records_view(before).push(rv));
                    },
                    None => {},
                }
            },
            None => {},
        }
        i = i + 1;
    }
    assert(rows.take(i as int) == rows);
    out
}

} // verus!
