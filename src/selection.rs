use vstd::prelude::*;
use crate::amount::Decimal;
use crate::date::Date;
use crate::total::{bills_total, calu_total_bills};

verus! {

/// Which end of the window a chosen date sets.
#[derive(Clone, Copy, Debug, PartialEq, Eq, Structural)]
pub enum DateRole {
    Start,
    End,
}

/// The dates chosen so far for the window.
#[derive(Clone, Copy, Debug, PartialEq, Eq, Structural)]
pub struct Selection {
    pub start_date: Option<Date>,
    pub end_date: Option<Date>,
}

/// What a request for the total comes to.
#[derive(Clone, Copy, Debug, PartialEq, Eq, Structural)]
pub enum Outcome {
    /// Neither date has been chosen.
    NoDates,
    /// The end date has been chosen, the start date not.
    NoStartDate,
    /// The start date has been chosen, the end date not.
    NoEndDate,
    /// The start date is not before the end date.
    StartNotBeforeEnd,
    /// No bill counted, or the counted bills cancel out.
    NoData,
    /// The counted bills sum to more than can be held.
    TooLarge,
    /// The amount spent over the window.
    Spent(Decimal),
}

impl Outcome {
    /// Whether the request succeeded.
    pub fn is_ok(&self) -> (r: bool)
        ensures
            r <==> self is Spent,
    {
        match self {
            Outcome::Spent(_) => true,
            _ => false,
        }
    }
}

impl Selection {
    /// No date chosen yet.
    pub fn new() -> (r: Selection)
        ensures
            r.start_date is None,
            r.end_date is None,
    {
        Selection { start_date: None, end_date: None }
    }

    /// The selection with the date for `role` replaced by `date`, the other one kept.
    pub fn with_date(self, role: DateRole, date: Date) -> (r: Selection)
        ensures
            role == DateRole::Start ==> r == (Selection { start_date: Some(date), ..self }),
            role == DateRole::End ==> r == (Selection { end_date: Some(date), ..self }),
    {
        match role {
            DateRole::Start => Selection { start_date: Some(date), ..self },
            DateRole::End => Selection { end_date: Some(date), ..self },
        }
    }
}

/// What a request for the total over `sel`'s window comes to, for the export `csv_bytes`.
pub open spec fn outcome_of(sel: Selection, csv_bytes: Seq<u8>) -> Outcome {
    match (sel.start_date, sel.end_date) {
        (None, None) => Outcome::NoDates,
        (None, Some(_)) => Outcome::NoStartDate,
        (Some(_), None) => Outcome::NoEndDate,
        (Some(start), Some(end)) => if !start.spec_before(end) {
            Outcome::StartNotBeforeEnd
        } else {
            match bills_total(csv_bytes, start, end) {
                None => Outcome::TooLarge,
                Some(d) => if d.units == 0 {
                    Outcome::NoData
                } else {
                    Outcome::Spent(d)
                },
            }
        },
    }
}

/// Answers a request for the total: both dates must be chosen and the start must come
/// before the end; then the bills of the export are totalled over the window, and a zero
/// total is reported as no data.
pub fn calculate(sel: &Selection, csv_bytes: Vec<u8>) -> (r: Outcome)
    ensures
        r == outcome_of(*sel, csv_bytes@),
{
    match (sel.start_date, sel.end_date) {
        (None, None) => Outcome::NoDates,
        (None, Some(_)) => Outcome::NoStartDate,
        (Some(_), None) => Outcome::NoEndDate,
        (Some(start), Some(end)) => {
            if !start.before(&end) {
                Outcome::StartNotBeforeEnd
            } else {
                match calu_total_bills(csv_bytes, start, end) {
                    None => Outcome::TooLarge,
                    Some(d) => if d.units == 0 {
                        Outcome::NoData
                    } else {
                        Outcome::Spent(d)
                    },
                }
            }
        },
    }
}

} // verus!
