//! Net spending over a date window, computed from a tabular transaction export.
//!
//! Rows are decoded into records (date, merchant, decimal amount), filtered by
//! merchant and by an inclusive date range, and summed exactly; the total is
//! returned negated so that money spent reads as a positive figure.

pub mod amount;
pub mod date;
pub mod laws;
pub mod record;
pub mod selection;
pub mod table;
pub mod total;
