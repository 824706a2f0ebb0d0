use bill_total::amount::{parse_amount, Decimal};
use bill_total::date::{parse_date, Date};
use bill_total::selection::{calculate, DateRole, Outcome, Selection};
use bill_total::total::calu_total_bills;

const HEADER: &str = "Transaction date,Merchant name,Billing amount\n";

fn csv(rows: &[&str]) -> Vec<u8> {
    let mut text = String::from(HEADER);
    for row in rows {
        text.push_str(row);
        text.push('\n');
    }
    text.into_bytes()
}

fn date(y: i32, m: u32, d: u32) -> Date {
    Date::from_ymd(y, m, d).unwrap()
}

fn dec(units: i128, scale: u32) -> Decimal {
    Decimal { units, scale }
}

#[test]
fn same_input_same_total() {
    let bytes = csv(&["01/03/2024,Shop A,-10.00", "05/03/2024,Shop B,-2.5"]);
    let a = calu_total_bills(bytes.clone(), date(2024, 3, 1), date(2024, 3, 31));
    let b = calu_total_bills(bytes, date(2024, 3, 1), date(2024, 3, 31));
    assert_eq!(a, b);
    assert_eq!(a, Some(dec(1250, 2)));
}

#[test]
fn window_ends_are_included() {
    let bytes = csv(&["01/03/2024,Shop A,-1.00", "31/03/2024,Shop B,-2.00"]);
    assert_eq!(calu_total_bills(bytes, date(2024, 3, 1), date(2024, 3, 31)), Some(dec(300, 2)));
}

#[test]
fn days_just_outside_are_excluded() {
    let bytes = csv(&[
        "29/02/2024,Shop A,-1.00",
        "01/04/2024,Shop B,-2.00",
        "15/03/2024,Shop C,-4.00",
    ]);
    assert_eq!(calu_total_bills(bytes, date(2024, 3, 1), date(2024, 3, 31)), Some(dec(400, 2)));
}

#[test]
fn empty_merchant_is_excluded() {
    let bytes = csv(&["15/03/2024,,-5.00", "16/03/2024,Shop,-1.00"]);
    assert_eq!(calu_total_bills(bytes, date(2024, 3, 1), date(2024, 3, 31)), Some(dec(100, 2)));
    let only_empty = csv(&["15/03/2024,,-5.00"]);
    assert_eq!(calu_total_bills(only_empty, date(2024, 3, 1), date(2024, 3, 31)), Some(dec(0, 0)));
}

#[test]
fn malformed_rows_are_dropped() {
    let bytes = csv(&[
        "2024-13-40,Shop A,-1.00",
        "02/03/2024,Shop B,abc",
        "40/13/2024,Shop C,-1.00",
        "03/03/2024,Shop D,-7.25",
    ]);
    assert_eq!(calu_total_bills(bytes, date(2024, 3, 1), date(2024, 3, 31)), Some(dec(725, 2)));
}

#[test]
fn row_with_wrong_field_count_is_dropped() {
    let bytes = csv(&["02/03/2024,Shop B", "03/03/2024,Shop D,-7.25"]);
    assert_eq!(calu_total_bills(bytes, date(2024, 3, 1), date(2024, 3, 31)), Some(dec(725, 2)));
}

#[test]
fn total_is_negated_sum() {
    let bytes = csv(&["01/03/2024,Shop A,-10.00", "02/03/2024,Shop B,-25.50"]);
    assert_eq!(calu_total_bills(bytes, date(2024, 3, 1), date(2024, 3, 31)), Some(dec(3550, 2)));
}

#[test]
fn refunds_reduce_the_total() {
    let bytes = csv(&["01/03/2024,Shop A,-10.00", "02/03/2024,Shop A,4.5"]);
    assert_eq!(calu_total_bills(bytes, date(2024, 3, 1), date(2024, 3, 31)), Some(dec(550, 2)));
}

#[test]
fn mixed_scales_are_summed_exactly() {
    let bytes = csv(&["01/03/2024,A,-0.1", "02/03/2024,B,-0.02", "03/03/2024,C,-3"]);
    assert_eq!(calu_total_bills(bytes, date(2024, 3, 1), date(2024, 3, 31)), Some(dec(312, 2)));
}

#[test]
fn separators_are_stripped() {
    assert_eq!(parse_amount("1,234.56"), Some(dec(123456, 2)));
    assert_eq!(parse_amount("1\t234.56"), parse_amount("1234.56"));
    assert_eq!(parse_amount("\t-10.00\t"), Some(dec(-1000, 2)));
    let bytes = csv(&["01/03/2024,Shop A,\"-1,234.56\"", "02/03/2024,Shop B,\t-0.44"]);
    assert_eq!(calu_total_bills(bytes, date(2024, 3, 1), date(2024, 3, 31)), Some(dec(123500, 2)));
}

#[test]
fn end_to_end_example() {
    let bytes = csv(&[
        "01/03/2024,Shop A,-10.00",
        "15/03/2024,,-5.00",
        "01/04/2024,Shop B,-20.00",
    ]);
    assert_eq!(calu_total_bills(bytes, date(2024, 3, 1), date(2024, 3, 31)), Some(dec(1000, 2)));
}

#[test]
fn columns_are_found_by_label() {
    let text = "Billing amount,Note,Merchant name,Transaction date\n-3.00,x,Shop,05/03/2024\n";
    let total = calu_total_bills(text.as_bytes().to_vec(), date(2024, 3, 1), date(2024, 3, 31));
    assert_eq!(total, Some(dec(300, 2)));
}

#[test]
fn missing_column_gives_zero() {
    let text = "Transaction date,Merchant,Billing amount\n05/03/2024,Shop,-3.00\n";
    let total = calu_total_bills(text.as_bytes().to_vec(), date(2024, 3, 1), date(2024, 3, 31));
    assert_eq!(total, Some(dec(0, 0)));
}

#[test]
fn repeated_column_gives_zero() {
    let text = "Transaction date,Merchant name,Billing amount,Billing amount\n05/03/2024,Shop,-3.00,-1\n";
    let total = calu_total_bills(text.as_bytes().to_vec(), date(2024, 3, 1), date(2024, 3, 31));
    assert_eq!(total, Some(dec(0, 0)));
}

#[test]
fn empty_input_gives_zero() {
    assert_eq!(calu_total_bills(Vec::new(), date(2024, 3, 1), date(2024, 3, 31)), Some(dec(0, 0)));
}

#[test]
fn overflowing_sum_gives_none() {
    let big = "-170141183460469231731687303715884105727";
    let row = format!("01/03/2024,Shop,{}", big);
    let bytes = csv(&[row.as_str(), row.as_str()]);
    assert_eq!(calu_total_bills(bytes, date(2024, 3, 1), date(2024, 3, 31)), None);
}

#[test]
fn decimal_forms() {
    assert_eq!(parse_amount("+5"), Some(dec(5, 0)));
    assert_eq!(parse_amount(".5"), Some(dec(5, 1)));
    assert_eq!(parse_amount("5."), Some(dec(5, 0)));
    assert_eq!(parse_amount("-0.50"), Some(dec(-50, 2)));
    assert_eq!(parse_amount("1.2.3"), None);
    assert_eq!(parse_amount(""), None);
    assert_eq!(parse_amount("-"), None);
    assert_eq!(parse_amount("."), None);
    assert_eq!(parse_amount("abc"), None);
    assert_eq!(parse_amount("1 000"), None);
    assert_eq!(parse_amount("1700000000000000000000000000000000000000"), None);
}

#[test]
fn dates_are_read_day_first() {
    assert_eq!(parse_date("01/03/2024"), Some(date(2024, 3, 1)));
    assert_eq!(parse_date("29/02/2024"), Some(date(2024, 2, 29)));
    assert_eq!(parse_date("29/02/2023"), None);
    assert_eq!(parse_date("2024-13-40"), None);
    assert_eq!(parse_date("2024/03/01"), None);
    assert_eq!(parse_date(""), None);
}

#[test]
fn dates_from_fields() {
    assert_eq!(Date::from_ymd(2024, 2, 29), Some(Date { year: 2024, month: 2, day: 29 }));
    assert_eq!(Date::from_ymd(2023, 2, 29), None);
    assert_eq!(Date::from_ymd(2024, 13, 1), None);
    assert_eq!(Date::from_ymd(2024, 4, 31), None);
    assert!(date(2024, 3, 1).before(&date(2024, 3, 2)));
    assert!(date(2023, 12, 31).before(&date(2024, 1, 1)));
    assert!(!date(2024, 3, 1).before(&date(2024, 3, 1)));
}

#[test]
fn outcome_without_dates() {
    let bytes = csv(&["01/03/2024,Shop A,-10.00"]);
    let sel = Selection::new();
    assert_eq!(calculate(&sel, bytes.clone()), Outcome::NoDates);
    let only_start = sel.with_date(DateRole::Start, date(2024, 3, 1));
    assert_eq!(calculate(&only_start, bytes.clone()), Outcome::NoEndDate);
    let only_end = sel.with_date(DateRole::End, date(2024, 3, 31));
    assert_eq!(calculate(&only_end, bytes), Outcome::NoStartDate);
}

#[test]
fn outcome_with_dates() {
    let bytes = csv(&["01/03/2024,Shop A,-10.00"]);
    let same = Selection::new()
        .with_date(DateRole::Start, date(2024, 3, 1))
        .with_date(DateRole::End, date(2024, 3, 1));
    assert_eq!(calculate(&same, bytes.clone()), Outcome::StartNotBeforeEnd);
    let sel = same.with_date(DateRole::End, date(2024, 3, 31));
    assert_eq!(sel.start_date, Some(date(2024, 3, 1)));
    let out = calculate(&sel, bytes);
    assert_eq!(out, Outcome::Spent(dec(1000, 2)));
    assert!(out.is_ok());
    let none = calculate(&sel, csv(&["01/05/2024,Shop A,-10.00"]));
    assert_eq!(none, Outcome::NoData);
    assert!(!none.is_ok());
    let big = "-170141183460469231731687303715884105727";
    let row = format!("01/03/2024,Shop,{}", big);
    assert_eq!(calculate(&sel, csv(&[row.as_str(), row.as_str()])), Outcome::TooLarge);
}
