use vstd::prelude::*;
use crate::amount::{lemma_pow10_adds, lemma_pow10_positive, pow10, Decimal, MAX_SCALE};
use crate::date::Date;
use crate::record::{decode, decoded, records_view, Record, RecordView};
use crate::table::{csv_table, read_table};

verus! {

/// A record counts toward the total over `[start, end]`: it names a merchant and its date
/// lies in the window, both ends included.
pub open spec fn counts(r: RecordView, start: Date, end: Date) -> bool {
    r.merchant_name.len() > 0 && !r.transaction_date.spec_before(start)
        && !end.spec_before(r.transaction_date)
}

/// The exact sum of the counted amounts, in units of `10^-MAX_SCALE`.
pub open spec fn window_sum(recs: Seq<RecordView>, start: Date, end: Date) -> int
    decreases recs.len(),
{
    if recs.len() == 0 {
        0
    } else {
        let prev = window_sum(recs.drop_last(), start, end);
        if counts(recs.last(), start, end) {
            prev + recs.last().billing_amount.fine()
        } else {
            prev
        }
    }
}

/// The largest scale among the counted amounts, or zero when none counts.
pub open spec fn window_scale(recs: Seq<RecordView>, start: Date, end: Date) -> nat
    decreases recs.len(),
{
    if recs.len() == 0 {
        0
    } else {
        let prev = window_scale(recs.drop_last(), start, end);
        let s = recs.last().billing_amount.scale as nat;
        if counts(recs.last(), start, end) && s > prev {
            s
        } else {
            prev
        }
    }
}

/// The value can be held, negated or not, by a 128-bit signed integer.
pub open spec fn fits(x: int) -> bool {
    i128::MIN < x <= i128::MAX
}

/// The running total of the counted amounts, each brought to the common scale `s`, taken
/// record by record; `None` once a scaled amount or a running total does not fit.
pub open spec fn running(recs: Seq<RecordView>, start: Date, end: Date, s: nat) -> Option<int>
    decreases recs.len(),
{
    if recs.len() == 0 {
        Some(0)
    } else {
        match running(recs.drop_last(), start, end, s) {
            None => None,
            Some(t) => {
                let a = recs.last().billing_amount;
                if counts(recs.last(), start, end) {
                    let term = a.units * pow10((s - a.scale) as nat);
                    if fits(term) && fits(t + term) {
                        Some(t + term)
                    } else {
                        None
                    }
                } else {
                    Some(t)
                }
            },
        }
    }
}

/// The negated total of the counted amounts over `[start, end]`, at the largest scale among
/// them; `None` when the running total at that scale leaves the 128-bit range.
pub open spec fn window_total(recs: Seq<RecordView>, start: Date, end: Date) -> Option<Decimal> {
    let s = window_scale(recs, start, end);
    match running(recs, start, end, s) {
        Some(t) => Some(Decimal { units: (-t) as i128, scale: s as u32 }),
        None => None,
    }
}

pub open spec fn all_wf(recs: Seq<RecordView>) -> bool {
    forall|i: int| 0 <= i < recs.len() ==> (#[trigger] recs[i]).wf()
}

proof fn lemma_scale_bounds(recs: Seq<RecordView>, start: Date, end: Date)
    requires
        all_wf(recs),
    ensures
        window_scale(recs, start, end) <= MAX_SCALE,
        forall|i: int|
            0 <= i < recs.len() && counts(#[trigger] recs[i], start, end)
                ==> recs[i].billing_amount.scale <= window_scale(recs, start, end),
    decreases recs.len(),
{
    if recs.len() > 0 {
        let prev = recs.drop_last();
        assert(all_wf(prev)) by {
            assert forall|i: int| 0 <= i < prev.len() implies (#[trigger] prev[i]).wf() by {
                assert(prev[i] == recs[i]);
            }
        }
        lemma_scale_bounds(prev, start, end);
        assert(recs.last() == recs[recs.len() - 1]);
        assert forall|i: int|
            0 <= i < recs.len() && counts(#[trigger] recs[i], start, end)
                implies recs[i].billing_amount.scale <= window_scale(recs, start, end) by {
            if i < recs.len() - 1 {
                assert(prev[i] == recs[i]);
            }
        }
    }
}

/// A running total at a scale no smaller than any counted amount's is the exact sum.
proof fn lemma_running_exact(recs: Seq<RecordView>, start: Date, end: Date, s: nat)
    requires
        s <= MAX_SCALE,
        forall|i: int|
            0 <= i < recs.len() && counts(#[trigger] recs[i], start, end)
                ==> recs[i].billing_amount.scale <= s,
        running(recs, start, end, s) is Some,
    ensures
        running(recs, start, end, s)->0 * pow10((MAX_SCALE - s) as nat) == window_sum(recs, start, end),
    decreases recs.len(),
{
    if recs.len() > 0 {
        let prev = recs.drop_last();
        assert forall|i: int|
            0 <= i < prev.len() && counts(#[trigger] prev[i], start, end)
                implies prev[i].billing_amount.scale <= s by {
            assert(prev[i] == recs[i]);
        }
        lemma_running_exact(prev, start, end, s);
        let t = running(prev, start, end, s)->0;
        let last = recs.last();
        assert(last == recs[recs.len() - 1]);
        if counts(last, start, end) {
            let a = last.billing_amount;
            let e1 = (s - a.scale) as nat;
            let e2 = (MAX_SCALE - s) as nat;
            lemma_pow10_adds(e1, e2);
            assert(e1 + e2 == (MAX_SCALE - a.scale) as nat);
            let p = pow10(e2);
            assert((t + a.units * pow10(e1)) * p == t * p + a.units * (pow10(e1) * p))
                by (nonlinear_arith);
        }
    }
}

/// `10^e` as a machine integer.
fn pow10_i128(e: u32) -> (r: i128)
    requires
        e <= MAX_SCALE,
    ensures
        r == pow10(e as nat),
{
    proof {
        reveal_with_fuel(pow10, 39);
        assert(pow10(MAX_SCALE as nat) == 100000000000000000000000000000000000000);
    }
    let mut r: i128 = 1;
    let mut k: u32 = 0;
    while k < e
        invariant
            pow10(MAX_SCALE as nat) == 100000000000000000000000000000000000000,
            k <= e <= MAX_SCALE,
            r == pow10(k as nat),
        decreases e - k,
    {
        proof {
            lemma_pow10_positive(k as nat);
            lemma_pow10_adds(k as nat, (MAX_SCALE - k) as nat);
            lemma_pow10_positive((MAX_SCALE - k - 1) as nat);
            assert(pow10((MAX_SCALE - k) as nat) == 10 * pow10((MAX_SCALE - k - 1) as nat));
            assert(r * 10 <= pow10(MAX_SCALE as nat)) by (nonlinear_arith)
                requires
                    r * (10 * pow10((MAX_SCALE - k - 1) as nat)) == pow10(MAX_SCALE as nat),
                    pow10((MAX_SCALE - k - 1) as nat) >= 1,
                    r >= 1,
            ;
        }
        r = r * 10;
        k = k + 1;
    }
    r
}

proof fn lemma_running_none_stays(recs: Seq<RecordView>, start: Date, end: Date, s: nat, i: int)
    requires
        0 <= i <= recs.len(),
        running(recs.take(i), start, end, s) is None,
    ensures
        running(recs, start, end, s) is None,
    decreases recs.len() - i,
{
    if i < recs.len() {
        assert(recs.take(i + 1).drop_last() == recs.take(i));
        lemma_running_none_stays(recs, start, end, s, i + 1);
    } else {
        assert(recs.take(i) == recs);
    }
}

/// Whether the record counts toward the total over `[start, end]`.
pub fn in_window(r: &Record, start: &Date, end: &Date) -> (b: bool)
    ensures
        b == counts(r@, *start, *end),
{
    !r.merchant_name.as_str().is_empty() && !r.transaction_date.before(start)
        && !end.before(&r.transaction_date)
}

/// Sums the billing amounts of the records that name a merchant and are dated within
/// `[start, end]`, and returns the sum negated; `None` when the sum cannot be held.
pub fn total_in_window(records: &Vec<Record>, start: &Date, end: &Date) -> (r: Option<Decimal>)
    requires
        all_wf(records_view(records@)),
    ensures
        r == window_total(records_view(records@), *start, *end),
        r matches Some(d) ==> d.wf() && d.fine() == -window_sum(records_view(records@), *start, *end),
{
    let ghost recs = records_view(records@);
    let n = records.len();
    let mut s: u32 = 0;
    let mut i: usize = 0;
    while i < n
        invariant
            i <= n == records@.len() == recs.len(),
            recs == records_view(records@),
            all_wf(recs),
            s as nat == window_scale(recs.take(i as int), *start, *end),
            s <= MAX_SCALE,
        decreases n - i,
    {
        assert(recs.take(i + 1).drop_last() == recs.take(i as int));
        assert(recs.take(i + 1).last() == recs[i as int]);
        assert(recs[i as int].wf());
        let rec = &records[i];
        if in_window(rec, start, end) && rec.billing_amount.scale > s {
            s = rec.billing_amount.scale;
        }
        i = i + 1;
    }
    assert(recs.take(n as int) == recs);
    proof {
        lemma_scale_bounds(recs, *start, *end);
    }
    let mut t: i128 = 0;
    let mut i: usize = 0;
    while i < n
        invariant
            i <= n == records@.len() == recs.len(),
            recs == records_view(records@),
            all_wf(recs),
            s as nat == window_scale(recs, *start, *end),
            s <= MAX_SCALE,
            forall|k: int|
                0 <= k < recs.len() && counts(#[trigger] recs[k], *start, *end)
                    ==> recs[k].billing_amount.scale <= s,
            running(recs.take(i as int), *start, *end, s as nat) == Some(t as int),
            fits(t as int),
        decreases n - i,
    {
        let ghost prefix = recs.take(i + 1);
        assert(prefix.drop_last() == recs.take(i as int));
        assert(prefix.last() == recs[i as int]);
        let rec = &records[i];
        if in_window(rec, start, end) {
            let a = rec.billing_amount;
            let p = pow10_i128(s - a.scale);
            let sum = match a.units.checked_mul(p) {
                Some(term) if term != i128::MIN => match t.checked_add(term) {
                    Some(v) if v != i128::MIN => v,
                    _ => {
                        proof {
                            lemma_running_none_stays(recs, *start, *end, s as nat, i + 1);
                        }
                        return None;
                    },
                },
                _ => {
                    proof {
                        lemma_running_none_stays(recs, *start, *end, s as nat, i + 1);
                    }
                    return None;
                },
            };
            t = sum;
        }
        i = i + 1;
    }
    assert(recs.take(n as int) == recs);
    proof {
        lemma_running_exact(recs, *start, *end, s as nat);
        lemma_pow10_positive((MAX_SCALE - s) as nat);
        assert((-t) * pow10((MAX_SCALE - s) as nat) == -(t * pow10((MAX_SCALE - s) as nat)))
            by (nonlinear_arith);
    }
    Some(Decimal { units: -t, scale: s })
}

/// The negated total of the bills in `bytes`, a CSV export, dated within `[start, end]`.
pub open spec fn bills_total(bytes: Seq<u8>, start: Date, end: Date) -> Option<Decimal> {
    window_total(decoded(csv_table(bytes)), start, end)
}

/// Reads the CSV export in `csv_bytes`, decodes its rows into bills, and returns the negated
/// sum of the amounts of the bills that name a merchant and are dated within `[start, end]`;
/// `None` when that sum cannot be held.
pub fn calu_total_bills(csv_bytes: Vec<u8>, start: Date, end: Date) -> (r: Option<Decimal>)
    ensures
        r == bills_total(csv_bytes@, start, end),
        r matches Some(d) ==> d.wf() && d.fine() == -window_sum(
            decoded(csv_table(csv_bytes@)),
            start,
            end,
        ),
{
    let table = read_table(csv_bytes.as_slice());
    let records = decode(&table);
    total_in_window(&records, &start, &end)
}

} // verus!
