use vstd::prelude::*;
use crate::amount::{amount_of, stripped};
use crate::date::Date;
use crate::record::{decode_rows, row_record, RecordView};
use crate::total::{bills_total, counts, running, window_scale, window_sum, window_total};

verus! {

/// The total depends on the bytes and the two dates alone: the same input gives the same
/// result every time.
pub proof fn law_total_repeatable(b1: Seq<u8>, b2: Seq<u8>, start: Date, end: Date)
    requires
        b1 == b2,
    ensures
        bills_total(b1, start, end) == bills_total(b2, start, end),
{
}

proof fn lemma_insert_split<A>(a: Seq<A>, x: A, b: Seq<A>)
    requires
        b.len() > 0,
    ensures
        (a + seq![x] + b).drop_last() == a + seq![x] + b.drop_last(),
        (a + seq![x] + b).last() == b.last(),
        (a + b).drop_last() == a + b.drop_last(),
        (a + b).last() == b.last(),
{
    assert((a + seq![x] + b).drop_last() =~= a + seq![x] + b.drop_last());
    assert((a + b).drop_last() =~= a + b.drop_last());
}

proof fn lemma_insert_empty<A>(a: Seq<A>, x: A)
    ensures
        (a + seq![x] + Seq::<A>::empty()).drop_last() == a,
        (a + seq![x] + Seq::<A>::empty()).last() == x,
        a + Seq::<A>::empty() == a,
{
    assert((a + seq![x] + Seq::<A>::empty()).drop_last() =~= a);
    assert(a + Seq::<A>::empty() =~= a);
}

proof fn lemma_skip_running(
    a: Seq<RecordView>,
    r: RecordView,
    b: Seq<RecordView>,
    start: Date,
    end: Date,
    s: nat,
)
    requires
        !counts(r, start, end),
    ensures
        running(a + seq![r] + b, start, end, s) == running(a + b, start, end, s),
    decreases b.len(),
{
    if b.len() == 0 {
        lemma_insert_empty(a, r);
    } else {
        lemma_insert_split(a, r, b);
        lemma_skip_running(a, r, b.drop_last(), start, end, s);
    }
}

/// A record that does not count leaves the total unchanged, wherever it stands.
proof fn lemma_skip(a: Seq<RecordView>, r: RecordView, b: Seq<RecordView>, start: Date, end: Date)
    requires
        !counts(r, start, end),
    ensures
        window_sum(a + seq![r] + b, start, end) == window_sum(a + b, start, end),
        window_scale(a + seq![r] + b, start, end) == window_scale(a + b, start, end),
        window_total(a + seq![r] + b, start, end) == window_total(a + b, start, end),
    decreases b.len(),
{
    if b.len() == 0 {
        lemma_insert_empty(a, r);
    } else {
        lemma_insert_split(a, r, b);
        lemma_skip(a, r, b.drop_last(), start, end);
    }
    lemma_skip_running(a, r, b, start, end, window_scale(a + b, start, end));
}

/// A record that counts adds its amount to the sum, wherever it stands.
proof fn lemma_add(a: Seq<RecordView>, r: RecordView, b: Seq<RecordView>, start: Date, end: Date)
    requires
        counts(r, start, end),
    ensures
        window_sum(a + seq![r] + b, start, end) == window_sum(a + b, start, end)
            + r.billing_amount.fine(),
    decreases b.len(),
{
    if b.len() == 0 {
        lemma_insert_empty(a, r);
    } else {
        lemma_insert_split(a, r, b);
        lemma_add(a, r, b.drop_last(), start, end);
    }
}

/// Both ends of the window are included: a record that names a merchant and is dated
/// exactly `start` or exactly `end` adds its amount to the sum, when `start` is not after
/// `end`.
pub proof fn law_window_ends_included(
    a: Seq<RecordView>,
    r: RecordView,
    b: Seq<RecordView>,
    start: Date,
    end: Date,
)
    requires
        !end.spec_before(start),
        r.merchant_name.len() > 0,
        r.transaction_date == start || r.transaction_date == end,
    ensures
        window_sum(a + seq![r] + b, start, end) == window_sum(a + b, start, end)
            + r.billing_amount.fine(),
{
    lemma_add(a, r, b, start, end);
}

/// A record dated before `start` or after `end` changes nothing.
pub proof fn law_outside_window_excluded(
    a: Seq<RecordView>,
    r: RecordView,
    b: Seq<RecordView>,
    start: Date,
    end: Date,
)
    requires
        r.transaction_date.spec_before(start) || end.spec_before(r.transaction_date),
    ensures
        window_total(a + seq![r] + b, start, end) == window_total(a + b, start, end),
        window_sum(a + seq![r] + b, start, end) == window_sum(a + b, start, end),
{
    lemma_skip(a, r, b, start, end);
}

/// A record without a merchant name changes nothing, whatever its date and amount.
pub proof fn law_no_merchant_excluded(
    a: Seq<RecordView>,
    r: RecordView,
    b: Seq<RecordView>,
    start: Date,
    end: Date,
)
    requires
        r.merchant_name.len() == 0,
    ensures
        window_total(a + seq![r] + b, start, end) == window_total(a + b, start, end),
        window_sum(a + seq![r] + b, start, end) == window_sum(a + b, start, end),
{
    lemma_skip(a, r, b, start, end);
}

proof fn lemma_decode_concat(a: Seq<Option<Seq<Seq<char>>>>, b: Seq<Option<Seq<Seq<char>>>>, cols: (int, int, int))
    ensures
        decode_rows(a + b, cols) == decode_rows(a, cols) + decode_rows(b, cols),
    decreases b.len(),
{
    if b.len() == 0 {
        assert(a + b =~= a);
        assert(decode_rows(a, cols) + decode_rows(b, cols) =~= decode_rows(a, cols));
    } else {
        assert((a + b).drop_last() =~= a + b.drop_last());
        assert((a + b).last() == b.last());
        lemma_decode_concat(a, b.drop_last(), cols);
        let da = decode_rows(a, cols);
        let db = decode_rows(b.drop_last(), cols);
        match row_record(b.last(), cols) {
            Some(x) => {
                assert((da + db).push(x) =~= da + db.push(x));
            },
            None => {},
        }
    }
}

/// A row that cannot be read or decoded is dropped, and the rows after it are decoded as if
/// it were not there.
pub proof fn law_bad_row_dropped(
    a: Seq<Option<Seq<Seq<char>>>>,
    bad: Option<Seq<Seq<char>>>,
    b: Seq<Option<Seq<Seq<char>>>>,
    cols: (int, int, int),
)
    requires
        row_record(bad, cols) is None,
    ensures
        decode_rows(a + seq![bad] + b, cols) == decode_rows(a, cols) + decode_rows(b, cols),
{
    lemma_decode_concat(a + seq![bad], b, cols);
    lemma_decode_concat(a, seq![bad], cols);
    assert(seq![bad].drop_last() =~= Seq::<Option<Seq<Seq<char>>>>::empty());
    assert(seq![bad].last() == bad);
    assert(decode_rows(Seq::<Option<Seq<Seq<char>>>>::empty(), cols) == Seq::<RecordView>::empty());
    assert(decode_rows(seq![bad], cols) =~= Seq::<RecordView>::empty());
    assert(decode_rows(a, cols) + Seq::<RecordView>::empty() =~= decode_rows(a, cols));
}

proof fn lemma_stripped_concat(a: Seq<char>, b: Seq<char>)
    ensures
        stripped(a + b) == stripped(a) + stripped(b),
    decreases b.len(),
{
    if b.len() == 0 {
        assert(a + b =~= a);
        assert(stripped(a) + stripped(b) =~= stripped(a));
    } else {
        assert((a + b).drop_last() =~= a + b.drop_last());
        assert((a + b).last() == b.last());
        lemma_stripped_concat(a, b.drop_last());
        let sa = stripped(a);
        let sb = stripped(b.drop_last());
        assert((sa + sb).push(b.last()) =~= sa + sb.push(b.last()));
    }
}

/// Commas and tabs anywhere in an amount field do not change the amount read.
pub proof fn law_separators_ignored(a: Seq<char>, c: char, b: Seq<char>)
    requires
        c == ',' || c == '\t',
    ensures
        amount_of(a + seq![c] + b) == amount_of(a + b),
{
    lemma_stripped_concat(a + seq![c], b);
    lemma_stripped_concat(a, seq![c]);
    lemma_stripped_concat(a, b);
    assert(seq![c].drop_last() =~= Seq::<char>::empty());
    assert(seq![c].last() == c);
    assert(stripped(Seq::<char>::empty()) == Seq::<char>::empty());
    assert(stripped(seq![c]) =~= Seq::<char>::empty());
    assert(stripped(a) + Seq::<char>::empty() =~= stripped(a));
}

} // verus!
