use vstd::prelude::*;

verus! {

/// Largest number of digits after the decimal point that an amount may carry.
pub const MAX_SCALE: u32 = 38;

/// `10` raised to `e`.
pub open spec fn pow10(e: nat) -> int
    decreases e,
{
    if e == 0 { 1 } else { 10 * pow10((e - 1) as nat) }
}

pub proof fn lemma_pow10_positive(e: nat)
    ensures
        pow10(e) >= 1,
    decreases e,
{
    if e > 0 {
        lemma_pow10_positive((e - 1) as nat);
    }
}

pub proof fn lemma_pow10_adds(a: nat, b: nat)
    ensures
        pow10(a) * pow10(b) == pow10(a + b),
    decreases b,
{
    if b > 0 {
        lemma_pow10_adds(a, (b - 1) as nat);
        assert(pow10(a + b) == 10 * pow10((a + b - 1) as nat));
        assert(pow10(a) * (10 * pow10((b - 1) as nat)) == 10 * (pow10(a) * pow10((b - 1) as nat)))
            by (nonlinear_arith);
    }
}

/// A decimal number whose value is `units / 10^scale`.
#[derive(Clone, Copy, Debug, PartialEq, Eq, Structural)]
pub struct Decimal {
    pub units: i128,
    pub scale: u32,
}

impl Decimal {
    pub open spec fn wf(&self) -> bool {
        self.scale <= MAX_SCALE
    }

    /// The value in units of `10^-MAX_SCALE`, which every well-formed decimal is a whole
    /// number of: two well-formed decimals are equal in value exactly when these agree.
    pub open spec fn fine(&self) -> int {
        self.units * pow10((MAX_SCALE - self.scale) as nat)
    }
}

/// Separators that are dropped from an amount before it is read.
pub open spec fn is_separator(c: char) -> bool {
    c == ',' || c == '\t'
}

/// `s` without its commas and tabs.
pub open spec fn stripped(s: Seq<char>) -> Seq<char>
    decreases s.len(),
{
    if s.len() == 0 {
        s
    } else if is_separator(s.last()) {
        stripped(s.drop_last())
    } else {
        stripped(s.drop_last()).push(s.last())
    }
}

pub open spec fn is_digit(c: char) -> bool {
    '0' <= c && c <= '9'
}

pub open spec fn digit_value(c: char) -> int {
    c as int - '0' as int
}

/// The unsigned part of a numeral, read left to right: the value of its digits taken
/// together, how many digits follow the point, whether a point and a digit were seen,
/// and whether every character was a digit or the single point.
pub open spec fn scan(s: Seq<char>) -> (int, nat, bool, bool, bool)
    decreases s.len(),
{
    if s.len() == 0 {
        (0, 0, false, false, true)
    } else {
        let (mag, frac, dot, dig, ok) = scan(s.drop_last());
        let c = s.last();
        if is_digit(c) {
            (mag * 10 + digit_value(c), if dot { frac + 1 } else { frac }, dot, true, ok)
        } else if c == '.' {
            (mag, frac, true, dig, ok && !dot)
        } else {
            (mag, frac, dot, dig, false)
        }
    }
}

pub open spec fn has_sign(s: Seq<char>) -> bool {
    s.len() > 0 && (s[0] == '-' || s[0] == '+')
}

/// The decimal that `s` writes as an optional sign, digits and at most one point, with at
/// least one digit; `None` for any other text, or for one too large to hold.
pub open spec fn decimal_of(s: Seq<char>) -> Option<Decimal> {
    let neg = s.len() > 0 && s[0] == '-';
    let body = if has_sign(s) { s.skip(1) } else { s };
    let (mag, frac, dot, dig, ok) = scan(body);
    if ok && dig && mag <= i128::MAX && frac <= MAX_SCALE {
        Some(Decimal { units: (if neg { -mag } else { mag }) as i128, scale: frac as u32 })
    } else {
        None
    }
}

/// The amount that a field holds: its text without commas and tabs, read as a decimal.
pub open spec fn amount_of(s: Seq<char>) -> Option<Decimal> {
    decimal_of(stripped(s))
}

proof fn lemma_scan_bounds(s: Seq<char>)
    ensures
        scan(s).0 >= 0,
        scan(s).1 <= s.len(),
    decreases s.len(),
{
    if s.len() > 0 {
        lemma_scan_bounds(s.drop_last());
    }
}

/// Reads `s` (already free of separators) as a decimal.
fn read_decimal(s: &Vec<char>) -> (r: Option<Decimal>)
    ensures
        r == decimal_of(s@),
        r is Some ==> r->0.wf(),
{
    let n = s.len();
    let neg = n > 0 && s[0] == '-';
    let start: usize = if n > 0 && (s[0] == '-' || s[0] == '+') { 1 } else { 0 };
    let ghost body = if has_sign(s@) { s@.skip(1) } else { s@ };
    let mut mag: u128 = 0;
    let mut too_big = false;
    let mut frac: usize = 0;
    let mut dot = false;
    let mut dig = false;
    let mut ok = true;
    let mut i: usize = start;
    while i < n
        invariant
            start <= i <= n,
            n == s@.len(),
            body == s@.skip(start as int),
            ({
                let (m, f, d, g, k) = scan(body.take(i - start));
                f == frac && d == dot && g == dig && k == ok
                    && (too_big ==> m > i128::MAX)
                    && (!too_big ==> m == mag && mag <= i128::MAX)
            }),
        decreases n - i,
    {
        let c = s[i];
        let ghost prev = body.take(i - start);
        assert(body.take(i + 1 - start).drop_last() == prev);
        assert(body.take(i + 1 - start).last() == c);
        proof {
            lemma_scan_bounds(prev);
        }
        if '0' <= c && c <= '9' {
            let d = (c as u32 - '0' as u32) as u128;
            if !too_big {
                if mag <= (i128::MAX as u128 - d) / 10 {
                    mag = mag * 10 + d;
                } else {
                    too_big = true;
                }
            }
            if dot {
                frac = frac + 1;
            }
            dig = true;
        } else if c == '.' {
            ok = ok && !dot;
            dot = true;
        } else {
            ok = false;
        }
        i = i + 1;
    }
    assert(body.take(n - start) == body);
    if ok && dig && !too_big && frac <= MAX_SCALE as usize {
        let units: i128 = if neg { -(mag as i128) } else { mag as i128 };
        Some(Decimal { units, scale: frac as u32 })
    } else {
        None
    }
}

/// Reads an amount field: commas and tabs are dropped, the rest must be a decimal.
pub fn parse_amount(s: &str) -> (r: Option<Decimal>)
    ensures
        r == amount_of(s@),
        r is Some ==> r->0.wf(),
{
    let n = s.unicode_len();
    let mut kept: Vec<char> = Vec::new();
    let mut i: usize = 0;
    while i < n
        invariant
            i <= n,
            n == s@.len(),
            kept@ == stripped(s@.take(i as int)),
        decreases n - i,
    {
        let c = s.get_char(i);
        assert(s@.take(i + 1).drop_last() == s@.take(i as int));
        if c != ',' && c != '\t' {
            kept.push(c);
        }
        i = i + 1;
    }
    assert(s@.take(n as int) == s@);
    read_decimal(&kept)
}

} // verus!
