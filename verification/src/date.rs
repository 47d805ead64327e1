//! Calendar dates with flat whole-month arithmetic.
//!
//! Amortization schedules advance by whole months and compare dates to a
//! maturity date, so a date is modelled as year / month / day and ordered
//! lexicographically by (year, month, day).  Advancing by months keeps the
//! day-of-month unchanged; no day-count proration is attempted.

use vstd::prelude::*;

verus! {

/// A calendar date.  Month runs 1..=12, day 1..=31.
#[derive(Clone, Copy, PartialEq, Eq, Structural, Debug)]
pub struct Date {
    pub year: u32,
    pub month: u32,
    pub day: u32,
}

/// Largest year the model admits; keeps month arithmetic far from overflow.
pub const MAX_YEAR: u32 = 9999;

/// Largest month count a single schedule step may advance by.
pub const MAX_FREQUENCY: u32 = 1200;

/// A well-formed calendar date.
pub open spec fn date_valid(d: Date) -> bool {
    &&& 1 <= d.month <= 12
    &&& 1 <= d.day <= 31
    &&& 1 <= d.year <= MAX_YEAR
}

/// Number of whole months since month 1 of year 0; the key to month
/// arithmetic and to date ordering.
pub open spec fn month_index(d: Date) -> int {
    d.year * 12 + (d.month - 1)
}

/// Date order: by month, then by day within the month.
pub open spec fn date_le(a: Date, b: Date) -> bool {
    ||| month_index(a) < month_index(b)
    ||| (month_index(a) == month_index(b) && a.day <= b.day)
}

/// Strict date order.
pub open spec fn date_lt(a: Date, b: Date) -> bool {
    date_le(a, b) && a != b
}

/// The date `m` whole months after `d`, same day-of-month.
pub open spec fn spec_add_months(d: Date, m: int) -> Date {
    Date {
        year: ((month_index(d) + m) / 12) as u32,
        month: ((month_index(d) + m) % 12 + 1) as u32,
        day: d.day,
    }
}

/// On dates with in-range months, the month index orders first by year and
/// then by month.
proof fn lemma_month_index_order(a: Date, b: Date)
    requires
        1 <= a.month <= 12,
        1 <= b.month <= 12,
    ensures
        month_index(a) < month_index(b) <==> (a.year < b.year || (a.year == b.year
            && a.month < b.month)),
        month_index(a) == month_index(b) <==> (a.year == b.year && a.month == b.month),
{
    assert((a.year * 12 + (a.month - 1) < b.year * 12 + (b.month - 1)) <==> (a.year < b.year || (
    a.year == b.year && a.month < b.month))) by (nonlinear_arith)
        requires
            1 <= a.month <= 12,
            1 <= b.month <= 12,
    {
    }
    assert((a.year * 12 + (a.month - 1) == b.year * 12 + (b.month - 1)) <==> (a.year == b.year
        && a.month == b.month)) by (nonlinear_arith)
        requires
            1 <= a.month <= 12,
            1 <= b.month <= 12,
    {
    }
}

/// What advancing by `0 <= m <= MAX_FREQUENCY` months does to a valid date:
/// the month index grows by exactly `m`, the day is kept, and month and year
/// stay in range (the year may pass `MAX_YEAR`).
pub proof fn lemma_add_months_shape(d: Date, m: int)
    requires
        date_valid(d),
        0 <= m <= MAX_FREQUENCY,
    ensures
        month_index(spec_add_months(d, m)) == month_index(d) + m,
        spec_add_months(d, m).day == d.day,
        1 <= spec_add_months(d, m).month <= 12,
        1 <= spec_add_months(d, m).year,
{
    let x = month_index(d) + m;
    let r = spec_add_months(d, m);
    assert(12 <= x <= (MAX_YEAR as int) * 12 + 11 + MAX_FREQUENCY) by (nonlinear_arith)
        requires
            x == d.year * 12 + (d.month - 1) + m,
            1 <= d.year <= MAX_YEAR,
            1 <= d.month <= 12,
            0 <= m <= MAX_FREQUENCY,
    {
    }
    assert(1 <= x / 12 && x / 12 <= x && 0 <= x % 12 < 12 && x == (x / 12) * 12 + x % 12)
        by (nonlinear_arith)
        requires
            12 <= x,
    {
    }
    assert(r.year == x / 12 && r.month == x % 12 + 1);
    assert(month_index(r) == (x / 12) * 12 + x % 12);
}

/// Compares two dates; `true` when `a` is on or before `b`.
pub fn date_le_exec(a: &Date, b: &Date) -> (r: bool)
    requires
        1 <= a.month <= 12,
        1 <= b.month <= 12,
    ensures
        r == date_le(*a, *b),
{
    proof {
        lemma_month_index_order(*a, *b);
    }
    if a.year != b.year {
        a.year < b.year
    } else if a.month != b.month {
        a.month < b.month
    } else {
        a.day <= b.day
    }
}

/// Advances a date by `m` whole months, keeping the day-of-month.
pub fn add_months(d: &Date, m: u32) -> (r: Date)
    requires
        date_valid(*d),
        m <= MAX_FREQUENCY,
    ensures
        r == spec_add_months(*d, m as int),
{
    proof {
        lemma_add_months_shape(*d, m as int);
    }
    let total: u64 = d.year as u64 * 12 + (d.month as u64 - 1) + m as u64;
    assert(total == month_index(*d) + m);
    let r = Date { year: (total / 12) as u32, month: (total % 12) as u32 + 1, day: d.day };
    assert(r == spec_add_months(*d, m as int));
    r
}

/// Advancing a valid date by 1..=MAX_FREQUENCY months moves it strictly later.
pub proof fn lemma_add_months_strictly_later(d: Date, m: int)
    requires
        date_valid(d),
        1 <= m <= MAX_FREQUENCY,
    ensures
        date_lt(d, spec_add_months(d, m)),
{
    lemma_add_months_shape(d, m);
    let r = spec_add_months(d, m);
    assert(r != d);
}

/// Strict date order is transitive on dates with in-range months.
pub proof fn lemma_date_lt_trans(a: Date, b: Date, c: Date)
    requires
        1 <= a.month <= 12,
        1 <= b.month <= 12,
        1 <= c.month <= 12,
        date_lt(a, b),
        date_lt(b, c),
    ensures
        date_lt(a, c),
{
    lemma_month_index_order(a, b);
    lemma_month_index_order(b, c);
    lemma_month_index_order(a, c);
}

/// A date with in-range month and day whose month index is bounded by that
/// of a valid date is itself valid.
pub proof fn lemma_month_index_bounds_year(a: Date, b: Date)
    requires
        1 <= a.month <= 12,
        1 <= a.day <= 31,
        1 <= a.year,
        date_valid(b),
        month_index(a) <= month_index(b),
    ensures
        date_valid(a),
{
    assert(a.year <= b.year) by (nonlinear_arith)
        requires
            a.year * 12 + (a.month - 1) <= b.year * 12 + (b.month - 1),
            1 <= a.month <= 12,
            1 <= b.month <= 12,
    {
    }
}

} // verus!
