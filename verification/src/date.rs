//! Proleptic Gregorian calendar arithmetic for [`Date`].
//!
//! The representable dates span the years `-262143` through `262142`;
//! composing or advancing a date past that range is a failure.

use vstd::prelude::*;

use crate::Date;

verus! {

/// Smallest representable year.
pub const MIN_YEAR: i32 = -262143;

/// Largest representable year.
pub const MAX_YEAR: i32 = 262142;

/// Leap years of the proleptic Gregorian calendar.
pub open spec fn is_leap_year(y: int) -> bool {
    (y % 4 == 0 && y % 100 != 0) || y % 400 == 0
}

/// Number of days in month `m` of year `y` (for `1 <= m <= 12`).
pub open spec fn spec_days_in_month(y: int, m: int) -> int {
    if m == 2 {
        if is_leap_year(y) {
            29
        } else {
            28
        }
    } else if m == 4 || m == 6 || m == 9 || m == 11 {
        30
    } else {
        31
    }
}

/// The day after `d`, or `None` past the last representable date.
pub open spec fn spec_succ(d: Date) -> Option<Date> {
    if d.day < spec_days_in_month(d.year as int, d.month as int) {
        Some(Date { year: d.year, month: d.month, day: (d.day + 1) as u32 })
    } else if d.month < 12 {
        Some(Date { year: d.year, month: (d.month + 1) as u32, day: 1 })
    } else if d.year < MAX_YEAR {
        Some(Date { year: (d.year + 1) as i32, month: 1, day: 1 })
    } else {
        None
    }
}

/// `d` advanced by `k` days, or `None` past the last representable date.
pub open spec fn spec_plus_days(d: Date, k: nat) -> Option<Date>
    decreases k,
{
    if k == 0 {
        Some(d)
    } else {
        match spec_succ(d) {
            Some(n) => spec_plus_days(n, (k - 1) as nat),
            None => None,
        }
    }
}

/// The valid dates: year in range, month in range, day within the month.
pub open spec fn spec_date_wf(d: Date) -> bool {
    &&& MIN_YEAR <= d.year <= MAX_YEAR
    &&& 1 <= d.month <= 12
    &&& 1 <= d.day <= spec_days_in_month(d.year as int, d.month as int)
}

/// Chronological order on dates, by year, then month, then day.
pub open spec fn date_le(a: Date, b: Date) -> bool {
    ||| a.year < b.year
    ||| (a.year == b.year && a.month < b.month)
    ||| (a.year == b.year && a.month == b.month && a.day <= b.day)
}

impl Date {
    /// A valid calendar date.
    pub open spec fn wf(self) -> bool {
        spec_date_wf(self)
    }

    /// Builds the date `y`-`m`-`d` when it is a valid calendar date of the
    /// representable year range, and reports failure otherwise.
    pub fn from_ymd(y: i64, m: u32, d: u32) -> (r: Option<Date>)
        ensures
            r == spec_from_ymd(y as int, m as int, d as int),
    {
        if MIN_YEAR as i64 <= y && y <= MAX_YEAR as i64 && 1 <= m && m <= 12 && 1 <= d
            && d <= days_in_month(y as i32, m) {
            Some(Date { year: y as i32, month: m, day: d })
        } else {
            None
        }
    }

    /// The date `k` days after `self`, or `None` past the last representable
    /// date.
    pub fn plus_days(self, k: usize) -> (r: Option<Date>)
        requires
            self.wf(),
        ensures
            r == spec_plus_days(self, k as nat),
            r matches Some(n) ==> n.wf() && date_le(self, n),
    {
        let mut cur = self;
        let mut i: usize = 0;
        proof {
            lemma_plus_days_wf_le(self, k as nat);
        }
        while i < k
            invariant
                i <= k,
                cur.wf(),
                date_le(self, cur),
                spec_plus_days(self, k as nat) == spec_plus_days(cur, (k - i) as nat),
            decreases k - i,
        {
            proof {
                lemma_plus_days_wf_le(cur, (k - i) as nat);
            }
            let next = if cur.day < days_in_month(cur.year, cur.month) {
                Some(Date { year: cur.year, month: cur.month, day: cur.day + 1 })
            } else if cur.month < 12 {
                Some(Date { year: cur.year, month: cur.month + 1, day: 1 })
            } else if cur.year < MAX_YEAR {
                Some(Date { year: cur.year + 1, month: 1, day: 1 })
            } else {
                None
            };
            match next {
                Some(n) => {
                    assert(spec_succ(cur) == Some(n));
                    cur = n;
                },
                None => {
                    return None;
                },
            }
            i = i + 1;
        }
        Some(cur)
    }
}

/// Builds the date `y`-`m`-`d` when valid, `None` otherwise.
pub open spec fn spec_from_ymd(y: int, m: int, d: int) -> Option<Date> {
    if MIN_YEAR <= y <= MAX_YEAR && 1 <= m <= 12 && 1 <= d <= spec_days_in_month(y, m) {
        Some(Date { year: y as i32, month: m as u32, day: d as u32 })
    } else {
        None
    }
}

/// Number of days in month `m` of year `y`.
pub fn days_in_month(y: i32, m: u32) -> (r: u32)
    requires
        1 <= m <= 12,
    ensures
        r == spec_days_in_month(y as int, m as int),
{
    if m == 2 {
        if (y % 4 == 0 && y % 100 != 0) || y % 400 == 0 {
            29
        } else {
            28
        }
    } else if m == 4 || m == 6 || m == 9 || m == 11 {
        30
    } else {
        31
    }
}

/// The successor of a valid date is valid and later.
pub proof fn lemma_succ_wf_lt(d: Date)
    requires
        spec_date_wf(d),
    ensures
        spec_succ(d) matches Some(n) ==> spec_date_wf(n) && date_le(d, n) && d != n,
{
}

/// Advancing a valid date keeps it valid and never moves it earlier.
pub proof fn lemma_plus_days_wf_le(d: Date, k: nat)
    requires
        spec_date_wf(d),
    ensures
        spec_plus_days(d, k) matches Some(n) ==> spec_date_wf(n) && date_le(d, n),
    decreases k,
{
    if k > 0 {
        match spec_succ(d) {
            Some(n) => {
                lemma_succ_wf_lt(d);
                lemma_plus_days_wf_le(n, (k - 1) as nat);
            },
            None => {},
        }
    }
}

/// Chronological order is transitive.
pub proof fn lemma_date_le_trans(a: Date, b: Date, c: Date)
    requires
        date_le(a, b),
        date_le(b, c),
    ensures
        date_le(a, c),
{
}

/// Advancing by more days never yields an earlier date.
pub proof fn lemma_plus_days_monotone(d: Date, k1: nat, k2: nat)
    requires
        spec_date_wf(d),
        k1 <= k2,
    ensures
        spec_plus_days(d, k1) matches Some(a) ==> (spec_plus_days(d, k2) matches Some(b)
            ==> date_le(a, b)),
    decreases k1,
{
    if k1 > 0 {
        match spec_succ(d) {
            Some(n) => {
                lemma_succ_wf_lt(d);
                lemma_plus_days_monotone(n, (k1 - 1) as nat, (k2 - 1) as nat);
            },
            None => {},
        }
    } else {
        if spec_plus_days(d, k2) matches Some(b) {
            lemma_plus_days_wf_le(d, k2);
        }
    }
}


/// Advancing fewer days than a possible advance is also possible.
pub proof fn lemma_plus_days_prefix(d: Date, k1: nat, k2: nat)
    requires
        spec_date_wf(d),
        k1 <= k2,
        spec_plus_days(d, k2) is Some,
    ensures
        spec_plus_days(d, k1) is Some,
    decreases k1,
{
    if k1 > 0 {
        match spec_succ(d) {
            Some(n) => {
                lemma_succ_wf_lt(d);
                lemma_plus_days_prefix(n, (k1 - 1) as nat, (k2 - 1) as nat);
            },
            None => {},
        }
    }
}

} // verus!
