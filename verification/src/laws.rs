//! Properties of the extraction, proved against its specification.
//!
//! The lemmas here state what holds of every successful extraction: each
//! event is well-formed; a cell's date is the row's Monday advanced by the
//! number of day-separator cells before it; a week block reporting week
//! number 1 after the first block is dated one year later; and, for pages
//! shaped like a real weekly grid, the event list is chronological.

use vstd::prelude::*;

use crate::date::{
    date_le, lemma_date_le_trans, lemma_plus_days_monotone, lemma_plus_days_prefix,
    lemma_plus_days_wf_le, spec_date_wf, spec_from_ymd, spec_plus_days,
};
use crate::extract::{
    amp_pat, amp_rep, is_sep_class, opt_append, spec_cells, spec_event_from_cell, spec_from_model,
    spec_parse_day_month, spec_rows, spec_week_events, spec_week_number, spec_weeks, block_class,
    sep_class_prefix,
};
use crate::model::{CellModel, PageModel, RowModel, WeekModel};
use crate::text::{
    is_digit, lemma_digits_val_nonneg, lemma_matches_at_shift, matches_at, replace_seq,
    skip_ws_idx, spec_parse_hhmm, two_digit_span,
};
use crate::{all_events_wf, Date, SessionSpec};

verus! {

/// Scanning past whitespace never moves backwards nor past the end.
pub proof fn lemma_skip_ws_bounds(s: Seq<char>, i: int)
    requires
        0 <= i,
    ensures
        i <= skip_ws_idx(s, i),
        skip_ws_idx(s, i) <= s.len() || skip_ws_idx(s, i) == i,
    decreases s.len() - i,
{
    if i < s.len() && crate::text::is_ws_char(s[i]) {
        lemma_skip_ws_bounds(s, i + 1);
    }
}

/// A successfully parsed clock value is a valid time of day.
pub proof fn lemma_parse_hhmm_wf(s: Seq<char>)
    ensures
        spec_parse_hhmm(s) matches Some(t) ==> t.wf(),
{
    let p = skip_ws_idx(s, 0);
    lemma_skip_ws_bounds(s, 0);
    let n1 = two_digit_span(s, p);
    if n1 != 0 {
        let hseq = s.subrange(p, p + n1);
        assert forall|x: int| 0 <= x < hseq.len() implies is_digit(#[trigger] hseq[x]) by {
            assert(hseq[x] == s[p + x]);
        }
        lemma_digits_val_nonneg(hseq);
        let q = p + n1;
        if q < s.len() && s[q] == ':' {
            let r = skip_ws_idx(s, q + 1);
            lemma_skip_ws_bounds(s, q + 1);
            let n2 = two_digit_span(s, r);
            if n2 != 0 {
                let mseq = s.subrange(r, r + n2);
                assert forall|x: int| 0 <= x < mseq.len() implies is_digit(#[trigger] mseq[x]) by {
                    assert(mseq[x] == s[r + x]);
                }
                lemma_digits_val_nonneg(mseq);
            }
        }
    }
}

/// A successfully extracted cell event is well-formed.
pub proof fn lemma_event_from_cell_wf(cell: CellModel, date: Date)
    requires
        spec_date_wf(date),
    ensures
        spec_event_from_cell(cell, date) matches Some(ev) ==> ev.wf(),
{
    match cell.anchor {
        None => {},
        Some(details) => {
            let d = details@;
            let times = crate::text::split_part0(d, crate::extract::br_pat());
            let start_raw = crate::text::split_part0(times, crate::extract::nbsp_pat());
            lemma_parse_hhmm_wf(start_raw);
            match crate::text::split_part1(times, crate::extract::nbsp_pat()) {
                None => {},
                Some(end_raw) => {
                    lemma_parse_hhmm_wf(end_raw);
                },
            }
        },
    }
}

/// Every event of a successful row walk is well-formed.
pub proof fn lemma_cells_wf(cells: Seq<CellModel>, c: int, monday: Date, k: int)
    requires
        spec_date_wf(monday),
    ensures
        spec_cells(cells, c, monday, k) matches Some(evs) ==> all_events_wf(evs),
    decreases cells.len() - c,
{
    if 0 <= c < cells.len() {
        let cell = cells[c];
        match cell.class {
            None => {},
            Some(cls) => {
                let k2 = if is_sep_class(cls@) {
                    k + 1
                } else {
                    k
                };
                lemma_cells_wf(cells, c + 1, monday, k2);
                if cls@ == block_class() {
                    match spec_plus_days(monday, k2 as nat) {
                        None => {},
                        Some(date) => {
                            lemma_plus_days_wf_le(monday, k2 as nat);
                            lemma_event_from_cell_wf(cell, date);
                        },
                    }
                }
            },
        }
    }
}

/// Every event of a successful walk of a week's rows is well-formed.
pub proof fn lemma_rows_wf(rows: Seq<RowModel>, j: int, year: int, m: int, d: int)
    ensures
        spec_rows(rows, j, year, m, d) matches Some(evs) ==> all_events_wf(evs),
    decreases rows.len() - j,
{
    if 0 <= j < rows.len() {
        match spec_from_ymd(year, m, d) {
            None => {},
            Some(monday) => {
                lemma_cells_wf(rows[j].cells@, 0, monday, 0);
                lemma_rows_wf(rows, j + 1, year, m, d);
            },
        }
    }
}

/// Every event of a successful walk of the week blocks is well-formed.
pub proof fn lemma_weeks_wf(weeks: Seq<WeekModel>, i: int, year: int)
    ensures
        spec_weeks(weeks, i, year) matches Some(evs) ==> all_events_wf(evs),
    decreases weeks.len() - i,
{
    if 0 <= i < weeks.len() {
        match spec_week_number(weeks[i].label@) {
            None => {},
            Some(wn) => {
                let y = if wn == 1 && i > 0 {
                    year + 1
                } else {
                    year
                };
                match spec_parse_day_month(weeks[i].header@) {
                    None => {},
                    Some((dd, mm)) => {
                        lemma_rows_wf(weeks[i].rows@, 1, y, mm, dd);
                    },
                }
                lemma_weeks_wf(weeks, i + 1, y);
            },
        }
    }
}

/// Every event of a successful extraction is well-formed: a valid date,
/// valid times, and a non-empty title.
pub proof fn lemma_from_model_wf(page: PageModel)
    ensures
        spec_from_model(page) matches Some(cs) ==> all_events_wf(cs.events),
{
    match crate::text::spec_parse_int(page.year_text@, i32::MIN as int, i32::MAX as int) {
        None => {},
        Some(y) => {
            lemma_weeks_wf(page.weeks@, 0, y);
        },
    }
}


/// The cell is a day separator: it has a class with the separator prefix.
pub open spec fn is_sep_cell(cell: CellModel) -> bool {
    match cell.class {
        Some(cls) => is_sep_class(cls@),
        None => false,
    }
}

/// The cell is a scheduled-session cell.
pub open spec fn is_block_cell(cell: CellModel) -> bool {
    match cell.class {
        Some(cls) => cls@ == block_class(),
        None => false,
    }
}

/// Number of day-separator cells among `cells[a .. b]`.
pub open spec fn sep_count_range(cells: Seq<CellModel>, a: int, b: int) -> int
    decreases b - a,
{
    if a < 0 || a >= b {
        0
    } else {
        (if is_sep_cell(cells[a]) {
            1int
        } else {
            0int
        }) + sep_count_range(cells, a + 1, b)
    }
}

/// Number of session cells among `cells[a .. b]`.
pub open spec fn block_count_range(cells: Seq<CellModel>, a: int, b: int) -> int
    decreases b - a,
{
    if a < 0 || a >= b {
        0
    } else {
        (if is_block_cell(cells[a]) {
            1int
        } else {
            0int
        }) + block_count_range(cells, a + 1, b)
    }
}

/// The cell counters are never negative.
pub proof fn lemma_counts_nonneg(cells: Seq<CellModel>, a: int, b: int)
    ensures
        sep_count_range(cells, a, b) >= 0,
        block_count_range(cells, a, b) >= 0,
    decreases b - a,
{
    if !(a < 0 || a >= b) {
        lemma_counts_nonneg(cells, a + 1, b);
    }
}

/// The session class is not a separator class.
pub proof fn lemma_block_not_sep()
    ensures
        !is_sep_class(block_class()),
{
    reveal_strlit("week_block");
    reveal_strlit("week_separatorcell");
    assert(block_class().len() == 10);
    assert(sep_class_prefix().len() == 18);
}

/// Day-offset reconstruction along a partial row walk: the event produced
/// by the session cell at `c` is dated `monday` advanced by the running
/// offset `k` plus the separator cells between `c0` and `c`.
proof fn lemma_cells_day_offset(
    cells: Seq<CellModel>,
    c0: int,
    monday: Date,
    k: int,
    evs: Seq<SessionSpec>,
    c: int,
)
    requires
        spec_cells(cells, c0, monday, k) == Some(evs),
        0 <= c0 <= c < cells.len(),
        0 <= k,
        is_block_cell(cells[c]),
    ensures
        block_count_range(cells, c0, c) < evs.len(),
        spec_plus_days(monday, (k + sep_count_range(cells, c0, c)) as nat) == Some(
            evs[block_count_range(cells, c0, c)].date,
        ),
        k + sep_count_range(cells, c0, c) >= 0,
    decreases c - c0,
{
    lemma_counts_nonneg(cells, c0, c);
    let cell = cells[c0];
    match cell.class {
        None => {
            assert(false);
        },
        Some(cls) => {
            let k2 = if is_sep_class(cls@) {
                k + 1
            } else {
                k
            };
            if c0 == c {
                lemma_block_not_sep();
                match spec_plus_days(monday, k2 as nat) {
                    None => {
                        assert(false);
                    },
                    Some(date) => match spec_event_from_cell(cell, date) {
                        None => {
                            assert(false);
                        },
                        Some(ev) => match spec_cells(cells, c0 + 1, monday, k2) {
                            None => {
                                assert(false);
                            },
                            Some(rest) => {
                                assert(evs == seq![ev] + rest);
                                assert(evs[0] == ev);
                            },
                        },
                    },
                }
            } else {
                if cls@ != block_class() {
                    lemma_cells_day_offset(cells, c0 + 1, monday, k2, evs, c);
                } else {
                    lemma_block_not_sep();
                    match spec_plus_days(monday, k2 as nat) {
                        None => {
                            assert(false);
                        },
                        Some(date) => match spec_event_from_cell(cell, date) {
                            None => {
                                assert(false);
                            },
                            Some(ev) => match spec_cells(cells, c0 + 1, monday, k2) {
                                None => {
                                    assert(false);
                                },
                                Some(rest) => {
                                    lemma_cells_day_offset(cells, c0 + 1, monday, k2, rest, c);
                                    lemma_counts_nonneg(cells, c0 + 1, c);
                                    assert(evs == seq![ev] + rest);
                                    let bc = block_count_range(cells, c0 + 1, c);
                                    assert(evs[1 + bc] == rest[bc]);
                                },
                            },
                        },
                    }
                }
            }
        },
    }
}

/// Day-offset reconstruction: in a successfully extracted row, the session
/// cell at index `c`, preceded by exactly `sep_count_range(cells, 0, c)`
/// day-separator cells, yields the event dated `monday` advanced by that
/// many days.
pub proof fn lemma_day_offset(cells: Seq<CellModel>, monday: Date, evs: Seq<SessionSpec>, c: int)
    requires
        spec_cells(cells, 0, monday, 0) == Some(evs),
        0 <= c < cells.len(),
        is_block_cell(cells[c]),
    ensures
        block_count_range(cells, 0, c) < evs.len(),
        spec_plus_days(monday, sep_count_range(cells, 0, c) as nat) == Some(
            evs[block_count_range(cells, 0, c)].date,
        ),
{
    lemma_cells_day_offset(cells, 0, monday, 0, evs, c);
}

/// Year rollover: in a document of two or more week blocks whose second
/// block reports week number 1 while the first reports another number,
/// the second block's events are composed with the starting year advanced
/// by one — exactly one calendar year later than without the rollover.
pub proof fn lemma_year_rollover(weeks: Seq<WeekModel>, y0: int)
    requires
        weeks.len() >= 2,
        spec_week_number(weeks[0].label@) matches Some(n0) && n0 != 1,
        spec_week_number(weeks[1].label@) == Some(1int),
    ensures
        spec_weeks(weeks, 0, y0) == (match spec_week_events(weeks[0], y0) {
            None => None,
            Some(evs0) => match spec_week_events(weeks[1], y0 + 1) {
                None => None,
                Some(evs1) => opt_append(evs0, opt_append(evs1, spec_weeks(weeks, 2, y0 + 1))),
            },
        }),
{
    reveal_with_fuel(spec_weeks, 3);
}


/// The events are in non-decreasing date order.
pub open spec fn sorted_by_date(evs: Seq<SessionSpec>) -> bool {
    forall|a: int, b: int|
        0 <= a <= b < evs.len() ==> date_le((#[trigger] evs[a]).date, (#[trigger] evs[b]).date)
}

/// The Monday date of a week block under a given running year.
pub open spec fn week_monday(w: WeekModel, y: int) -> Option<Date> {
    match spec_parse_day_month(w.header@) {
        None => None,
        Some((d, m)) => spec_from_ymd(y, m, d),
    }
}

/// The Monday date of week `i`, with the rollover applied to the incoming
/// running year.
pub open spec fn week_lower(weeks: Seq<WeekModel>, i: int, year: int) -> Option<Date> {
    if i < 0 || i >= weeks.len() {
        None
    } else {
        match spec_week_number(weeks[i].label@) {
            None => None,
            Some(wn) => week_monday(
                weeks[i],
                if wn == 1 && i > 0 {
                    year + 1
                } else {
                    year
                },
            ),
        }
    }
}

/// The page describes a real weekly grid from week `i` on: each block has
/// at most one data row with at most six day separators, each block's
/// Monday is a valid date with a week's headroom, and consecutive Mondays
/// are at least seven days apart.
pub open spec fn weekly_grid(weeks: Seq<WeekModel>, i: int, year: int) -> bool
    decreases weeks.len() - i,
{
    if i < 0 || i >= weeks.len() {
        true
    } else {
        match spec_week_number(weeks[i].label@) {
            None => true,
            Some(wn) => {
                let y = if wn == 1 && i > 0 {
                    year + 1
                } else {
                    year
                };
                let shape = weeks[i].rows@.len() <= 2 && (weeks[i].rows@.len() == 2
                    ==> sep_count_range(
                    weeks[i].rows@[1].cells@,
                    0,
                    weeks[i].rows@[1].cells@.len() as int,
                ) <= 6);
                let here = match week_monday(weeks[i], y) {
                    None => false,
                    Some(m) => match spec_plus_days(m, 7) {
                        None => false,
                        Some(m7) => (i + 1 < weeks.len() ==> (match week_lower(
                            weeks,
                            i + 1,
                            y,
                        ) {
                            Some(m1) => date_le(m7, m1),
                            None => true,
                        })),
                    },
                };
                shape && here && weekly_grid(weeks, i + 1, y)
            },
        }
    }
}

/// The events of a partial row walk are sorted, and each is dated within
/// the day offsets the remaining cells can reach.
proof fn lemma_cells_sorted(
    cells: Seq<CellModel>,
    c: int,
    monday: Date,
    k: int,
    evs: Seq<SessionSpec>,
)
    requires
        spec_cells(cells, c, monday, k) == Some(evs),
        spec_date_wf(monday),
        0 <= k,
        0 <= c,
    ensures
        sorted_by_date(evs),
        forall|idx: int|
            0 <= idx < evs.len() ==> exists|j: int|
                k <= j <= k + sep_count_range(cells, c, cells.len() as int) && #[trigger] spec_plus_days(
                    monday,
                    j as nat,
                ) == Some((#[trigger] evs[idx]).date),
    decreases cells.len() - c,
{
    lemma_counts_nonneg(cells, c, cells.len() as int);
    if c >= cells.len() {
    } else {
        lemma_counts_nonneg(cells, c + 1, cells.len() as int);
        match cells[c].class {
            None => {},
            Some(cls) => {
                let k2 = if is_sep_class(cls@) {
                    k + 1
                } else {
                    k
                };
                let ghost range = sep_count_range(cells, c, cells.len() as int);
                let ghost range1 = sep_count_range(cells, c + 1, cells.len() as int);
                assert(k + range == k2 + range1);
                if cls@ != block_class() {
                    lemma_cells_sorted(cells, c + 1, monday, k2, evs);
                    assert forall|idx: int| 0 <= idx < evs.len() implies exists|j: int|
                        k <= j <= k + range && #[trigger] spec_plus_days(monday, j as nat) == Some(
                            (#[trigger] evs[idx]).date,
                        ) by {
                        let j0 = choose|j: int|
                            k2 <= j <= k2 + range1 && #[trigger] spec_plus_days(monday, j as nat) == Some(
                                evs[idx].date,
                            );
                        assert(k <= j0 <= k + range && spec_plus_days(monday, j0 as nat) == Some(
                            evs[idx].date,
                        ));
                    }
                } else {
                    lemma_block_not_sep();
                    match spec_plus_days(monday, k2 as nat) {
                        None => {
                            assert(false);
                        },
                        Some(date) => match spec_event_from_cell(cells[c], date) {
                            None => {
                                assert(false);
                            },
                            Some(ev) => match spec_cells(cells, c + 1, monday, k2) {
                                None => {
                                    assert(false);
                                },
                                Some(rest) => {
                                    lemma_cells_sorted(cells, c + 1, monday, k2, rest);
                                    assert(evs == seq![ev] + rest);
                                    assert(evs[0] == ev);
                                    assert forall|idx: int| 0 <= idx < evs.len() implies exists|
                                        j: int,
                                    |
                                        k <= j <= k + range && #[trigger] spec_plus_days(
                                            monday,
                                            j as nat,
                                        ) == Some((#[trigger] evs[idx]).date) by {
                                        if idx == 0 {
                                            assert(k <= k2 <= k + range && spec_plus_days(
                                                monday,
                                                k2 as nat,
                                            ) == Some(evs[0].date));
                                        } else {
                                            assert(evs[idx] == rest[idx - 1]);
                                            let j0 = choose|j: int|
                                                k2 <= j <= k2 + range1 && #[trigger] spec_plus_days(
                                                    monday,
                                                    j as nat,
                                                ) == Some(rest[idx - 1].date);
                                            assert(k <= j0 <= k + range && spec_plus_days(
                                                monday,
                                                j0 as nat,
                                            ) == Some(evs[idx].date));
                                        }
                                    }
                                    assert forall|a: int, b: int|
                                        0 <= a <= b < evs.len() implies date_le(
                                        (#[trigger] evs[a]).date,
                                        (#[trigger] evs[b]).date,
                                    ) by {
                                        if a == 0 {
                                            if b > 0 {
                                                assert(evs[b] == rest[b - 1]);
                                                let j0 = choose|j: int|
                                                    k2 <= j <= k2 + range1 && #[trigger] spec_plus_days(
                                                        monday,
                                                        j as nat,
                                                    ) == Some(rest[b - 1].date);
                                                lemma_plus_days_monotone(
                                                    monday,
                                                    k2 as nat,
                                                    j0 as nat,
                                                );
                                            }
                                        } else {
                                            assert(evs[a] == rest[a - 1]);
                                            assert(evs[b] == rest[b - 1]);
                                        }
                                    }
                                },
                            },
                        },
                    }
                }
            },
        }
    }
}

/// The events of one well-shaped week block are sorted and dated within
/// its week: between the block's Monday and six days after it.
proof fn lemma_week_sorted(w: WeekModel, y: int, evs: Seq<SessionSpec>)
    requires
        spec_week_events(w, y) == Some(evs),
        w.rows@.len() <= 2,
        w.rows@.len() == 2 ==> sep_count_range(
            w.rows@[1].cells@,
            0,
            w.rows@[1].cells@.len() as int,
        ) <= 6,
    ensures
        sorted_by_date(evs),
        w.rows@.len() <= 1 ==> evs.len() == 0,
        week_monday(w, y) matches Some(monday) ==> spec_date_wf(monday) && (forall|idx: int|
            0 <= idx < evs.len() ==> date_le(monday, (#[trigger] evs[idx]).date) && (
            spec_plus_days(monday, 6) matches Some(hi) ==> date_le(evs[idx].date, hi))),
{
    match spec_parse_day_month(w.header@) {
        None => {
            assert(false);
        },
        Some((d, m)) => {
            if w.rows@.len() <= 1 {
                assert(evs =~= Seq::<SessionSpec>::empty());
            } else {
                match spec_from_ymd(y, m, d) {
                    None => {
                        assert(false);
                    },
                    Some(monday) => {
                        match spec_cells(w.rows@[1].cells@, 0, monday, 0) {
                            None => {
                                assert(false);
                            },
                            Some(revs) => {
                                assert(spec_rows(w.rows@, 2, y, m as int, d as int) == Some(
                                    Seq::<SessionSpec>::empty(),
                                ));
                                assert(evs == revs + Seq::<SessionSpec>::empty());
                                assert(evs =~= revs);
                                let cells = w.rows@[1].cells@;
                                let range = sep_count_range(cells, 0, cells.len() as int);
                                lemma_cells_sorted(cells, 0, monday, 0, revs);
                                assert forall|idx: int| 0 <= idx < evs.len() implies date_le(
                                    monday,
                                    (#[trigger] evs[idx]).date,
                                ) && (spec_plus_days(monday, 6) matches Some(hi) ==> date_le(
                                    evs[idx].date,
                                    hi,
                                )) by {
                                    let j0 = choose|j: int|
                                        0 <= j <= range && #[trigger] spec_plus_days(monday, j as nat)
                                            == Some(revs[idx].date);
                                    lemma_plus_days_monotone(monday, 0, j0 as nat);
                                    if spec_plus_days(monday, 6) matches Some(hi) {
                                        lemma_plus_days_monotone(monday, j0 as nat, 6);
                                    }
                                }
                            },
                        }
                    },
                }
            }
        },
    }
}

/// The events of the week blocks from `i` on, over a weekly grid, are
/// sorted and dated no earlier than week `i`'s Monday.
proof fn lemma_weeks_sorted(weeks: Seq<WeekModel>, i: int, year: int, evs: Seq<SessionSpec>)
    requires
        spec_weeks(weeks, i, year) == Some(evs),
        weekly_grid(weeks, i, year),
        0 <= i,
    ensures
        sorted_by_date(evs),
        week_lower(weeks, i, year) matches Some(m) ==> forall|idx: int|
            0 <= idx < evs.len() ==> date_le(m, (#[trigger] evs[idx]).date),
    decreases weeks.len() - i,
{
    if i >= weeks.len() {
    } else {
        match spec_week_number(weeks[i].label@) {
            None => {
                assert(false);
            },
            Some(wn) => {
                let y = if wn == 1 && i > 0 {
                    year + 1
                } else {
                    year
                };
                match spec_week_events(weeks[i], y) {
                    None => {
                        assert(false);
                    },
                    Some(evs_i) => match spec_weeks(weeks, i + 1, y) {
                        None => {
                            assert(false);
                        },
                        Some(rest) => {
                            assert(evs == evs_i + rest);
                            lemma_week_sorted(weeks[i], y, evs_i);
                            lemma_weeks_sorted(weeks, i + 1, y, rest);
                            match week_monday(weeks[i], y) {
                                None => {
                                    assert(false);
                                },
                                Some(m) => {
                                    lemma_plus_days_wf_le(m, 7);
                                    match spec_plus_days(m, 7) {
                                        None => {
                                            assert(false);
                                        },
                                        Some(m7) => {
                                            lemma_plus_days_prefix(m, 6, 7);
                                            let hi = match spec_plus_days(m, 6) {
                                                Some(h) => h,
                                                None => m,
                                            };
                                            lemma_plus_days_monotone(m, 6, 7);
                                            // every event of this week lies in [m, hi];
                                            // every later event lies above the next Monday,
                                            // which is above m7, which is above hi.
                                            assert forall|a: int, b: int|
                                                0 <= a <= b < evs.len() implies date_le(
                                                (#[trigger] evs[a]).date,
                                                (#[trigger] evs[b]).date,
                                            ) by {
                                                if b < evs_i.len() {
                                                    assert(evs[a] == evs_i[a]);
                                                    assert(evs[b] == evs_i[b]);
                                                } else if a >= evs_i.len() {
                                                    assert(evs[a] == rest[a - evs_i.len()]);
                                                    assert(evs[b] == rest[b - evs_i.len()]);
                                                } else {
                                                    assert(evs[a] == evs_i[a]);
                                                    assert(evs[b] == rest[b - evs_i.len()]);
                                                    assert(date_le(evs_i[a].date, hi));
                                                    if i + 1 < weeks.len() {
                                                        match week_lower(weeks, i + 1, y) {
                                                            Some(m1) => {
                                                                assert(date_le(
                                                                    m1,
                                                                    rest[b - evs_i.len()].date,
                                                                ));
                                                                lemma_date_le_trans(
                                                                    evs_i[a].date,
                                                                    hi,
                                                                    m7,
                                                                );
                                                                lemma_date_le_trans(
                                                                    evs_i[a].date,
                                                                    m7,
                                                                    m1,
                                                                );
                                                                lemma_date_le_trans(
                                                                    evs_i[a].date,
                                                                    m1,
                                                                    evs[b].date,
                                                                );
                                                            },
                                                            None => {
                                                                assert(spec_weeks(
                                                                    weeks,
                                                                    i + 1,
                                                                    y,
                                                                ) is Some);
                                                                assert(weekly_grid(
                                                                    weeks,
                                                                    i + 1,
                                                                    y,
                                                                ));
                                                                assert(false);
                                                            },
                                                        }
                                                    } else {
                                                        assert(rest.len() == 0);
                                                    }
                                                }
                                            }
                                            assert forall|idx: int|
                                                0 <= idx < evs.len() implies date_le(
                                                m,
                                                (#[trigger] evs[idx]).date,
                                            ) by {
                                                if idx < evs_i.len() {
                                                    assert(evs[idx] == evs_i[idx]);
                                                } else {
                                                    assert(evs[idx] == rest[idx - evs_i.len()]);
                                                    if i + 1 < weeks.len() {
                                                        match week_lower(weeks, i + 1, y) {
                                                            Some(m1) => {
                                                                lemma_date_le_trans(m, m7, m1);
                                                                lemma_date_le_trans(
                                                                    m,
                                                                    m1,
                                                                    evs[idx].date,
                                                                );
                                                            },
                                                            None => {
                                                                assert(spec_weeks(
                                                                    weeks,
                                                                    i + 1,
                                                                    y,
                                                                ) is Some);
                                                                assert(weekly_grid(
                                                                    weeks,
                                                                    i + 1,
                                                                    y,
                                                                ));
                                                                assert(false);
                                                            },
                                                        }
                                                    } else {
                                                        assert(rest.len() == 0);
                                                    }
                                                }
                                            }
                                        },
                                    }
                                },
                            }
                        },
                    },
                }
            },
        }
    }
}

/// Chronological order: on a page whose week blocks form a real weekly
/// grid — at most one data row per block, at most six day separators per
/// row, consecutive Mondays at least seven days apart — the extracted
/// events are sorted non-decreasing by date.
pub proof fn lemma_events_chronological(page: PageModel)
    requires
        crate::text::spec_parse_int(page.year_text@, i32::MIN as int, i32::MAX as int)
            matches Some(y0) ==> weekly_grid(page.weeks@, 0, y0),
    ensures
        spec_from_model(page) matches Some(cs) ==> sorted_by_date(cs.events),
{
    match crate::text::spec_parse_int(page.year_text@, i32::MIN as int, i32::MAX as int) {
        None => {},
        Some(y0) => {
            match spec_weeks(page.weeks@, 0, y0) {
                None => {},
                Some(evs) => {
                    lemma_weeks_sorted(page.weeks@, 0, y0, evs);
                },
            }
        },
    }
}


/// Ampersand decoding acts at every occurrence: at the first position
/// where the encoded entity stands in the raw title text, the decoded
/// text carries the text before it unchanged, then a literal `&`, and
/// decoding continues in the text after it.
pub proof fn lemma_amp_decode_at(s: Seq<char>, i: int)
    requires
        matches_at(s, amp_pat(), i),
        forall|j: int| 0 <= j < i ==> !matches_at(s, amp_pat(), j),
    ensures
        replace_seq(s, amp_pat(), amp_rep()) == s.take(i) + amp_rep() + replace_seq(
            s.skip(i + amp_pat().len()),
            amp_pat(),
            amp_rep(),
        ),
    decreases i,
{
    reveal_strlit("&amp;");
    let pat = amp_pat();
    let rep = amp_rep();
    if i == 0 {
        assert(s.take(pat.len() as int) =~= s.subrange(0, pat.len() as int));
        assert(replace_seq(s, pat, rep) == rep + replace_seq(s.skip(pat.len() as int), pat, rep));
        assert(s.take(0) + rep + replace_seq(s.skip(pat.len() as int), pat, rep) =~= rep
            + replace_seq(s.skip(pat.len() as int), pat, rep));
    } else {
        assert(!matches_at(s, pat, 0));
        assert(s.take(pat.len() as int) =~= s.subrange(0, pat.len() as int));
        assert(replace_seq(s, pat, rep) == seq![s[0]] + replace_seq(s.drop_first(), pat, rep));
        let d = s.drop_first();
        lemma_matches_at_shift(s, pat, i);
        assert forall|j: int| 0 <= j < i - 1 implies !matches_at(d, pat, j) by {
            lemma_matches_at_shift(s, pat, j + 1);
        }
        lemma_amp_decode_at(d, i - 1);
        assert(s.take(i) =~= seq![s[0]] + d.take(i - 1));
        assert(s.skip(i + pat.len()) =~= d.skip(i - 1 + pat.len()));
        assert(seq![s[0]] + (d.take(i - 1) + rep + replace_seq(
            d.skip(i - 1 + pat.len()),
            pat,
            rep,
        )) =~= s.take(i) + rep + replace_seq(s.skip(i + pat.len()), pat, rep));
    }
}

} // verus!
