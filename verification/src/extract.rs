//! The extraction algorithm, specified and verified over [`PageModel`].
//!
//! The specification functions in this module say, week block by week
//! block, row by row and cell by cell, which events a page yields; the
//! executable functions are proved to return exactly that. A single
//! malformed label or cell makes the whole extraction fail, with no
//! partial result.

use vstd::prelude::*;

use crate::date::{spec_from_ymd, spec_plus_days};
use crate::model::{CellModel, PageModel, RowModel, WeekModel};
use crate::text::{
    chars_to_string, match_at, parse_hhmm, parse_uint, replace_seq, spec_parse_hhmm,
    spec_parse_int, spec_parse_uint, spec_trim, split_part0, split_part1, split_two, str_to_chars,
    strip_trailing, strip_trailing_char, trim,
};
use crate::{Calendar, CalendarSpec, Date, Session, SessionSpec};

verus! {

/// The CSS class of a scheduled-session cell.
pub open spec fn block_class() -> Seq<char> {
    "week_block"@
}

/// The CSS class prefix of a day-separator cell.
pub open spec fn sep_class_prefix() -> Seq<char> {
    "week_separatorcell"@
}

/// Whether a class marks a day separator: it starts with the separator
/// prefix.
pub open spec fn is_sep_class(c: Seq<char>) -> bool {
    c.len() >= sep_class_prefix().len() && c.take(sep_class_prefix().len() as int)
        == sep_class_prefix()
}

/// The line-break marker splitting times from the title in a cell's
/// hyperlink markup.
pub open spec fn br_pat() -> Seq<char> {
    "<br>"@
}

/// The marker splitting the start time from the end time.
pub open spec fn nbsp_pat() -> Seq<char> {
    "&nbsp;-"@
}

/// The encoded ampersand entity.
pub open spec fn amp_pat() -> Seq<char> {
    "&amp;"@
}

/// The decoded ampersand.
pub open spec fn amp_rep() -> Seq<char> {
    "&"@
}

/// The events of one session cell, given the date already assigned to it:
/// the cell's hyperlink markup is split on the line-break marker into a
/// time range and a title; the time range splits on the non-breaking-space
/// hyphen into start and end clock values; the title has the ampersand
/// entity decoded and must be non-empty; the location is the second
/// resource marker's text, when present.
pub open spec fn spec_event_from_cell(cell: CellModel, date: Date) -> Option<SessionSpec> {
    match cell.anchor {
        None => None,
        Some(details) => {
            let d = details@;
            let times = split_part0(d, br_pat());
            match split_part1(d, br_pat()) {
                None => None,
                Some(title_raw) => {
                    let start_raw = split_part0(times, nbsp_pat());
                    match split_part1(times, nbsp_pat()) {
                        None => None,
                        Some(end_raw) => match (
                            spec_parse_hhmm(start_raw),
                            spec_parse_hhmm(end_raw),
                        ) {
                            (Some(st), Some(en)) => {
                                let title = replace_seq(title_raw, amp_pat(), amp_rep());
                                if title.len() == 0 {
                                    None
                                } else {
                                    Some(
                                        SessionSpec {
                                            date,
                                            start: st,
                                            end: en,
                                            title,
                                            location: if cell.resources@.len() >= 2 {
                                                Some(cell.resources@[1]@)
                                            } else {
                                                None
                                            },
                                        },
                                    )
                                }
                            },
                            _ => None,
                        },
                    }
                },
            }
        },
    }
}

/// Prepends already-extracted events to the outcome of the rest of the
/// walk; failure swallows everything.
pub open spec fn opt_append(pre: Seq<SessionSpec>, o: Option<Seq<SessionSpec>>) -> Option<
    Seq<SessionSpec>,
> {
    match o {
        Some(r) => Some(pre + r),
        None => None,
    }
}

/// The events of the cells of one row from index `c` on, with `k`
/// day-separator cells already seen: a separator class advances the day
/// offset; a session cell yields an event dated `monday + offset`; a cell
/// without any class fails the extraction.
pub open spec fn spec_cells(cells: Seq<CellModel>, c: int, monday: Date, k: int) -> Option<
    Seq<SessionSpec>,
>
    decreases cells.len() - c,
{
    if c < 0 || c >= cells.len() {
        Some(Seq::empty())
    } else {
        let cell = cells[c];
        match cell.class {
            None => None,
            Some(cls) => {
                let k2 = if is_sep_class(cls@) {
                    k + 1
                } else {
                    k
                };
                if cls@ != block_class() {
                    spec_cells(cells, c + 1, monday, k2)
                } else {
                    match spec_plus_days(monday, k2 as nat) {
                        None => None,
                        Some(date) => match spec_event_from_cell(cell, date) {
                            None => None,
                            Some(ev) => opt_append(
                                seq![ev],
                                spec_cells(cells, c + 1, monday, k2),
                            ),
                        },
                    }
                }
            },
        }
    }
}

/// The events of the data rows from index `j` on; the Monday date is
/// re-derived for every row from the running year and the header's day and
/// month, and must be a valid calendar date.
pub open spec fn spec_rows(rows: Seq<RowModel>, j: int, year: int, m: int, d: int) -> Option<
    Seq<SessionSpec>,
>
    decreases rows.len() - j,
{
    if j < 0 || j >= rows.len() {
        Some(Seq::empty())
    } else {
        match spec_from_ymd(year, m, d) {
            None => None,
            Some(monday) => match spec_cells(rows[j].cells@, 0, monday, 0) {
                None => None,
                Some(evs) => opt_append(evs, spec_rows(rows, j + 1, year, m, d)),
            },
        }
    }
}

/// Day and month from a header date label of the form `"<weekday> D.M."`:
/// the token after the first space, trailing dots removed, split on `.`
/// into two unsigned numbers.
pub open spec fn spec_parse_day_month(h: Seq<char>) -> Option<(int, int)> {
    match split_part1(h, seq![' ']) {
        None => None,
        Some(tok) => {
            let t = strip_trailing(tok, '.');
            let day_s = split_part0(t, seq!['.']);
            match split_part1(t, seq!['.']) {
                None => None,
                Some(mon_s) => match (
                    spec_parse_uint(day_s, u32::MAX as int),
                    spec_parse_uint(mon_s, u32::MAX as int),
                ) {
                    (Some(d), Some(m)) => Some((d, m)),
                    _ => None,
                },
            }
        },
    }
}

/// The week number from a label: the token after the first space, read as
/// an unsigned integer.
pub open spec fn spec_week_number(label: Seq<char>) -> Option<int> {
    match split_part1(label, seq![' ']) {
        None => None,
        Some(tok) => spec_parse_uint(tok, usize::MAX as int),
    }
}

/// The events of one week block under a given running year.
pub open spec fn spec_week_events(w: WeekModel, year: int) -> Option<Seq<SessionSpec>> {
    match spec_parse_day_month(w.header@) {
        None => None,
        Some((d, m)) => spec_rows(w.rows@, 1, year, m, d),
    }
}

/// The events of the week blocks from index `i` on. A block whose week
/// number is 1 — other than the very first block — starts a new calendar
/// year: the running year advances by one before its dates are composed.
pub open spec fn spec_weeks(weeks: Seq<WeekModel>, i: int, year: int) -> Option<Seq<SessionSpec>>
    decreases weeks.len() - i,
{
    if i < 0 || i >= weeks.len() {
        Some(Seq::empty())
    } else {
        match spec_week_number(weeks[i].label@) {
            None => None,
            Some(wn) => {
                let y = if wn == 1 && i > 0 {
                    year + 1
                } else {
                    year
                };
                match spec_week_events(weeks[i], y) {
                    None => None,
                    Some(evs) => opt_append(evs, spec_weeks(weeks, i + 1, y)),
                }
            },
        }
    }
}

/// The calendar extracted from a page model: the trimmed title as name,
/// the selected year option as starting year, and the events of all week
/// blocks in document order.
pub open spec fn spec_from_model(page: PageModel) -> Option<CalendarSpec> {
    match spec_parse_int(page.year_text@, i32::MIN as int, i32::MAX as int) {
        None => None,
        Some(y) => match spec_weeks(page.weeks@, 0, y) {
            None => None,
            Some(evs) => Some(CalendarSpec { name: spec_trim(page.title@), events: evs }),
        },
    }
}

/// Whether `cls` starts with the day-separator prefix.
fn class_is_sep(cls: &Vec<char>) -> (r: bool)
    ensures
        r == is_sep_class(cls@),
{
    let pat = str_to_chars("week_separatorcell");
    if cls.len() >= pat.len() {
        let r = match_at(cls, &pat, 0);
        proof {
            assert(cls@.subrange(0, pat@.len() as int) =~= cls@.take(pat@.len() as int));
        }
        r
    } else {
        false
    }
}

/// Whether `cls` is exactly the scheduled-session class.
fn class_is_block(cls: &Vec<char>) -> (r: bool)
    ensures
        r == (cls@ == block_class()),
{
    let pat = str_to_chars("week_block");
    if cls.len() == pat.len() {
        let r = match_at(cls, &pat, 0);
        proof {
            assert(cls@.subrange(0, pat@.len() as int) =~= cls@);
        }
        r
    } else {
        proof {
            assert(cls@.len() != block_class().len());
        }
        false
    }
}

impl Session {
    /// Extracts the event of one session cell, exactly as
    /// [`spec_event_from_cell`] describes.
    pub fn from_cell(cell: &CellModel, date: Date) -> (r: Option<Session>)
        ensures
            match r {
                Some(e) => spec_event_from_cell(*cell, date) == Some(e@),
                None => spec_event_from_cell(*cell, date) is None,
            },
    {
        let details = match &cell.anchor {
            None => {
                return None;
            },
            Some(d) => d,
        };
        let br = str_to_chars("<br>");
        proof {
            reveal_strlit("<br>");
        }
        let (times, title_opt) = split_two(details, &br);
        let title_raw = match title_opt {
            None => {
                return None;
            },
            Some(t) => t,
        };
        let nbsp = str_to_chars("&nbsp;-");
        proof {
            reveal_strlit("&nbsp;-");
        }
        let (start_raw, end_opt) = split_two(&times, &nbsp);
        let end_raw = match end_opt {
            None => {
                return None;
            },
            Some(t) => t,
        };
        let start = match parse_hhmm(&start_raw) {
            None => {
                return None;
            },
            Some(t) => t,
        };
        let end = match parse_hhmm(&end_raw) {
            None => {
                return None;
            },
            Some(t) => t,
        };
        let amp = str_to_chars("&amp;");
        let rep = str_to_chars("&");
        proof {
            reveal_strlit("&amp;");
        }
        let title = crate::text::replace_all(&title_raw, &amp, &rep);
        if title.len() == 0 {
            return None;
        }
        let location = if cell.resources.len() >= 2 {
            Some(chars_to_string(&cell.resources[1]))
        } else {
            None
        };
        let e = Session { date, start, end, title: chars_to_string(&title), location };
        proof {
            let se = spec_event_from_cell(*cell, date);
            assert(se matches Some(v) && v == e@);
        }
        Some(e)
    }
}

/// Extracts the events of one row's cells, exactly as [`spec_cells`]
/// describes for a walk of the whole row.
fn cells_events(cells: &Vec<CellModel>, monday: Date) -> (r: Option<Vec<Session>>)
    requires
        monday.wf(),
    ensures
        match r {
            Some(evs) => spec_cells(cells@, 0, monday, 0) == Some(evs.deep_view()),
            None => spec_cells(cells@, 0, monday, 0) is None,
        },
{
    let mut out: Vec<Session> = Vec::new();
    let mut k: usize = 0;
    let mut c: usize = 0;
    proof {
        assert(out.deep_view() =~= Seq::<SessionSpec>::empty());
        match spec_cells(cells@, 0, monday, 0) {
            Some(r) => {
                assert(Seq::<SessionSpec>::empty() + r =~= r);
            },
            None => {},
        }
    }
    while c < cells.len()
        invariant
            0 <= c <= cells@.len(),
            k <= c,
            monday.wf(),
            spec_cells(cells@, 0, monday, 0) == opt_append(
                out.deep_view(),
                spec_cells(cells@, c as int, monday, k as int),
            ),
        decreases cells@.len() - c,
    {
        let ghost pre = out.deep_view();
        let ghost rest0 = spec_cells(cells@, c as int, monday, k as int);
        let cell = &cells[c];
        let cls = match &cell.class {
            None => {
                return None;
            },
            Some(cls) => cls,
        };
        let k2 = if class_is_sep(cls) {
            k + 1
        } else {
            k
        };
        if !class_is_block(cls) {
            proof {
                assert(rest0 == spec_cells(cells@, c + 1, monday, k2 as int));
            }
            k = k2;
            c = c + 1;
        } else {
            let date = match monday.plus_days(k2) {
                None => {
                    return None;
                },
                Some(d) => d,
            };
            let ev = match Session::from_cell(cell, date) {
                None => {
                    return None;
                },
                Some(e) => e,
            };
            out.push(ev);
            proof {
                assert(out.deep_view() =~= pre.push(ev@));
                let restn = spec_cells(cells@, c + 1, monday, k2 as int);
                assert(rest0 == opt_append(seq![ev@], restn));
                match restn {
                    Some(rn) => {
                        assert(pre + (seq![ev@] + rn) =~= pre.push(ev@) + rn);
                    },
                    None => {},
                }
            }
            k = k2;
            c = c + 1;
        }
    }
    proof {
        assert(spec_cells(cells@, c as int, monday, k as int) == Some(Seq::<SessionSpec>::empty()));
        assert(out.deep_view() + Seq::<SessionSpec>::empty() =~= out.deep_view());
    }
    Some(out)
}

/// Day and month from a header date label, exactly as
/// [`spec_parse_day_month`] describes.
fn parse_day_month(h: &Vec<char>) -> (r: Option<(u32, u32)>)
    ensures
        match r {
            Some(p) => spec_parse_day_month(h@) == Some((p.0 as int, p.1 as int)),
            None => spec_parse_day_month(h@) is None,
        },
{
    let space = str_to_chars(" ");
    proof {
        reveal_strlit(" ");
        assert(space@ =~= seq![' ']);
    }
    let (_, tok_opt) = split_two(h, &space);
    let tok = match tok_opt {
        None => {
            return None;
        },
        Some(t) => t,
    };
    let t = strip_trailing_char(&tok, '.');
    let dot = str_to_chars(".");
    proof {
        reveal_strlit(".");
        assert(dot@ =~= seq!['.']);
    }
    let (day_s, mon_opt) = split_two(&t, &dot);
    let mon_s = match mon_opt {
        None => {
            return None;
        },
        Some(m) => m,
    };
    let day = match parse_uint(&day_s, 0xFFFF_FFFF) {
        None => {
            return None;
        },
        Some(d) => d,
    };
    let mon = match parse_uint(&mon_s, 0xFFFF_FFFF) {
        None => {
            return None;
        },
        Some(m) => m,
    };
    Some((day as u32, mon as u32))
}

/// Extracts the events of one week block, exactly as [`spec_week_events`]
/// describes.
fn week_events(w: &WeekModel, year: i128) -> (r: Option<Vec<Session>>)
    ensures
        match r {
            Some(evs) => spec_week_events(*w, year as int) == Some(evs.deep_view()),
            None => spec_week_events(*w, year as int) is None,
        },
{
    let (d, m) = match parse_day_month(&w.header) {
        None => {
            return None;
        },
        Some(p) => p,
    };
    let mut out: Vec<Session> = Vec::new();
    let mut j: usize = 1;
    proof {
        assert(out.deep_view() =~= Seq::<SessionSpec>::empty());
        match spec_rows(w.rows@, 1, year as int, m as int, d as int) {
            Some(r) => {
                assert(Seq::<SessionSpec>::empty() + r =~= r);
            },
            None => {},
        }
    }
    while j < w.rows.len()
        invariant
            1 <= j,
            j <= w.rows@.len() || j == 1,
            spec_parse_day_month(w.header@) == Some((d as int, m as int)),
            spec_rows(w.rows@, 1, year as int, m as int, d as int) == opt_append(
                out.deep_view(),
                spec_rows(w.rows@, j as int, year as int, m as int, d as int),
            ),
        decreases w.rows@.len() - j,
    {
        let ghost pre = out.deep_view();
        let ghost rest0 = spec_rows(w.rows@, j as int, year as int, m as int, d as int);
        let monday = if year < super::date::MIN_YEAR as i128 || year > super::date::MAX_YEAR
            as i128 {
            None
        } else {
            Date::from_ymd(year as i64, m, d)
        };
        let monday = match monday {
            None => {
                return None;
            },
            Some(mo) => mo,
        };
        let evs = match cells_events(&w.rows[j].cells, monday) {
            None => {
                return None;
            },
            Some(e) => e,
        };
        let ghost evs_dv = evs.deep_view();
        let mut evs = evs;
        out.append(&mut evs);
        proof {
            assert(out.deep_view() =~= pre + evs_dv);
            let restn = spec_rows(w.rows@, j + 1, year as int, m as int, d as int);
            assert(rest0 == opt_append(evs_dv, restn));
            match restn {
                Some(rn) => {
                    assert(pre + (evs_dv + rn) =~= (pre + evs_dv) + rn);
                },
                None => {},
            }
        }
        j = j + 1;
    }
    proof {
        assert(spec_rows(w.rows@, j as int, year as int, m as int, d as int) == Some(
            Seq::<SessionSpec>::empty(),
        ));
        assert(out.deep_view() + Seq::<SessionSpec>::empty() =~= out.deep_view());
    }
    Some(out)
}

impl Calendar {
    /// Extracts the calendar of a page model, exactly as
    /// [`spec_from_model`] describes: the trimmed page title as name, and
    /// the dated events of every week block, walked in document order with
    /// the year-rollover rule.
    pub fn from_model(page: &PageModel) -> (r: Option<Calendar>)
        ensures
            match r {
                Some(cal) => spec_from_model(*page) == Some(cal@),
                None => spec_from_model(*page) is None,
            },
    {
        let y0 = match crate::text::parse_int(&page.year_text, i32::MIN as i64, i32::MAX as i64) {
            None => {
                return None;
            },
            Some(y) => y,
        };
        proof {
            assert((i32::MIN as i64) as int == i32::MIN as int);
            assert((i32::MAX as i64) as int == i32::MAX as int);
            assert(spec_parse_int(page.year_text@, i32::MIN as int, i32::MAX as int) == Some(
                y0 as int,
            ));
        }
        proof {
            crate::text::lemma_parse_int_range(page.year_text@, i32::MIN as int, i32::MAX as int);
        }
        let mut out: Vec<Session> = Vec::new();
        let mut year: i128 = y0 as i128;
        let mut i: usize = 0;
        proof {
            assert(out.deep_view() =~= Seq::<SessionSpec>::empty());
            match spec_weeks(page.weeks@, 0, y0 as int) {
                Some(r) => {
                    assert(Seq::<SessionSpec>::empty() + r =~= r);
                },
                None => {},
            }
        }
        while i < page.weeks.len()
            invariant
                0 <= i <= page.weeks@.len(),
                i32::MIN <= year <= i32::MAX + i,
                spec_parse_int(page.year_text@, i32::MIN as int, i32::MAX as int) == Some(
                    y0 as int,
                ),
                spec_weeks(page.weeks@, 0, y0 as int) == opt_append(
                    out.deep_view(),
                    spec_weeks(page.weeks@, i as int, year as int),
                ),
            decreases page.weeks@.len() - i,
        {
            let ghost pre = out.deep_view();
            let ghost rest0 = spec_weeks(page.weeks@, i as int, year as int);
            let w = &page.weeks[i];
            let space = str_to_chars(" ");
            proof {
                reveal_strlit(" ");
                assert(space@ =~= seq![' ']);
            }
            let (_, tok_opt) = split_two(&w.label, &space);
            let tok = match tok_opt {
                None => {
                    return None;
                },
                Some(t) => t,
            };
            let wn = match parse_uint(&tok, usize::MAX as u64) {
                None => {
                    return None;
                },
                Some(n) => n,
            };
            let y = if wn == 1 && i > 0 {
                year + 1
            } else {
                year
            };
            let evs = match week_events(w, y) {
                None => {
                    return None;
                },
                Some(e) => e,
            };
            let ghost evs_dv = evs.deep_view();
            let mut evs = evs;
            out.append(&mut evs);
            proof {
                assert(out.deep_view() =~= pre + evs_dv);
                let restn = spec_weeks(page.weeks@, i + 1, y as int);
                assert(rest0 == opt_append(evs_dv, restn));
                match restn {
                    Some(rn) => {
                        assert(pre + (evs_dv + rn) =~= (pre + evs_dv) + rn);
                    },
                    None => {},
                }
            }
            year = y;
            i = i + 1;
        }
        proof {
            assert(spec_weeks(page.weeks@, i as int, year as int) == Some(
                Seq::<SessionSpec>::empty(),
            ));
            assert(out.deep_view() + Seq::<SessionSpec>::empty() =~= out.deep_view());
        }
        let name = chars_to_string(&trim(&page.title));
        let cal = Calendar { name, events: out };
        Some(cal)
    }
}

} // verus!
