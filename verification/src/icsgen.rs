//! The iCalendar exporter.
//!
//! The export is split in two: a verified half that renders every event
//! into the exact property strings of the output document — local
//! instants as `YYYYMMDDTHHMM00`, an identifier built from the start
//! instant and the hyphenated title — collected in an [`IcsDoc`] value
//! together with the one fixed Central European timezone definition; and
//! a trusted half that feeds those strings, unchanged, to the `ics` crate
//! which owns escaping, line folding and property serialization.

use vstd::prelude::*;

use crate::ics_link::{
    cal_comps, cal_props, daylight_new, daylight_props, daylight_push_rrule,
    daylight_push_tzname, event_alarms, event_props, ical_add_event, ical_add_timezone, ical_new,
    ics_event_new, ics_event_push_dtend, ics_event_push_dtstart, ics_event_push_location,
    ics_event_push_summary, standard_new, standard_props, standard_push_rrule,
    standard_push_tzname, timezone_add_standard, timezone_daylight, timezone_props,
    timezone_zones, IcsComp, IcsProps, IcsSubComp,
};
use crate::{Calendar, Date, Session, SessionSpec, Time};

verus! {

/// The decimal digit character for `v` (for `0 <= v <= 9`).
pub open spec fn digit_char(v: int) -> char {
    if v == 0 {
        '0'
    } else if v == 1 {
        '1'
    } else if v == 2 {
        '2'
    } else if v == 3 {
        '3'
    } else if v == 4 {
        '4'
    } else if v == 5 {
        '5'
    } else if v == 6 {
        '6'
    } else if v == 7 {
        '7'
    } else if v == 8 {
        '8'
    } else {
        '9'
    }
}

/// `v` as two digits, zero padded (for `0 <= v < 100`).
pub open spec fn pad2(v: int) -> Seq<char> {
    seq![digit_char(v / 10), digit_char(v % 10)]
}

/// `v` as four digits, zero padded (for `0 <= v <= 9999`).
pub open spec fn pad4(v: int) -> Seq<char> {
    seq![
        digit_char(v / 1000),
        digit_char(v / 100 % 10),
        digit_char(v / 10 % 10),
        digit_char(v % 10),
    ]
}

/// The decimal digits of `v` without padding (for `v >= 0`).
pub open spec fn dec_digits(v: int) -> Seq<char>
    decreases v,
{
    if v < 10 {
        seq![digit_char(v)]
    } else {
        dec_digits(v / 10) + seq![digit_char(v % 10)]
    }
}

/// A year as the output format renders it: four zero-padded digits for
/// `0 ..= 9999`, a `+` and the plain digits above that, a `-` and four or
/// more digits below zero.
pub open spec fn spec_format_year(y: int) -> Seq<char> {
    if 0 <= y <= 9999 {
        pad4(y)
    } else if y > 9999 {
        seq!['+'] + dec_digits(y)
    } else if -9999 <= y {
        seq!['-'] + pad4(-y)
    } else {
        seq!['-'] + dec_digits(-y)
    }
}

/// A local instant rendered as `YYYYMMDDTHHMM00`.
pub open spec fn spec_fmt_dt(d: Date, t: Time) -> Seq<char> {
    spec_format_year(d.year as int) + pad2(d.month as int) + pad2(d.day as int) + seq!['T'] + pad2(
        t.hour as int,
    ) + pad2(t.minute as int) + seq!['0', '0']
}

/// The identifier of an exported event: its start instant, an underscore,
/// and its title with spaces replaced by hyphens.
pub open spec fn spec_uid(e: SessionSpec) -> Seq<char> {
    spec_fmt_dt(e.date, e.start) + seq!['_'] + crate::text::hyphenate(e.title)
}

/// The digit character for `v`.
fn digit_char_of(v: u32) -> (r: char)
    requires
        v <= 9,
    ensures
        r == digit_char(v as int),
{
    if v == 0 {
        '0'
    } else if v == 1 {
        '1'
    } else if v == 2 {
        '2'
    } else if v == 3 {
        '3'
    } else if v == 4 {
        '4'
    } else if v == 5 {
        '5'
    } else if v == 6 {
        '6'
    } else if v == 7 {
        '7'
    } else if v == 8 {
        '8'
    } else {
        '9'
    }
}

/// Appends the two zero-padded digits of `v`.
fn push_pad2(out: &mut Vec<char>, v: u32)
    requires
        v < 100,
    ensures
        final(out)@ == old(out)@ + pad2(v as int),
{
    let ghost pre = out@;
    out.push(digit_char_of(v / 10));
    out.push(digit_char_of(v % 10));
    proof {
        assert(out@ =~= pre + pad2(v as int));
    }
}

/// Appends the four zero-padded digits of `v`.
fn push_pad4(out: &mut Vec<char>, v: u32)
    requires
        v <= 9999,
    ensures
        final(out)@ == old(out)@ + pad4(v as int),
{
    let ghost pre = out@;
    out.push(digit_char_of(v / 1000));
    out.push(digit_char_of(v / 100 % 10));
    out.push(digit_char_of(v / 10 % 10));
    out.push(digit_char_of(v % 10));
    proof {
        assert(out@ =~= pre + pad4(v as int));
    }
}

/// Appends the plain decimal digits of `v`.
fn push_dec(out: &mut Vec<char>, v: u32)
    ensures
        final(out)@ == old(out)@ + dec_digits(v as int),
    decreases v,
{
    let ghost pre = out@;
    if v < 10 {
        out.push(digit_char_of(v));
        proof {
            assert(out@ =~= pre + dec_digits(v as int));
        }
    } else {
        push_dec(out, v / 10);
        out.push(digit_char_of(v % 10));
        proof {
            assert(out@ =~= (pre + dec_digits(v as int / 10)) + seq![digit_char(v as int % 10)]);
            assert((pre + dec_digits(v as int / 10)) + seq![digit_char(v as int % 10)] =~= pre + (
            dec_digits(v as int / 10) + seq![digit_char(v as int % 10)]));
        }
    }
}

/// Renders a local instant as `YYYYMMDDTHHMM00`, exactly as
/// [`spec_fmt_dt`] describes.
pub fn fmt_dt(d: Date, t: Time) -> (r: Vec<char>)
    requires
        d.wf(),
        t.wf(),
    ensures
        r@ == spec_fmt_dt(d, t),
{
    let mut out: Vec<char> = Vec::new();
    let ghost e0 = out@;
    let y = d.year;
    if 0 <= y && y <= 9999 {
        push_pad4(&mut out, y as u32);
    } else if y > 9999 {
        out.push('+');
        push_dec(&mut out, y as u32);
        proof {
            assert(e0 + seq!['+'] + dec_digits(y as int) =~= out@);
        }
    } else {
        out.push('-');
        let a: u32 = (-(y as i64)) as u32;
        if a <= 9999 {
            push_pad4(&mut out, a);
            proof {
                assert(e0 + seq!['-'] + pad4(-(y as int)) =~= out@);
            }
        } else {
            push_dec(&mut out, a);
            proof {
                assert(e0 + seq!['-'] + dec_digits(-(y as int)) =~= out@);
            }
        }
    }
    proof {
        assert(out@ =~= e0 + spec_format_year(y as int));
        assert(e0 + spec_format_year(y as int) =~= spec_format_year(y as int));
    }
    push_pad2(&mut out, d.month);
    push_pad2(&mut out, d.day);
    out.push('T');
    push_pad2(&mut out, t.hour);
    push_pad2(&mut out, t.minute);
    out.push('0');
    out.push('0');
    proof {
        assert(out@ =~= spec_fmt_dt(d, t));
    }
    out
}

/// One transition rule of the embedded timezone definition.
pub struct ZoneRule {
    pub dtstart: String,
    pub offset_from: String,
    pub offset_to: String,
    pub name: String,
    pub rrule: String,
}

/// The one fixed timezone definition the exporter embeds.
pub struct TimezoneDoc {
    pub tzid: String,
    pub daylight: ZoneRule,
    pub standard: ZoneRule,
}

/// One exported event: its identifier, stamp, local start and end
/// instants, summary and optional location.
pub struct IcsEventDoc {
    pub uid: String,
    pub dtstamp: String,
    pub dtstart: String,
    pub dtend: String,
    pub summary: String,
    pub location: Option<String>,
}

/// The structured calendar document: version, product identifier, exactly
/// one timezone definition, and one entry per event.
pub struct IcsDoc {
    pub version: String,
    pub prodid: String,
    pub timezone: TimezoneDoc,
    pub events: Vec<IcsEventDoc>,
}

impl Session {
    /// Renders this event into its exported entry: start and end as local
    /// `YYYYMMDDTHHMM00` instants, the identifier from start instant and
    /// hyphenated title, the title as summary, the stamp equal to the
    /// start instant, and the location carried over when present.
    pub fn to_entry(self) -> (r: IcsEventDoc)
        requires
            self.date.wf(),
            self.start.wf(),
            self.end.wf(),
        ensures
            r.uid@ == spec_uid(self@),
            r.dtstamp@ == spec_fmt_dt(self.date, self.start),
            r.dtstart@ == spec_fmt_dt(self.date, self.start),
            r.dtend@ == spec_fmt_dt(self.date, self.end),
            r.summary@ == self@.title,
            match r.location {
                Some(l) => self@.location == Some(l@),
                None => self@.location is None,
            },
    {
        let start = fmt_dt(self.date, self.start);
        let end = fmt_dt(self.date, self.end);
        let title_chars = crate::text::str_to_chars(self.title.as_str());
        let hyph = crate::text::hyphenate_vec(&title_chars);
        let mut uid = crate::text::subvec(&start, 0, start.len());
        proof {
            assert(uid@ =~= start@);
        }
        uid.push('_');
        let ghost u1 = uid@;
        let mut i: usize = 0;
        while i < hyph.len()
            invariant
                0 <= i <= hyph@.len(),
                uid@ =~= u1 + hyph@.take(i as int),
            decreases hyph@.len() - i,
        {
            uid.push(hyph[i]);
            proof {
                assert(uid@ =~= u1 + hyph@.take(i + 1));
            }
            i = i + 1;
        }
        proof {
            assert(hyph@.take(hyph@.len() as int) =~= hyph@);
            assert(uid@ =~= spec_uid(self@));
        }
        IcsEventDoc {
            uid: crate::text::chars_to_string(&uid),
            dtstamp: crate::text::chars_to_string(&start),
            dtstart: crate::text::chars_to_string(&start),
            dtend: crate::text::chars_to_string(&end),
            summary: self.title,
            location: self.location,
        }
    }
}

/// The sequence of events of a calendar is well-formed for export: every
/// date and time is valid.
pub open spec fn events_exportable(evs: Seq<SessionSpec>) -> bool {
    forall|i: int| 0 <= i < evs.len() ==> {
        &&& (#[trigger] evs[i]).date.wf()
        &&& evs[i].start.wf()
        &&& evs[i].end.wf()
    }
}

impl Calendar {
    /// Renders this calendar into the structured document: version `2.0`,
    /// the calendar's name as product identifier, exactly the one fixed
    /// Central European timezone definition, and, in order, one entry per
    /// event with matching identifier, instants, summary and location.
    pub fn to_document(self) -> (r: IcsDoc)
        requires
            events_exportable(self@.events),
        ensures
            r.version@ == "2.0"@,
            r.prodid@ == self@.name,
            r.timezone.tzid@ == "Europe/Berlin"@,
            r.timezone.standard.dtstart@ == "19701025T030000"@,
            r.timezone.standard.offset_from@ == "+0200"@,
            r.timezone.standard.offset_to@ == "+0100"@,
            r.timezone.standard.name@ == "CET"@,
            r.timezone.standard.rrule@ == "FREQ=YEARLY;BYMONTH=10;BYDAY=-1SU"@,
            r.timezone.daylight.dtstart@ == "19700329T020000"@,
            r.timezone.daylight.offset_from@ == "+0100"@,
            r.timezone.daylight.offset_to@ == "+0200"@,
            r.timezone.daylight.name@ == "CEST"@,
            r.timezone.daylight.rrule@ == "FREQ=YEARLY;BYMONTH=3;BYDAY=-1SU"@,
            r.events@.len() == self@.events.len(),
            forall|i: int| 0 <= i < self@.events.len() ==> {
                &&& (#[trigger] r.events@[i]).uid@ == spec_uid(self@.events[i])
                &&& r.events@[i].dtstamp@ == spec_fmt_dt(
                    self@.events[i].date,
                    self@.events[i].start,
                )
                &&& r.events@[i].dtstart@ == spec_fmt_dt(
                    self@.events[i].date,
                    self@.events[i].start,
                )
                &&& r.events@[i].dtend@ == spec_fmt_dt(self@.events[i].date, self@.events[i].end)
                &&& r.events@[i].summary@ == self@.events[i].title
                &&& (match r.events@[i].location {
                    Some(l) => self@.events[i].location == Some(l@),
                    None => self@.events[i].location is None,
                })
            },
    {
        let timezone = TimezoneDoc {
            tzid: "Europe/Berlin".to_owned(),
            daylight: ZoneRule {
                dtstart: "19700329T020000".to_owned(),
                offset_from: "+0100".to_owned(),
                offset_to: "+0200".to_owned(),
                name: "CEST".to_owned(),
                rrule: "FREQ=YEARLY;BYMONTH=3;BYDAY=-1SU".to_owned(),
            },
            standard: ZoneRule {
                dtstart: "19701025T030000".to_owned(),
                offset_from: "+0200".to_owned(),
                offset_to: "+0100".to_owned(),
                name: "CET".to_owned(),
                rrule: "FREQ=YEARLY;BYMONTH=10;BYDAY=-1SU".to_owned(),
            },
        };
        let ghost evs = self@.events;
        let mut events_in = self.events;
        let mut entries: Vec<IcsEventDoc> = Vec::new();
        proof {
            assert(events_in.deep_view() =~= evs.skip(0));
        }
        while events_in.len() > 0
            invariant
                entries@.len() + events_in@.len() == evs.len(),
                events_in.deep_view() == evs.skip(entries@.len() as int),
                events_exportable(evs),
                forall|j: int| 0 <= j < entries@.len() ==> {
                    &&& (#[trigger] entries@[j]).uid@ == spec_uid(evs[j])
                    &&& entries@[j].dtstamp@ == spec_fmt_dt(evs[j].date, evs[j].start)
                    &&& entries@[j].dtstart@ == spec_fmt_dt(evs[j].date, evs[j].start)
                    &&& entries@[j].dtend@ == spec_fmt_dt(evs[j].date, evs[j].end)
                    &&& entries@[j].summary@ == evs[j].title
                    &&& (match entries@[j].location {
                        Some(l) => evs[j].location == Some(l@),
                        None => evs[j].location is None,
                    })
                },
            decreases events_in@.len(),
        {
            let ghost i = entries@.len() as int;
            let ghost before = events_in@;
            let ev = events_in.remove(0);
            proof {
                assert(evs.skip(i)[0] == evs[i]);
                assert(ev.deep_view() == evs[i]);
                assert(events_in@ =~= before.drop_first());
                assert forall|j: int| 0 <= j < events_in.deep_view().len() implies events_in
                    .deep_view()[j] == evs.skip(i + 1)[j] by {
                    assert(events_in@[j] == before[j + 1]);
                    assert(events_in.deep_view()[j] == events_in@[j].deep_view());
                    assert(before[j + 1].deep_view() == evs.skip(i)[j + 1]);
                    assert(evs.skip(i)[j + 1] == evs[i + 1 + j]);
                }
                assert(events_in.deep_view() =~= evs.skip(i + 1));
            }
            entries.push(ev.to_entry());
        }
        IcsDoc {
            version: "2.0".to_owned(),
            prodid: self.name,
            timezone,
            events: entries,
        }
    }
}


/// A clock reading rendered as zero-padded `HH:MM`.
pub open spec fn spec_hhmm_text(t: Time) -> Seq<char> {
    pad2(t.hour as int) + seq![':'] + pad2(t.minute as int)
}

impl Time {
    /// Renders this time as a zero-padded `HH:MM` string.
    pub fn render(&self) -> (r: String)
        requires
            self.wf(),
        ensures
            r@ == spec_hhmm_text(*self),
    {
        let mut out: Vec<char> = Vec::new();
        push_pad2(&mut out, self.hour);
        out.push(':');
        push_pad2(&mut out, self.minute);
        proof {
            assert(out@ =~= spec_hhmm_text(*self));
        }
        crate::text::chars_to_string(&out)
    }
}

/// The property list of the `VEVENT` component built from one entry.
pub open spec fn entry_component(e: IcsEventDoc) -> IcsProps {
    seq![
        ("UID"@, e.uid@),
        ("DTSTAMP"@, e.dtstamp@),
        ("DTSTART"@, e.dtstart@),
        ("DTEND"@, e.dtend@),
        ("SUMMARY"@, e.summary@),
    ] + (match e.location {
        Some(l) => seq![("LOCATION"@, l@)],
        None => Seq::<(Seq<char>, Seq<char>)>::empty(),
    })
}

/// The property list of the `VEVENT` component exported for one event.
pub open spec fn spec_event_component(e: SessionSpec) -> IcsProps {
    seq![
        ("UID"@, spec_uid(e)),
        ("DTSTAMP"@, spec_fmt_dt(e.date, e.start)),
        ("DTSTART"@, spec_fmt_dt(e.date, e.start)),
        ("DTEND"@, spec_fmt_dt(e.date, e.end)),
        ("SUMMARY"@, e.title),
    ] + (match e.location {
        Some(l) => seq![("LOCATION"@, l)],
        None => Seq::<(Seq<char>, Seq<char>)>::empty(),
    })
}

/// The fixed daylight-saving rule of the embedded timezone.
pub open spec fn spec_daylight_rule() -> IcsProps {
    seq![
        ("DTSTART"@, "19700329T020000"@),
        ("TZOFFSETFROM"@, "+0100"@),
        ("TZOFFSETTO"@, "+0200"@),
        ("TZNAME"@, "CEST"@),
        ("RRULE"@, "FREQ=YEARLY;BYMONTH=3;BYDAY=-1SU"@),
    ]
}

/// The fixed standard-time rule of the embedded timezone.
pub open spec fn spec_standard_rule() -> IcsProps {
    seq![
        ("DTSTART"@, "19701025T030000"@),
        ("TZOFFSETFROM"@, "+0200"@),
        ("TZOFFSETTO"@, "+0100"@),
        ("TZNAME"@, "CET"@),
        ("RRULE"@, "FREQ=YEARLY;BYMONTH=10;BYDAY=-1SU"@),
    ]
}

/// The one `VTIMEZONE` component every exported calendar embeds.
pub open spec fn spec_timezone_component() -> IcsComp {
    (
        "VTIMEZONE"@,
        seq![("TZID"@, "Europe/Berlin"@)],
        seq![("DAYLIGHT"@, spec_daylight_rule()), ("STANDARD"@, spec_standard_rule())],
    )
}

/// Builds the `ics` event carrying exactly the strings of one entry.
fn ics_event_of<'a>(entry: IcsEventDoc) -> (r: ics::Event<'a>)
    ensures
        event_props(r) == entry_component(entry),
        event_alarms(r) == Seq::<IcsSubComp>::empty(),
{
    let IcsEventDoc { uid, dtstamp, dtstart, dtend, summary, location } = entry;
    let mut ev = ics_event_new(uid, dtstamp);
    ics_event_push_dtstart(&mut ev, dtstart);
    ics_event_push_dtend(&mut ev, dtend);
    ics_event_push_summary(&mut ev, summary);
    match location {
        Some(l) => {
            ics_event_push_location(&mut ev, l);
            proof {
                assert(event_props(ev) =~= entry_component(entry));
            }
        },
        None => {
            proof {
                assert(event_props(ev) =~= entry_component(entry));
            }
        },
    }
    ev
}

impl Session {
    /// Converts this event to its `ics` component: a `VEVENT` carrying
    /// exactly the property strings [`Session::to_entry`] is proved to
    /// produce, and no alarms.
    pub fn to_ics<'a>(self) -> (r: ics::Event<'a>)
        requires
            self.date.wf(),
            self.start.wf(),
            self.end.wf(),
        ensures
            event_props(r) == spec_event_component(self@),
            event_alarms(r) == Seq::<IcsSubComp>::empty(),
    {
        let entry = self.to_entry();
        let r = ics_event_of(entry);
        proof {
            assert(event_props(r) =~= spec_event_component(self@));
        }
        r
    }
}

impl Calendar {
    /// Converts this calendar to its `ics` document: `VERSION` `2.0` and
    /// the calendar's name as `PRODID`, exactly one `VTIMEZONE` component
    /// carrying the fixed Central European rules, and, in order, one
    /// `VEVENT` component per event with the property strings
    /// [`Calendar::to_document`] is proved to produce.
    pub fn to_ics<'a>(self) -> (r: ics::ICalendar<'a>)
        requires
            events_exportable(self@.events),
        ensures
            cal_props(r) == seq![("VERSION"@, "2.0"@), ("PRODID"@, self@.name)],
            cal_comps(r).len() == 1 + self@.events.len(),
            cal_comps(r)[0] == spec_timezone_component(),
            forall|i: int| 0 <= i < self@.events.len() ==> #[trigger] cal_comps(r)[1 + i] == (
                "VEVENT"@,
                spec_event_component(self@.events[i]),
                Seq::<IcsSubComp>::empty(),
            ),
    {
        let ghost evs = self@.events;
        let ghost cal_name = self@.name;
        let doc = self.to_document();
        let ghost docevs = doc.events@;
        proof {
            assert forall|j: int| 0 <= j < evs.len() implies #[trigger] entry_component(
                docevs[j],
            ) == spec_event_component(evs[j]) by {
                assert(entry_component(docevs[j]) =~= spec_event_component(evs[j]));
            }
        }
        let mut daylight = daylight_new(
            doc.timezone.daylight.dtstart,
            doc.timezone.daylight.offset_from,
            doc.timezone.daylight.offset_to,
        );
        daylight_push_tzname(&mut daylight, doc.timezone.daylight.name);
        daylight_push_rrule(&mut daylight, doc.timezone.daylight.rrule);
        let mut standard = standard_new(
            doc.timezone.standard.dtstart,
            doc.timezone.standard.offset_from,
            doc.timezone.standard.offset_to,
        );
        standard_push_tzname(&mut standard, doc.timezone.standard.name);
        standard_push_rrule(&mut standard, doc.timezone.standard.rrule);
        proof {
            assert(daylight_props(daylight) =~= spec_daylight_rule());
            assert(standard_props(standard) =~= spec_standard_rule());
        }
        let mut tz = timezone_daylight(doc.timezone.tzid, daylight);
        timezone_add_standard(&mut tz, standard);
        proof {
            assert(timezone_props(tz) =~= seq![("TZID"@, "Europe/Berlin"@)]);
            assert(timezone_zones(tz) =~= seq![
                ("DAYLIGHT"@, spec_daylight_rule()),
                ("STANDARD"@, spec_standard_rule()),
            ]);
        }
        let mut cal = ical_new(doc.version, doc.prodid);
        ical_add_timezone(&mut cal, tz);
        proof {
            assert(cal_props(cal) =~= seq![("VERSION"@, "2.0"@), ("PRODID"@, cal_name)]);
            assert(("VTIMEZONE"@, timezone_props(tz), timezone_zones(tz))
                == spec_timezone_component());
            assert(cal_comps(cal) =~= seq![spec_timezone_component()]);
        }
        let mut entries = doc.events;
        let ghost mut done: int = 0;
        proof {
            assert(entries@ =~= docevs.skip(0));
        }
        while entries.len() > 0
            invariant
                0 <= done <= docevs.len(),
                entries@ == docevs.skip(done),
                docevs.len() == evs.len(),
                forall|j: int| 0 <= j < evs.len() ==> #[trigger] entry_component(docevs[j])
                    == spec_event_component(evs[j]),
                cal_props(cal) == seq![("VERSION"@, "2.0"@), ("PRODID"@, cal_name)],
                cal_comps(cal).len() == 1 + done,
                cal_comps(cal)[0] == spec_timezone_component(),
                forall|j: int| 0 <= j < done ==> #[trigger] cal_comps(cal)[1 + j] == (
                    "VEVENT"@,
                    spec_event_component(evs[j]),
                    Seq::<IcsSubComp>::empty(),
                ),
            decreases entries@.len(),
        {
            let entry = entries.remove(0);
            proof {
                assert(docevs.skip(done)[0] == docevs[done]);
                assert(entry == docevs[done]);
                assert(entries@ =~= docevs.skip(done).drop_first());
                assert(docevs.skip(done).drop_first() =~= docevs.skip(done + 1));
            }
            let ev = ics_event_of(entry);
            ical_add_event(&mut cal, ev);
            proof {
                assert(("VEVENT"@, event_props(ev), event_alarms(ev)) == (
                    "VEVENT"@,
                    spec_event_component(evs[done]),
                    Seq::<IcsSubComp>::empty(),
                ));
                done = done + 1;
            }
        }
        proof {
            assert(done == docevs.len());
        }
        cal
    }
}

} // verus!
