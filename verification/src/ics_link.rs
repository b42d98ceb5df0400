//! Trusted declarations of the `ics` crate's component types, and the
//! wrappers through which the exporter hands its verified property
//! strings to them.
//!
//! Each component type is a list of `(key, value)` properties, possibly
//! with named subcomponents; the names below stand for those contents,
//! and every wrapper states over them exactly what the crate's
//! constructors and `push` methods do: append the given values under
//! fixed property keys, in order. How the resulting document text is
//! escaped, folded and rendered stays the `ics` crate's own business.

use vstd::prelude::*;

verus! {

/// A component's properties: `(key, value)` pairs in order.
pub type IcsProps = Seq<(Seq<char>, Seq<char>)>;

/// A named subcomponent and its properties.
pub type IcsSubComp = (Seq<char>, IcsProps);

/// A top-level component: its name, properties, and subcomponents.
pub type IcsComp = (Seq<char>, IcsProps, Seq<IcsSubComp>);

#[verifier::external_type_specification]
#[verifier::external_body]
pub struct ExICalendar<'a>(ics::ICalendar<'a>);

#[verifier::external_type_specification]
#[verifier::external_body]
pub struct ExIcsEvent<'a>(ics::Event<'a>);

#[verifier::external_type_specification]
#[verifier::external_body]
pub struct ExTimeZone<'a>(ics::TimeZone<'a>);

#[verifier::external_type_specification]
#[verifier::external_body]
pub struct ExStandard<'a>(ics::Standard<'a>);

#[verifier::external_type_specification]
#[verifier::external_body]
pub struct ExDaylight<'a>(ics::Daylight<'a>);

/// The properties of a calendar event component.
pub uninterp spec fn event_props(e: ics::Event) -> IcsProps;

/// The alarm subcomponents of a calendar event component.
pub uninterp spec fn event_alarms(e: ics::Event) -> Seq<IcsSubComp>;

/// The properties of a standard-time rule.
pub uninterp spec fn standard_props(s: ics::Standard) -> IcsProps;

/// The properties of a daylight-saving rule.
pub uninterp spec fn daylight_props(d: ics::Daylight) -> IcsProps;

/// The properties of a timezone component.
pub uninterp spec fn timezone_props(t: ics::TimeZone) -> IcsProps;

/// The zone rules of a timezone component, each under its component name.
pub uninterp spec fn timezone_zones(t: ics::TimeZone) -> Seq<IcsSubComp>;

/// The properties of the calendar object itself.
pub uninterp spec fn cal_props(c: ics::ICalendar) -> IcsProps;

/// The components of the calendar object, in the order they were added.
pub uninterp spec fn cal_comps(c: ics::ICalendar) -> Seq<IcsComp>;

/// Relies on `ics::ICalendar::new`: a calendar object carrying exactly a
/// `VERSION` and a `PRODID` property with the given values, and no
/// components yet.
#[verifier::external_body]
pub(crate) fn ical_new<'a>(version: String, prodid: String) -> (r: ics::ICalendar<'a>)
    ensures
        cal_props(r) == seq![("VERSION"@, version@), ("PRODID"@, prodid@)],
        cal_comps(r) == Seq::<IcsComp>::empty(),
{
    ics::ICalendar::new(version, prodid)
}

/// Relies on `ics::ICalendar::add_timezone`: appends one `VTIMEZONE`
/// component holding the timezone's properties and zone rules.
#[verifier::external_body]
pub(crate) fn ical_add_timezone<'a>(cal: &mut ics::ICalendar<'a>, tz: ics::TimeZone<'a>)
    ensures
        cal_props(*final(cal)) == cal_props(*old(cal)),
        cal_comps(*final(cal)) == cal_comps(*old(cal)).push(
            ("VTIMEZONE"@, timezone_props(tz), timezone_zones(tz)),
        ),
{
    cal.add_timezone(tz)
}

/// Relies on `ics::ICalendar::add_event`: appends one `VEVENT` component
/// holding the event's properties and alarms.
#[verifier::external_body]
pub(crate) fn ical_add_event<'a>(cal: &mut ics::ICalendar<'a>, ev: ics::Event<'a>)
    ensures
        cal_props(*final(cal)) == cal_props(*old(cal)),
        cal_comps(*final(cal)) == cal_comps(*old(cal)).push(
            ("VEVENT"@, event_props(ev), event_alarms(ev)),
        ),
{
    cal.add_event(ev)
}

/// Relies on `ics::Standard::new`: a standard-time rule carrying exactly
/// `DTSTART`, `TZOFFSETFROM` and `TZOFFSETTO` with the given values.
#[verifier::external_body]
pub(crate) fn standard_new<'a>(
    dtstart: String,
    offset_from: String,
    offset_to: String,
) -> (r: ics::Standard<'a>)
    ensures
        standard_props(r) == seq![
            ("DTSTART"@, dtstart@),
            ("TZOFFSETFROM"@, offset_from@),
            ("TZOFFSETTO"@, offset_to@),
        ],
{
    ics::Standard::new(dtstart, offset_from, offset_to)
}

/// Relies on `ics::Standard::push` with `ics::properties::TzName`:
/// appends a `TZNAME` property with the given value.
#[verifier::external_body]
pub(crate) fn standard_push_tzname<'a>(rule: &mut ics::Standard<'a>, name: String)
    ensures
        standard_props(*final(rule)) == standard_props(*old(rule)).push(("TZNAME"@, name@)),
{
    rule.push(ics::properties::TzName::new(name))
}

/// Relies on `ics::Standard::push` with `ics::properties::RRule`:
/// appends an `RRULE` property with the given value.
#[verifier::external_body]
pub(crate) fn standard_push_rrule<'a>(rule: &mut ics::Standard<'a>, rrule: String)
    ensures
        standard_props(*final(rule)) == standard_props(*old(rule)).push(("RRULE"@, rrule@)),
{
    rule.push(ics::properties::RRule::new(rrule))
}

/// Relies on `ics::Daylight::new`: a daylight-saving rule carrying
/// exactly `DTSTART`, `TZOFFSETFROM` and `TZOFFSETTO` with the given
/// values.
#[verifier::external_body]
pub(crate) fn daylight_new<'a>(
    dtstart: String,
    offset_from: String,
    offset_to: String,
) -> (r: ics::Daylight<'a>)
    ensures
        daylight_props(r) == seq![
            ("DTSTART"@, dtstart@),
            ("TZOFFSETFROM"@, offset_from@),
            ("TZOFFSETTO"@, offset_to@),
        ],
{
    ics::Daylight::new(dtstart, offset_from, offset_to)
}

/// Relies on `ics::Daylight::push` with `ics::properties::TzName`:
/// appends a `TZNAME` property with the given value.
#[verifier::external_body]
pub(crate) fn daylight_push_tzname<'a>(rule: &mut ics::Daylight<'a>, name: String)
    ensures
        daylight_props(*final(rule)) == daylight_props(*old(rule)).push(("TZNAME"@, name@)),
{
    rule.push(ics::properties::TzName::new(name))
}

/// Relies on `ics::Daylight::push` with `ics::properties::RRule`:
/// appends an `RRULE` property with the given value.
#[verifier::external_body]
pub(crate) fn daylight_push_rrule<'a>(rule: &mut ics::Daylight<'a>, rrule: String)
    ensures
        daylight_props(*final(rule)) == daylight_props(*old(rule)).push(("RRULE"@, rrule@)),
{
    rule.push(ics::properties::RRule::new(rrule))
}

/// Relies on `ics::TimeZone::daylight`: a timezone component carrying
/// exactly a `TZID` property with the given value, and the given rule as
/// its one `DAYLIGHT` zone.
#[verifier::external_body]
pub(crate) fn timezone_daylight<'a>(tzid: String, rule: ics::Daylight<'a>) -> (r: ics::TimeZone<
    'a,
>)
    ensures
        timezone_props(r) == seq![("TZID"@, tzid@)],
        timezone_zones(r) == seq![("DAYLIGHT"@, daylight_props(rule))],
{
    ics::TimeZone::daylight(tzid, rule)
}

/// Relies on `ics::TimeZone::add_standard`: appends the given rule as a
/// `STANDARD` zone.
#[verifier::external_body]
pub(crate) fn timezone_add_standard<'a>(tz: &mut ics::TimeZone<'a>, rule: ics::Standard<'a>)
    ensures
        timezone_props(*final(tz)) == timezone_props(*old(tz)),
        timezone_zones(*final(tz)) == timezone_zones(*old(tz)).push(
            ("STANDARD"@, standard_props(rule)),
        ),
{
    tz.add_standard(rule)
}

/// Relies on `ics::Event::new`: an event component carrying exactly a
/// `UID` and a `DTSTAMP` property with the given values, and no alarms.
#[verifier::external_body]
pub(crate) fn ics_event_new<'a>(uid: String, dtstamp: String) -> (r: ics::Event<'a>)
    ensures
        event_props(r) == seq![("UID"@, uid@), ("DTSTAMP"@, dtstamp@)],
        event_alarms(r) == Seq::<IcsSubComp>::empty(),
{
    ics::Event::new(uid, dtstamp)
}

/// Relies on `ics::Event::push` with `ics::properties::DtStart`: appends
/// a `DTSTART` property with the given value.
#[verifier::external_body]
pub(crate) fn ics_event_push_dtstart<'a>(ev: &mut ics::Event<'a>, value: String)
    ensures
        event_props(*final(ev)) == event_props(*old(ev)).push(("DTSTART"@, value@)),
        event_alarms(*final(ev)) == event_alarms(*old(ev)),
{
    ev.push(ics::properties::DtStart::new(value))
}

/// Relies on `ics::Event::push` with `ics::properties::DtEnd`: appends a
/// `DTEND` property with the given value.
#[verifier::external_body]
pub(crate) fn ics_event_push_dtend<'a>(ev: &mut ics::Event<'a>, value: String)
    ensures
        event_props(*final(ev)) == event_props(*old(ev)).push(("DTEND"@, value@)),
        event_alarms(*final(ev)) == event_alarms(*old(ev)),
{
    ev.push(ics::properties::DtEnd::new(value))
}

/// Relies on `ics::Event::push` with `ics::properties::Summary`: appends
/// a `SUMMARY` property with the given value.
#[verifier::external_body]
pub(crate) fn ics_event_push_summary<'a>(ev: &mut ics::Event<'a>, value: String)
    ensures
        event_props(*final(ev)) == event_props(*old(ev)).push(("SUMMARY"@, value@)),
        event_alarms(*final(ev)) == event_alarms(*old(ev)),
{
    ev.push(ics::properties::Summary::new(value))
}

/// Relies on `ics::Event::push` with `ics::properties::Location`:
/// appends a `LOCATION` property with the given value.
#[verifier::external_body]
pub(crate) fn ics_event_push_location<'a>(ev: &mut ics::Event<'a>, value: String)
    ensures
        event_props(*final(ev)) == event_props(*old(ev)).push(("LOCATION"@, value@)),
        event_alarms(*final(ev)) == event_alarms(*old(ev)),
{
    ev.push(ics::properties::Location::new(value))
}

} // verus!
