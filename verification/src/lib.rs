//! Extraction of a structured, dated event list from the HTML rendering of a
//! weekly timetable, and serialization of that list as an iCalendar document.
//!
//! The HTML grid encodes the calendar only implicitly: week blocks carry a
//! week number and a `"<weekday> D.M."` header, day boundaries inside a row
//! are marked by separator cells, and the year is taken from the selected
//! option of a year dropdown, rolling over when the week number returns to 1.
//! The extraction reconstructs an absolute date for every session cell from
//! those positional hints.

use vstd::prelude::*;

pub mod date;
pub mod dom;
pub mod extract;
pub mod ics_link;
pub mod icsgen;
pub mod laws;
pub mod model;
pub mod text;

verus! {

/// A time of day with minute precision.
#[derive(Clone, Copy, Debug, PartialEq, Eq, Structural)]
pub struct Time {
    pub hour: u32,
    pub minute: u32,
}

/// A proleptic Gregorian calendar date.
#[derive(Clone, Copy, Debug, PartialEq, Eq, Structural)]
pub struct Date {
    pub year: i32,
    pub month: u32,
    pub day: u32,
}

/// One timetabled session, with the absolute date reconstructed from the
/// position of its cell in the week grid.
#[derive(Clone, Debug, PartialEq, Eq)]
pub struct Session {
    pub date: Date,
    pub start: Time,
    pub end: Time,
    pub title: String,
    pub location: Option<String>,
}

/// The extracted timetable: a display name and the events in extraction
/// order (weeks, then rows, then cells, in document order).
#[derive(Clone, Debug, PartialEq, Eq)]
pub struct Calendar {
    pub name: String,
    pub events: Vec<Session>,
}

/// Mathematical value of a [`Session`].
pub ghost struct SessionSpec {
    pub date: Date,
    pub start: Time,
    pub end: Time,
    pub title: Seq<char>,
    pub location: Option<Seq<char>>,
}

/// Mathematical value of a [`Calendar`].
pub ghost struct CalendarSpec {
    pub name: Seq<char>,
    pub events: Seq<SessionSpec>,
}

impl View for Session {
    type V = SessionSpec;

    open spec fn view(&self) -> SessionSpec {
        SessionSpec {
            date: self.date,
            start: self.start,
            end: self.end,
            title: self.title@,
            location: match self.location {
                Some(l) => Some(l@),
                None => None,
            },
        }
    }
}

impl View for Calendar {
    type V = CalendarSpec;

    open spec fn view(&self) -> CalendarSpec {
        CalendarSpec { name: self.name@, events: self.events.deep_view() }
    }
}

impl DeepView for Session {
    type V = SessionSpec;

    open spec fn deep_view(&self) -> SessionSpec {
        self.view()
    }
}

impl Time {
    /// A valid 24-hour clock reading.
    pub open spec fn wf(self) -> bool {
        self.hour < 24 && self.minute < 60
    }
}

impl SessionSpec {
    /// What extraction guarantees of every event it produces: a valid date,
    /// valid times, and a non-empty title.
    pub open spec fn wf(self) -> bool {
        &&& self.date.wf()
        &&& self.start.wf()
        &&& self.end.wf()
        &&& self.title.len() > 0
    }
}

/// Every event of the sequence is well-formed.
pub open spec fn all_events_wf(evs: Seq<SessionSpec>) -> bool {
    forall|i: int| 0 <= i < evs.len() ==> (#[trigger] evs[i]).wf()
}

/// Anything that can stand for a parsed HTML document.
pub trait ToHTML {
    fn to_html(self) -> scraper::Html;
}

impl ToHTML for &str {
    fn to_html(self) -> scraper::Html {
        crate::dom::parse_document(self)
    }
}

impl ToHTML for scraper::Html {
    fn to_html(self) -> (r: scraper::Html)
        ensures
            r == self,
    {
        self
    }
}

impl Calendar {
    /// Extracts the calendar from an HTML timetable page. The result is
    /// exactly what [`crate::extract::spec_from_model`] says of the page's
    /// queried pieces; every event of a successful extraction carries a
    /// valid date, valid times and a non-empty title.
    pub fn from_html(html: impl ToHTML) -> (r: Option<Calendar>)
        ensures
            r matches Some(c) ==> all_events_wf(c@.events),
    {
        let doc = html.to_html();
        match crate::dom::build_page_model(&doc) {
            None => None,
            Some(page) => {
                let r = Calendar::from_model(&page);
                proof {
                    crate::laws::lemma_from_model_wf(page);
                }
                r
            },
        }
    }
}

} // verus!
