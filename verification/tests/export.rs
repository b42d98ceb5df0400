use timetable::{Calendar, Date, Session, Time};

fn sample_calendar() -> Calendar {
    Calendar {
        name: "My Timetable".to_string(),
        events: vec![
            Session {
                date: Date { year: 2020, month: 2, day: 3 },
                start: Time { hour: 9, minute: 0 },
                end: Time { hour: 10, minute: 30 },
                title: "Algorithms & Data Structures".to_string(),
                location: Some("Room 101".to_string()),
            },
            Session {
                date: Date { year: 2020, month: 2, day: 4 },
                start: Time { hour: 8, minute: 5 },
                end: Time { hour: 9, minute: 0 },
                title: "Databases".to_string(),
                location: None,
            },
        ],
    }
}

#[test]
fn document_formats_instants() {
    let doc = sample_calendar().to_document();
    assert_eq!(doc.version, "2.0");
    assert_eq!(doc.prodid, "My Timetable");
    assert_eq!(doc.events.len(), 2);
    assert_eq!(doc.events[0].dtstart, "20200203T090000");
    assert_eq!(doc.events[0].dtend, "20200203T103000");
    assert_eq!(doc.events[0].dtstamp, "20200203T090000");
    assert_eq!(doc.events[1].dtstart, "20200204T080500");
    assert_eq!(doc.events[1].dtend, "20200204T090000");
}

#[test]
fn document_uid_hyphenates_title() {
    let doc = sample_calendar().to_document();
    assert_eq!(doc.events[0].uid, "20200203T090000_Algorithms-&-Data-Structures");
    assert_eq!(doc.events[1].uid, "20200204T080500_Databases");
}

#[test]
fn document_summary_and_location() {
    let doc = sample_calendar().to_document();
    assert_eq!(doc.events[0].summary, "Algorithms & Data Structures");
    assert_eq!(doc.events[0].location, Some("Room 101".to_string()));
    assert_eq!(doc.events[1].summary, "Databases");
    assert_eq!(doc.events[1].location, None);
}

#[test]
fn document_timezone_constants() {
    let doc = sample_calendar().to_document();
    let tz = &doc.timezone;
    assert_eq!(tz.tzid, "Europe/Berlin");
    assert_eq!(tz.standard.dtstart, "19701025T030000");
    assert_eq!(tz.standard.offset_from, "+0200");
    assert_eq!(tz.standard.offset_to, "+0100");
    assert_eq!(tz.standard.name, "CET");
    assert_eq!(tz.standard.rrule, "FREQ=YEARLY;BYMONTH=10;BYDAY=-1SU");
    assert_eq!(tz.daylight.dtstart, "19700329T020000");
    assert_eq!(tz.daylight.offset_from, "+0100");
    assert_eq!(tz.daylight.offset_to, "+0200");
    assert_eq!(tz.daylight.name, "CEST");
    assert_eq!(tz.daylight.rrule, "FREQ=YEARLY;BYMONTH=3;BYDAY=-1SU");
}

#[test]
fn ics_output_one_timezone_and_all_events() {
    let cal = sample_calendar();
    let n = cal.events.len();
    let text = cal.to_ics().to_string();
    assert_eq!(text.matches("BEGIN:VTIMEZONE").count(), 1);
    assert_eq!(text.matches("BEGIN:VEVENT").count(), n);
    assert!(text.contains("VERSION:2.0"));
    assert!(text.contains("TZID:Europe/Berlin"));
    assert!(text.contains("DTSTART:20200203T090000"));
    assert!(text.contains("DTEND:20200203T103000"));
    assert!(text.contains("SUMMARY:Algorithms & Data Structures"));
    assert!(text.contains("SUMMARY:Databases"));
    assert!(text.contains("LOCATION:Room 101"));
}

#[test]
fn session_to_ics_is_a_component() {
    let mut cal = sample_calendar();
    let ev = cal.events.remove(0);
    let text = ev.to_ics().to_string();
    assert!(text.contains("BEGIN:VEVENT"));
    assert!(text.contains("SUMMARY:Algorithms & Data Structures"));
    assert!(text.contains("END:VEVENT"));
}

#[test]
fn time_renders_zero_padded() {
    assert_eq!(Time { hour: 9, minute: 5 }.render(), "09:05");
    assert_eq!(Time { hour: 23, minute: 59 }.render(), "23:59");
    assert_eq!(Time { hour: 0, minute: 0 }.render(), "00:00");
}

#[test]
fn year_padding_in_instants() {
    let cal = Calendar {
        name: "T".to_string(),
        events: vec![Session {
            date: Date { year: 800, month: 1, day: 2 },
            start: Time { hour: 0, minute: 0 },
            end: Time { hour: 23, minute: 59 },
            title: "Old".to_string(),
            location: None,
        }],
    };
    let doc = cal.to_document();
    assert_eq!(doc.events[0].dtstart, "08000102T000000");
    assert_eq!(doc.events[0].dtend, "08000102T235900");
}
