use timetable::model::{CellModel, PageModel, RowModel, WeekModel};
use timetable::{Calendar, Date, Time};

fn chars(s: &str) -> Vec<char> {
    s.chars().collect()
}

fn session_cell(anchor: &str, resources: &[&str]) -> CellModel {
    CellModel {
        class: Some(chars("week_block")),
        anchor: Some(chars(anchor)),
        resources: resources.iter().map(|r| chars(r)).collect(),
    }
}

fn separator_cell() -> CellModel {
    CellModel {
        class: Some(chars("week_separatorcell")),
        anchor: None,
        resources: Vec::new(),
    }
}

fn week(label: &str, header: &str, data_cells: Vec<CellModel>) -> WeekModel {
    WeekModel {
        label: chars(label),
        header: chars(header),
        rows: vec![RowModel { cells: Vec::new() }, RowModel { cells: data_cells }],
    }
}

fn page(title: &str, year: &str, weeks: Vec<WeekModel>) -> PageModel {
    PageModel {
        title: chars(title),
        year_text: chars(year),
        weeks,
    }
}

#[test]
fn end_to_end_single_block() {
    let p = page(
        "My Timetable",
        "2020",
        vec![week(
            "KW 6",
            "Mon 3.2.",
            vec![session_cell(
                "09:00&nbsp;-10:30<br>Algorithms &amp; Data Structures",
                &["Lecturer", "Room 101"],
            )],
        )],
    );
    let cal = Calendar::from_model(&p).expect("extraction succeeds");
    assert_eq!(cal.name, "My Timetable");
    assert_eq!(cal.events.len(), 1);
    let ev = &cal.events[0];
    assert_eq!(ev.date, Date { year: 2020, month: 2, day: 3 });
    assert_eq!(ev.start, Time { hour: 9, minute: 0 });
    assert_eq!(ev.end, Time { hour: 10, minute: 30 });
    assert_eq!(ev.title, "Algorithms & Data Structures");
    assert_eq!(ev.location, Some("Room 101".to_string()));
}

#[test]
fn end_to_end_from_html() {
    let html = "<html><head><title>My Timetable</title></head><body>\
<select name=\"year\"><option selected>2020</option></select>\
<div class=\"calendar\"><table class=\"week_table\"><tbody>\
<tr><th class=\"week_number\">KW 6</th>\
<td class=\"week_header\"><nobr>Mon 3.2.</nobr></td></tr>\
<tr><td class=\"week_block\">\
<a href=\"#\">09:00&nbsp;-10:30<br>Algorithms &amp; Data Structures</a>\
<span class=\"resource\">Lecturer</span>\
<span class=\"resource\">Room 101</span>\
</td></tr>\
</tbody></table></div></body></html>";
    let cal = Calendar::from_html(html).expect("extraction succeeds");
    assert_eq!(cal.name, "My Timetable");
    assert_eq!(cal.events.len(), 1);
    let ev = &cal.events[0];
    assert_eq!(ev.date, Date { year: 2020, month: 2, day: 3 });
    assert_eq!(ev.start, Time { hour: 9, minute: 0 });
    assert_eq!(ev.end, Time { hour: 10, minute: 30 });
    assert_eq!(ev.title, "Algorithms & Data Structures");
    assert_eq!(ev.location, Some("Room 101".to_string()));
}

#[test]
fn day_offset_from_separators() {
    // A cell preceded by exactly two day-separator cells lands two days
    // after the block's Monday.
    let p = page(
        "T",
        "2020",
        vec![week(
            "KW 6",
            "Mon 3.2.",
            vec![
                separator_cell(),
                separator_cell(),
                session_cell("08:00&nbsp;-09:00<br>Class", &[]),
            ],
        )],
    );
    let cal = Calendar::from_model(&p).expect("extraction succeeds");
    assert_eq!(cal.events.len(), 1);
    assert_eq!(cal.events[0].date, Date { year: 2020, month: 2, day: 5 });
}

#[test]
fn year_rollover_second_block_week_one() {
    let p = page(
        "T",
        "2020",
        vec![
            week(
                "KW 53",
                "Mon 28.12.",
                vec![session_cell("10:00&nbsp;-11:00<br>Last", &[])],
            ),
            week(
                "KW 1",
                "Mon 4.1.",
                vec![session_cell("10:00&nbsp;-11:00<br>First", &[])],
            ),
        ],
    );
    let cal = Calendar::from_model(&p).expect("extraction succeeds");
    assert_eq!(cal.events.len(), 2);
    assert_eq!(cal.events[0].date, Date { year: 2020, month: 12, day: 28 });
    // week number 1 in the second block advances the running year
    assert_eq!(cal.events[1].date, Date { year: 2021, month: 1, day: 4 });
}

#[test]
fn no_rollover_for_first_block() {
    // A first block with week number 1 keeps the selected year.
    let p = page(
        "T",
        "2021",
        vec![week(
            "KW 1",
            "Mon 4.1.",
            vec![session_cell("10:00&nbsp;-11:00<br>First", &[])],
        )],
    );
    let cal = Calendar::from_model(&p).expect("extraction succeeds");
    assert_eq!(cal.events[0].date, Date { year: 2021, month: 1, day: 4 });
}

#[test]
fn events_chronological_over_weeks() {
    let p = page(
        "T",
        "2020",
        vec![
            week(
                "KW 6",
                "Mon 3.2.",
                vec![
                    session_cell("09:00&nbsp;-10:00<br>A", &[]),
                    separator_cell(),
                    session_cell("08:00&nbsp;-09:00<br>B", &[]),
                ],
            ),
            week(
                "KW 7",
                "Mon 10.2.",
                vec![session_cell("08:00&nbsp;-09:00<br>C", &[])],
            ),
        ],
    );
    let cal = Calendar::from_model(&p).expect("extraction succeeds");
    let dates: Vec<_> = cal.events.iter().map(|e| e.date).collect();
    for w in dates.windows(2) {
        let (a, b) = (w[0], w[1]);
        let le = (a.year, a.month, a.day) <= (b.year, b.month, b.day);
        assert!(le, "events out of order: {:?} then {:?}", a, b);
    }
    assert_eq!(dates.len(), 3);
}

#[test]
fn ampersand_entity_decoded() {
    let p = page(
        "T",
        "2020",
        vec![week(
            "KW 6",
            "Mon 3.2.",
            vec![session_cell("09:00&nbsp;-10:30<br>Salt &amp; Pepper", &[])],
        )],
    );
    let cal = Calendar::from_model(&p).expect("extraction succeeds");
    assert_eq!(cal.events[0].title, "Salt & Pepper");
}

#[test]
fn location_absent_with_fewer_than_two_resources() {
    for resources in [&[][..], &["only one"][..]] {
        let p = page(
            "T",
            "2020",
            vec![week(
                "KW 6",
                "Mon 3.2.",
                vec![session_cell("09:00&nbsp;-10:30<br>Class", resources)],
            )],
        );
        let cal = Calendar::from_model(&p).expect("extraction succeeds");
        assert_eq!(cal.events[0].location, None);
    }
}

#[test]
fn location_is_second_resource() {
    let p = page(
        "T",
        "2020",
        vec![week(
            "KW 6",
            "Mon 3.2.",
            vec![session_cell("09:00&nbsp;-10:30<br>Class", &["first", "second", "third"])],
        )],
    );
    let cal = Calendar::from_model(&p).expect("extraction succeeds");
    assert_eq!(cal.events[0].location, Some("second".to_string()));
}

#[test]
fn missing_title_part_fails() {
    let p = page(
        "T",
        "2020",
        vec![week(
            "KW 6",
            "Mon 3.2.",
            vec![session_cell("09:00&nbsp;-10:30", &[])],
        )],
    );
    assert!(Calendar::from_model(&p).is_none());
}

#[test]
fn malformed_time_fails() {
    let p = page(
        "T",
        "2020",
        vec![week(
            "KW 6",
            "Mon 3.2.",
            vec![session_cell("09:xx&nbsp;-10:30<br>Class", &[])],
        )],
    );
    assert!(Calendar::from_model(&p).is_none());
}

#[test]
fn year_with_plus_sign_parses() {
    let p = page(
        "T",
        "+2020",
        vec![week(
            "KW 6",
            "Mon 3.2.",
            vec![session_cell("09:00&nbsp;-10:30<br>Class", &[])],
        )],
    );
    let cal = Calendar::from_model(&p).expect("extraction succeeds");
    assert_eq!(cal.events[0].date, Date { year: 2020, month: 2, day: 3 });
}

#[test]
fn non_numeric_year_fails() {
    let p = page("T", "twenty", vec![]);
    assert!(Calendar::from_model(&p).is_none());
}

#[test]
fn malformed_week_number_fails() {
    let p = page(
        "T",
        "2020",
        vec![week("KW", "Mon 3.2.", vec![])],
    );
    assert!(Calendar::from_model(&p).is_none());
}

#[test]
fn invalid_date_fails() {
    let p = page(
        "T",
        "2020",
        vec![week(
            "KW 6",
            "Mon 30.2.",
            vec![session_cell("09:00&nbsp;-10:30<br>Class", &[])],
        )],
    );
    assert!(Calendar::from_model(&p).is_none());
}

#[test]
fn empty_page_yields_empty_calendar() {
    let p = page("  Spaced Name \t", "2020", vec![]);
    let cal = Calendar::from_model(&p).expect("extraction succeeds");
    assert_eq!(cal.name, "Spaced Name");
    assert!(cal.events.is_empty());
}

#[test]
fn session_without_class_fails() {
    let p = page(
        "T",
        "2020",
        vec![week(
            "KW 6",
            "Mon 3.2.",
            vec![CellModel { class: None, anchor: None, resources: Vec::new() }],
        )],
    );
    assert!(Calendar::from_model(&p).is_none());
}

#[test]
fn parse_hhmm_shapes() {
    let parse = |s: &str| timetable::text::parse_hhmm(&s.chars().collect::<Vec<char>>());
    assert_eq!(parse("09:00"), Some(Time { hour: 9, minute: 0 }));
    assert_eq!(parse("9:5"), Some(Time { hour: 9, minute: 5 }));
    assert_eq!(parse(" 23:59"), Some(Time { hour: 23, minute: 59 }));
    assert_eq!(parse("24:00"), None);
    assert_eq!(parse("12:60"), None);
    assert_eq!(parse("12:00x"), None);
    assert_eq!(parse("12-00"), None);
    assert_eq!(parse(""), None);
}

#[test]
fn date_arithmetic() {
    assert_eq!(
        Date::from_ymd(2020, 2, 29),
        Some(Date { year: 2020, month: 2, day: 29 })
    );
    assert_eq!(Date::from_ymd(2019, 2, 29), None);
    assert_eq!(Date::from_ymd(1900, 2, 29), None);
    assert_eq!(Date::from_ymd(2000, 2, 29), Some(Date { year: 2000, month: 2, day: 29 }));
    assert_eq!(Date::from_ymd(2020, 13, 1), None);
    assert_eq!(Date::from_ymd(2020, 0, 1), None);
    let d = Date { year: 2020, month: 12, day: 28 };
    assert_eq!(d.plus_days(4), Some(Date { year: 2021, month: 1, day: 1 }));
    let d = Date { year: 2020, month: 2, day: 28 };
    assert_eq!(d.plus_days(1), Some(Date { year: 2020, month: 2, day: 29 }));
    assert_eq!(d.plus_days(2), Some(Date { year: 2020, month: 3, day: 1 }));
}
