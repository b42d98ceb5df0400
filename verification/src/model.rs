//! Plain-value model of the timetable page.
//!
//! The extractor does not walk a DOM: it reads this model, which holds, as
//! character sequences, exactly the pieces of the page the extraction
//! algorithm looks at. Building the model from a parsed HTML document is
//! the job of [`crate::dom`].

use vstd::prelude::*;

verus! {

/// One table cell: its first CSS class, the inner markup of its first
/// hyperlink, and the inner text of its resource marker elements, in
/// document order.
pub struct CellModel {
    pub class: Option<Vec<char>>,
    pub anchor: Option<Vec<char>>,
    pub resources: Vec<Vec<char>>,
}

/// One table row: its cells in document order.
pub struct RowModel {
    pub cells: Vec<CellModel>,
}

/// One week block: the week-number label, the header date label, and the
/// rows (the first row is the header and carries no sessions).
pub struct WeekModel {
    pub label: Vec<char>,
    pub header: Vec<char>,
    pub rows: Vec<RowModel>,
}

/// The whole page: title text, the text of the selected year option, and
/// the week blocks in document order.
pub struct PageModel {
    pub title: Vec<char>,
    pub year_text: Vec<char>,
    pub weeks: Vec<WeekModel>,
}

} // verus!
