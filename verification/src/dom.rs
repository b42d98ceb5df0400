//! The bridge from a parsed HTML document to the [`PageModel`].
//!
//! All DOM work — parsing, CSS-selector matching, serialization of inner
//! markup — is done by the `scraper` crate behind the trusted wrappers
//! below. Nothing is assumed about what a query returns: the wrappers
//! only carry text out of the opaque document, and everything done with
//! that text afterwards is verified against [`crate::extract`]'s
//! specification.

use vstd::prelude::*;

use crate::model::{CellModel, PageModel, RowModel, WeekModel};
use crate::text::str_to_chars;

verus! {

#[verifier::external_type_specification]
#[verifier::external_body]
pub struct ExHtml(scraper::Html);

#[verifier::external_type_specification]
#[verifier::external_body]
pub struct ExSelector(scraper::Selector);

#[verifier::external_type_specification]
#[verifier::external_body]
pub struct ExElementRef<'a>(scraper::ElementRef<'a>);

/// Relies on `scraper::Html::parse_document`: parses HTML text into a
/// document tree (parsing never fails; errors are collected inside).
#[verifier::external_body]
pub fn parse_document(text: &str) -> scraper::Html {
    scraper::Html::parse_document(text)
}

/// Relies on `scraper::Selector::parse`: compiles a CSS selector group,
/// failing on invalid selector syntax.
#[verifier::external_body]
fn selector_parse(query: &str) -> Option<scraper::Selector> {
    scraper::Selector::parse(query).ok()
}

/// Relies on `scraper::Html::select`: the document's elements matching
/// the selector, in document order.
#[verifier::external_body]
fn select_doc<'a>(doc: &'a scraper::Html, sel: &scraper::Selector) -> Vec<scraper::ElementRef<'a>> {
    doc.select(sel).collect()
}

/// Relies on `scraper::ElementRef::select`: the element's descendant
/// elements matching the selector, in document order.
#[verifier::external_body]
fn select_in<'a>(el: &scraper::ElementRef<'a>, sel: &scraper::Selector) -> Vec<
    scraper::ElementRef<'a>,
> {
    el.select(sel).collect()
}

/// Relies on `scraper::ElementRef::inner_html`: serializes the element's
/// children back to HTML text.
#[verifier::external_body]
fn inner_html(el: &scraper::ElementRef<'_>) -> String {
    el.inner_html()
}

/// Relies on `scraper`'s `Element::classes`: the element's CSS classes;
/// this hands out the first one, if the element has any.
#[verifier::external_body]
fn first_class(el: &scraper::ElementRef<'_>) -> Option<String> {
    el.value().classes().next().map(|c| c.to_string())
}

/// Reads one table cell into the model: its first class, the inner markup
/// of its first hyperlink, and the inner text of its resource markers.
fn build_cell(
    col: &scraper::ElementRef<'_>,
    sel_anchor: &scraper::Selector,
    sel_resource: &scraper::Selector,
) -> CellModel {
    let class = match first_class(col) {
        Some(c) => Some(str_to_chars(c.as_str())),
        None => None,
    };
    let anchors = select_in(col, sel_anchor);
    let anchor = if anchors.len() >= 1 {
        Some(str_to_chars(inner_html(&anchors[0]).as_str()))
    } else {
        None
    };
    let res_els = select_in(col, sel_resource);
    let mut resources: Vec<Vec<char>> = Vec::new();
    let mut i: usize = 0;
    while i < res_els.len()
        decreases res_els@.len() - i,
    {
        resources.push(str_to_chars(inner_html(&res_els[i]).as_str()));
        i = i + 1;
    }
    CellModel { class, anchor, resources }
}

/// Queries the parsed page for everything the extraction reads: the title
/// text, the selected year option, and per week block its week-number
/// label, header date label, rows and cells. Fails when the title, the
/// year option, or a block's labels are missing.
pub fn build_page_model(doc: &scraper::Html) -> Option<PageModel> {
    let sel_title = match selector_parse("title") {
        Some(s) => s,
        None => {
            return None;
        },
    };
    let sel_year = match selector_parse("select[name=year] > option[selected]") {
        Some(s) => s,
        None => {
            return None;
        },
    };
    let sel_weeks = match selector_parse("div.calendar > table.week_table > tbody") {
        Some(s) => s,
        None => {
            return None;
        },
    };
    let sel_week_number = match selector_parse("th.week_number") {
        Some(s) => s,
        None => {
            return None;
        },
    };
    let sel_start_date = match selector_parse("tr > td.week_header > nobr") {
        Some(s) => s,
        None => {
            return None;
        },
    };
    let sel_rows = match selector_parse("tr") {
        Some(s) => s,
        None => {
            return None;
        },
    };
    let sel_cols = match selector_parse("td") {
        Some(s) => s,
        None => {
            return None;
        },
    };
    let sel_resource = match selector_parse("span.resource") {
        Some(s) => s,
        None => {
            return None;
        },
    };
    let sel_anchor = match selector_parse("a") {
        Some(s) => s,
        None => {
            return None;
        },
    };

    let title_els = select_doc(doc, &sel_title);
    if title_els.len() == 0 {
        return None;
    }
    let title = str_to_chars(inner_html(&title_els[0]).as_str());

    let year_els = select_doc(doc, &sel_year);
    if year_els.len() == 0 {
        return None;
    }
    let year_text = str_to_chars(inner_html(&year_els[0]).as_str());

    let week_els = select_doc(doc, &sel_weeks);
    let mut weeks: Vec<WeekModel> = Vec::new();
    let mut wi: usize = 0;
    while wi < week_els.len()
        decreases week_els@.len() - wi,
    {
        let week_el = &week_els[wi];
        let label_els = select_in(week_el, &sel_week_number);
        if label_els.len() == 0 {
            return None;
        }
        let label = str_to_chars(inner_html(&label_els[0]).as_str());
        let header_els = select_in(week_el, &sel_start_date);
        if header_els.len() == 0 {
            return None;
        }
        let header = str_to_chars(inner_html(&header_els[0]).as_str());

        let row_els = select_in(week_el, &sel_rows);
        let mut rows: Vec<RowModel> = Vec::new();
        let mut ri: usize = 0;
        while ri < row_els.len()
            decreases row_els@.len() - ri,
        {
            let col_els = select_in(&row_els[ri], &sel_cols);
            let mut cells: Vec<CellModel> = Vec::new();
            let mut ci: usize = 0;
            while ci < col_els.len()
                decreases col_els@.len() - ci,
            {
                cells.push(build_cell(&col_els[ci], &sel_anchor, &sel_resource));
                ci = ci + 1;
            }
            rows.push(RowModel { cells });
            ri = ri + 1;
        }
        weeks.push(WeekModel { label, header, rows });
        wi = wi + 1;
    }
    Some(PageModel { title, year_text, weeks })
}

} // verus!
