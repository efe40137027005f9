//! The document layer: the markup is parsed and queried by the scraper
//! crate, which Verus trusts through the declarations and thin wrappers
//! below. Everything read out of the document is handed to the verified
//! extraction functions as plain byte vectors.

use crate::extract::{card_entry, item_showings, AnchorData};
use crate::model::DatedShowing;
use crate::schedule::{all_showings_wf, build_schedule, schedule_wf, Schedule};
use crate::table::RuntimeTable;
use vstd::prelude::*;

verus! {

#[verifier::external_type_specification]
#[verifier::external_body]
pub struct ExHtml(scraper::Html);

#[verifier::external_type_specification]
#[verifier::external_body]
pub struct ExSelector(scraper::Selector);

#[verifier::external_type_specification]
#[verifier::external_body]
pub struct ExElementRef<'a>(scraper::ElementRef<'a>);

/// Relies on scraper::Html::parse_document: parses markup text into a
/// document tree; parse errors never fail, the tree is built best-effort.
#[verifier::external_body]
fn parse_document(markup: &str) -> scraper::Html {
    scraper::Html::parse_document(markup)
}

/// Relies on scraper::Selector::parse: compiles a CSS selector; an invalid
/// pattern becomes None.
#[verifier::external_body]
fn compile_selector(pattern: &str) -> Option<scraper::Selector> {
    scraper::Selector::parse(pattern).ok()
}

/// Relies on scraper::Html::select: the elements of the document matching
/// the selector, in document order.
#[verifier::external_body]
fn select_in_document<'a>(doc: &'a scraper::Html, sel: &scraper::Selector) -> Vec<
    scraper::ElementRef<'a>,
> {
    doc.select(sel).collect()
}

/// Relies on scraper::ElementRef::select: the descendant elements matching
/// the selector, in document order.
#[verifier::external_body]
fn select_in_element<'a>(el: &scraper::ElementRef<'a>, sel: &scraper::Selector) -> Vec<
    scraper::ElementRef<'a>,
> {
    el.select(sel).collect()
}

/// Relies on scraper::ElementRef::text: the concatenated text of the
/// element's descendant text nodes, here as UTF-8 bytes.
#[verifier::external_body]
fn element_text(el: &scraper::ElementRef<'_>) -> Vec<u8> {
    el.text().collect::<String>().into_bytes()
}

/// Relies on scraper::ElementRef::attr: the element's attribute value, if
/// the attribute is present, here as UTF-8 bytes.
#[verifier::external_body]
fn element_attr(el: &scraper::ElementRef<'_>, name: &str) -> Option<Vec<u8>> {
    el.attr(name).map(|v| v.as_bytes().to_vec())
}

/// Build the runtime table from the grid region: each movie card pairs its
/// first heading, trimmed, with the minutes announced by the first label
/// matching the runtime pattern; cards announcing no runtime add nothing,
/// and a title met again overwrites its earlier entry.
pub fn extract_runtimes(doc: &scraper::Html) -> (table: RuntimeTable) {
    let mut table = RuntimeTable::new();
    let card_sel = compile_selector(".programme-table-main-grid-movieitem");
    let heading_sel = compile_selector("h2");
    let label_sel = compile_selector("span");
    match (card_sel, heading_sel, label_sel) {
        (Some(cards), Some(headings), Some(labels)) => {
            let card_els = select_in_document(doc, &cards);
            let mut i: usize = 0;
            while i < card_els.len()
                decreases card_els@.len() - i,
            {
                let heading_els = select_in_element(&card_els[i], &headings);
                let label_els = select_in_element(&card_els[i], &labels);
                let mut heading_texts: Vec<Vec<u8>> = Vec::new();
                if heading_els.len() > 0 {
                    heading_texts.push(element_text(&heading_els[0]));
                }
                let mut label_texts: Vec<Vec<u8>> = Vec::new();
                let mut j: usize = 0;
                while j < label_els.len()
                    decreases label_els@.len() - j,
                {
                    label_texts.push(element_text(&label_els[j]));
                    j = j + 1;
                }
                match card_entry(&heading_texts, &label_texts) {
                    Some((title, minutes)) => table.insert(title, minutes),
                    None => (),
                }
                i = i + 1;
            }
        },
        _ => (),
    }
    table
}

/// Walk the per-date block region and collect one showing per anchor with
/// a parseable time, joined against the runtime table; items without a
/// well-formed date attribute are skipped whole.
pub fn extract_showings(doc: &scraper::Html, table: &RuntimeTable) -> (out: Vec<DatedShowing>)
    ensures
        forall|k: int| 0 <= k < out@.len() ==> (#[trigger] out@[k])@.showing.wf(),
{
    let mut out: Vec<DatedShowing> = Vec::new();
    let item_sel = compile_selector(".programme-table-main-movie-item.movie-item");
    let caption_sel = compile_selector(".movie-item-caption span");
    let anchor_sel = compile_selector("label.movie-item-showtime a");
    let time_sel = compile_selector("span.movie-itemshowtime-linktext");
    match (item_sel, caption_sel, anchor_sel, time_sel) {
        (Some(items), Some(captions), Some(anchors), Some(times)) => {
            let item_els = select_in_document(doc, &items);
            let mut i: usize = 0;
            while i < item_els.len()
                invariant
                    forall|k: int|
                        0 <= k < out@.len() ==> (#[trigger] out@[k])@.showing.wf(),
                decreases item_els@.len() - i,
            {
                let caption_els = select_in_element(&item_els[i], &captions);
                let caption: Option<Vec<u8>> = if caption_els.len() > 0 {
                    Some(element_text(&caption_els[0]))
                } else {
                    None
                };
                let date_attr = element_attr(&item_els[i], "data-date");
                let anchor_els = select_in_element(&item_els[i], &anchors);
                let mut anchor_data: Vec<AnchorData> = Vec::new();
                let mut j: usize = 0;
                while j < anchor_els.len()
                    decreases anchor_els@.len() - j,
                {
                    let time_els = select_in_element(&anchor_els[j], &times);
                    let time_text: Vec<u8> = if time_els.len() > 0 {
                        element_text(&time_els[0])
                    } else {
                        Vec::new()
                    };
                    let class_attr = element_attr(&anchor_els[j], "class");
                    anchor_data.push(AnchorData { time_text, class_attr });
                    j = j + 1;
                }
                let mut found = item_showings(&caption, &date_attr, &anchor_data, table);
                let ghost out_before: Seq<DatedShowing> = out@;
                let ghost found_v: Seq<DatedShowing> = found@;
                out.append(&mut found);
                proof {
                    assert forall|k: int| 0 <= k < out@.len() implies (
                    #[trigger] out@[k])@.showing.wf() by {
                        if k < out_before.len() {
                            assert(out@[k] == out_before[k]);
                        } else {
                            assert(out@[k] == found_v[k - out_before.len()]);
                        }
                    }
                }
                i = i + 1;
            }
        },
        _ => (),
    }
    out
}

/// Extract the full schedule from markup text: build the runtime table
/// from the grid region, collect the showings of the per-date region, and
/// group and order them. The result is well formed: dates strictly ascend,
/// each day's showings are ordered by start time, and every showing's
/// runtime and end time are either both known, the end derived from start,
/// runtime and the advertising buffer, or both unknown.
pub fn extract_schedule(markup: &str) -> (s: Schedule)
    ensures
        schedule_wf(s@),
        all_showings_wf(s@),
{
    let doc = parse_document(markup);
    let table = extract_runtimes(&doc);
    let items = extract_showings(&doc, &table);
    proof {
        assert(forall|k: int|
            0 <= k < items@.len() ==> (#[trigger] items@[k])@.showing.wf());
    }
    build_schedule(&items)
}

} // verus!
