//! Per-card and per-item extraction decisions. A grid card yields at most
//! one runtime-table entry; a per-date item yields one showing per anchor
//! whose time parses, and nothing at all when its date is missing or
//! malformed.

use crate::model::{
    effective_runtime, language_flag, make_showing, spec_flag, time_of_minutes, DatedShowing,
    DatedShowingV, Date, ShowingV, AD_BUFFER_MINUTES,
};
use crate::parse::{parse_date, parse_time, spec_find_runtime, spec_parse_date, spec_parse_time};
use crate::schedule::views_of;
use crate::table::{spec_lookup, Entry, RuntimeTable};
use crate::text::{trim, trim_spec};
use vstd::prelude::*;
use vstd::slice::slice_to_vec;

verus! {

/// The trimmed title of a grid card: its first heading, or empty when it
/// has none.
pub open spec fn spec_card_title(headings: Seq<Vec<u8>>) -> Seq<u8> {
    trim_spec(
        if headings.len() == 0 {
            Seq::empty()
        } else {
            headings[0]@
        },
    )
}

/// The runtime announced by a grid card: the value of the first label text
/// that holds one.
pub open spec fn spec_card_runtime(labels: Seq<Vec<u8>>) -> Option<u64>
    decreases labels.len(),
{
    if labels.len() == 0 {
        None
    } else {
        match spec_find_runtime(labels[0]@) {
            Some(v) => Some(v),
            None => spec_card_runtime(labels.drop_first()),
        }
    }
}

/// The table entry of a grid card: its title with its announced runtime,
/// or nothing when no label announces one.
pub open spec fn spec_card_entry(headings: Seq<Vec<u8>>, labels: Seq<Vec<u8>>) -> Option<
    (Seq<u8>, u64),
> {
    match spec_card_runtime(labels) {
        Some(v) => Some((spec_card_title(headings), v)),
        None => None,
    }
}

/// Scan a card's label texts for the first announced runtime.
pub fn card_runtime(labels: &Vec<Vec<u8>>) -> (r: Option<u64>)
    ensures
        r == spec_card_runtime(labels@),
{
    let mut i: usize = 0;
    proof {
        assert(labels@.skip(0) =~= labels@);
    }
    while i < labels.len()
        invariant
            0 <= i <= labels@.len(),
            spec_card_runtime(labels@) == spec_card_runtime(labels@.skip(i as int)),
        decreases labels@.len() - i,
    {
        proof {
            assert(labels@.skip(i as int)[0] == labels@[i as int]);
            assert(labels@.skip(i as int).drop_first() =~= labels@.skip(i + 1));
        }
        let found = crate::parse::find_runtime(&labels[i]);
        if let Some(v) = found {
            return Some(v);
        }
        i = i + 1;
    }
    None
}

/// The title and runtime a grid card contributes to the table, if any.
pub fn card_entry(headings: &Vec<Vec<u8>>, labels: &Vec<Vec<u8>>) -> (r: Option<(Vec<u8>, u64)>)
    ensures
        r is Some <==> spec_card_entry(headings@, labels@) is Some,
        r matches Some(p) ==> spec_card_entry(headings@, labels@) == Some((p.0@, p.1)),
{
    let rt = card_runtime(labels);
    match rt {
        Some(v) => {
            let title: Vec<u8> = if headings.len() > 0 {
                trim(&headings[0])
            } else {
                Vec::new()
            };
            proof {
                if headings@.len() == 0 {
                    assert(trim_spec(Seq::<u8>::empty()) =~= Seq::<u8>::empty());
                }
            }
            Some((title, v))
        },
        None => None,
    }
}

/// The raw pieces of one showtime anchor: the text of its time label
/// (empty when it has none) and its class attribute, if present.
pub struct AnchorData {
    pub time_text: Vec<u8>,
    pub class_attr: Option<Vec<u8>>,
}

/// The showing one anchor yields, when its trimmed time text parses.
pub open spec fn spec_showing_of_anchor(title: Seq<u8>, rt: Option<u64>, a: AnchorData) -> Option<
    ShowingV,
> {
    match spec_parse_time(trim_spec(a.time_text@)) {
        Some(start) => Some(
            ShowingV {
                title,
                runtime_minutes: effective_runtime(rt),
                start,
                end: match effective_runtime(rt) {
                    Some(r) => Some(
                        time_of_minutes((start.spec_minutes() + r + AD_BUFFER_MINUTES) % 1440),
                    ),
                    None => None,
                },
                flag: match a.class_attr {
                    Some(c) => spec_flag(c@),
                    None => None,
                },
            },
        ),
        None => None,
    }
}

/// The showings of an item's anchors, in order; an anchor whose time does
/// not parse contributes nothing.
pub open spec fn spec_anchor_showings(
    title: Seq<u8>,
    rt: Option<u64>,
    date: Date,
    anchors: Seq<AnchorData>,
) -> Seq<DatedShowingV>
    decreases anchors.len(),
{
    if anchors.len() == 0 {
        Seq::empty()
    } else {
        spec_anchor_showings(title, rt, date, anchors.drop_last()) + (match spec_showing_of_anchor(
            title,
            rt,
            anchors.last(),
        ) {
            Some(sv) => seq![DatedShowingV { date, showing: sv }],
            None => Seq::empty(),
        })
    }
}

/// The title an item carries: its trimmed caption, or empty without one.
pub open spec fn spec_item_title(caption: Option<Seq<u8>>) -> Seq<u8> {
    trim_spec(
        match caption {
            Some(c) => c,
            None => Seq::empty(),
        },
    )
}

/// The view of an optional byte text.
pub open spec fn opt_bytes_view(o: Option<Vec<u8>>) -> Option<Seq<u8>> {
    match o {
        Some(v) => Some(v@),
        None => None,
    }
}

/// The showings of one per-date item. An item without a well-formed date
/// yields nothing; otherwise each anchor with a parseable time yields one
/// showing, joined against the runtime table by the item's trimmed title.
pub open spec fn spec_item_showings(
    caption: Option<Seq<u8>>,
    date_attr: Option<Seq<u8>>,
    anchors: Seq<AnchorData>,
    entries: Seq<Entry>,
) -> Seq<DatedShowingV> {
    match date_attr {
        None => Seq::empty(),
        Some(ds) => match spec_parse_date(ds) {
            None => Seq::empty(),
            Some(date) => spec_anchor_showings(
                spec_item_title(caption),
                spec_lookup(entries, spec_item_title(caption)),
                date,
                anchors,
            ),
        },
    }
}

/// Collect the showings of one per-date item.
pub fn item_showings(
    caption: &Option<Vec<u8>>,
    date_attr: &Option<Vec<u8>>,
    anchors: &Vec<AnchorData>,
    table: &RuntimeTable,
) -> (out: Vec<DatedShowing>)
    ensures
        views_of(out@) == spec_item_showings(
            opt_bytes_view(*caption),
            opt_bytes_view(*date_attr),
            anchors@,
            table.entries@,
        ),
        forall|k: int| 0 <= k < out@.len() ==> (#[trigger] out@[k])@.showing.wf(),
{
    let parsed: Option<Date> = match date_attr {
        Some(ds) => parse_date(ds),
        None => None,
    };
    let date: Date = match parsed {
        Some(d) => d,
        None => {
            let out: Vec<DatedShowing> = Vec::new();
            proof {
                assert(views_of(out@) =~= Seq::<DatedShowingV>::empty());
            }
            return out;
        },
    };
    let title: Vec<u8> = match caption {
        Some(c) => trim(c),
        None => Vec::new(),
    };
    proof {
        if (*caption) is None {
            assert(trim_spec(Seq::<u8>::empty()) =~= Seq::<u8>::empty());
        }
        assert(title@ == spec_item_title(opt_bytes_view(*caption)));
    }
    let rt: Option<u64> = table.lookup(&title);
    let mut out: Vec<DatedShowing> = Vec::new();
    let mut i: usize = 0;
    proof {
        assert(anchors@.take(0) =~= Seq::<AnchorData>::empty());
        assert(views_of(out@) =~= spec_anchor_showings(title@, rt, date, anchors@.take(0)));
    }
    while i < anchors.len()
        invariant
            0 <= i <= anchors@.len(),
            title@ == spec_item_title(opt_bytes_view(*caption)),
            rt == spec_lookup(table.entries@, title@),
            views_of(out@) == spec_anchor_showings(title@, rt, date, anchors@.take(i as int)),
            forall|k: int| 0 <= k < out@.len() ==> (#[trigger] out@[k])@.showing.wf(),
        decreases anchors@.len() - i,
    {
        proof {
            assert(anchors@.take(i + 1).drop_last() =~= anchors@.take(i as int));
            assert(anchors@.take(i + 1).last() == anchors@[i as int]);
        }
        let ghost out_before: Seq<DatedShowing> = out@;
        let t = trim(&anchors[i].time_text);
        let start = parse_time(&t);
        match start {
            Some(st) => {
                let flag = match &anchors[i].class_attr {
                    Some(c) => language_flag(c),
                    None => None,
                };
                let tcopy: Vec<u8> = slice_to_vec(title.as_slice());
                let sh = make_showing(tcopy, rt, st, flag);
                proof {
                    assert(spec_parse_time(trim_spec(anchors@[i as int].time_text@)) == Some(st));
                    match effective_runtime(rt) {
                        Some(r) => {
                            assert(sh@.runtime_minutes == Some(r));
                            assert(sh@.end == Some(
                                time_of_minutes(
                                    (st.spec_minutes() + r + AD_BUFFER_MINUTES) % 1440,
                                ),
                            ));
                        },
                        None => {
                            assert(sh@.end is None);
                        },
                    }
                    assert(spec_showing_of_anchor(title@, rt, anchors@[i as int]) == Some(sh@));
                }
                out.push(DatedShowing { date, showing: sh });
                proof {
                    assert(views_of(out@) =~= views_of(out_before).push(
                        DatedShowingV { date, showing: sh@ },
                    ));
                }
            },
            None => {
                proof {
                    assert(spec_anchor_showings(title@, rt, date, anchors@.take(i + 1))
                        =~= spec_anchor_showings(title@, rt, date, anchors@.take(i as int)));
                }
            },
        }
        i = i + 1;
    }
    proof {
        assert(anchors@.take(anchors@.len() as int) =~= anchors@);
    }
    out
}

/// Law: an item with a missing or malformed date attribute contributes no
/// showings, however many valid anchors it holds.
pub proof fn lemma_skip_malformed_date(
    caption: Option<Seq<u8>>,
    date_attr: Option<Seq<u8>>,
    anchors: Seq<AnchorData>,
    entries: Seq<Entry>,
)
    requires
        date_attr matches Some(ds) ==> spec_parse_date(ds) is None,
    ensures
        spec_item_showings(caption, date_attr, anchors, entries) == Seq::<DatedShowingV>::empty(),
{
}

/// Law: an anchor whose time text does not parse is omitted, and the
/// remaining anchors yield exactly what they would yield without it.
pub proof fn lemma_skip_malformed_time(
    title: Seq<u8>,
    rt: Option<u64>,
    date: Date,
    anchors: Seq<AnchorData>,
    k: int,
)
    requires
        0 <= k < anchors.len(),
        spec_parse_time(trim_spec(anchors[k].time_text@)) is None,
    ensures
        spec_anchor_showings(title, rt, date, anchors) == spec_anchor_showings(
            title,
            rt,
            date,
            anchors.remove(k),
        ),
    decreases anchors.len(),
{
    if k == anchors.len() - 1 {
        assert(anchors.remove(k) =~= anchors.drop_last());
        assert(spec_showing_of_anchor(title, rt, anchors.last()) is None);
        assert(spec_anchor_showings(title, rt, date, anchors) =~= spec_anchor_showings(
            title,
            rt,
            date,
            anchors.drop_last(),
        ));
    } else {
        lemma_skip_malformed_time(title, rt, date, anchors.drop_last(), k);
        assert(anchors.remove(k).drop_last() =~= anchors.drop_last().remove(k));
        assert(anchors.remove(k).last() == anchors.last());
    }
}

/// Law: at the item level, one unparseable anchor is dropped while its
/// siblings are kept.
pub proof fn lemma_item_skip_malformed_time(
    caption: Option<Seq<u8>>,
    date_attr: Option<Seq<u8>>,
    anchors: Seq<AnchorData>,
    entries: Seq<Entry>,
    k: int,
)
    requires
        0 <= k < anchors.len(),
        spec_parse_time(trim_spec(anchors[k].time_text@)) is None,
    ensures
        spec_item_showings(caption, date_attr, anchors, entries) == spec_item_showings(
            caption,
            date_attr,
            anchors.remove(k),
            entries,
        ),
{
    match date_attr {
        None => {},
        Some(ds) => {
            match spec_parse_date(ds) {
                None => {},
                Some(date) => {
                    lemma_skip_malformed_time(
                        spec_item_title(caption),
                        spec_lookup(entries, spec_item_title(caption)),
                        date,
                        anchors,
                        k,
                    );
                },
            }
        },
    }
}

} // verus!
