//! The data model: dates, clock times, language flags and showings.

use crate::text::{bytes_of, contains_bytes, contains_seq};
use vstd::arithmetic::div_mod::{lemma_add_mod_noop, lemma_mod_twice};
use vstd::prelude::*;
use vstd::slice::slice_to_vec;
use vstd::string::StringSliceAdditionalSpecFns;

verus! {

/// Minutes of estimated advertising added to a stated runtime when the end
/// time of a showing is derived.
pub const AD_BUFFER_MINUTES: u64 = 15;

/// A calendar date.
#[derive(Clone, Copy, Debug, PartialEq, Eq)]
pub struct Date {
    pub year: u16,
    pub month: u8,
    pub day: u8,
}

/// A clock time on a 24-hour clock.
#[derive(Clone, Copy, Debug, PartialEq, Eq)]
pub struct Time {
    pub hour: u8,
    pub minute: u8,
}

/// The language presentation of a showing: original with subtitles (OmU) or
/// original version (OV).
#[derive(Clone, Copy, Debug, PartialEq, Eq)]
pub enum Flag {
    OmU,
    OV,
}

impl Time {
    /// A time fits a 24-hour clock.
    pub open spec fn wf(self) -> bool {
        self.hour < 24 && self.minute < 60
    }

    /// The time as minutes since midnight.
    pub open spec fn spec_minutes(self) -> int {
        self.hour * 60 + self.minute
    }
}

/// The well-formed time at the given count of minutes since midnight.
pub open spec fn time_of_minutes(m: int) -> Time
    recommends
        0 <= m < 1440,
{
    Time { hour: (m / 60) as u8, minute: (m % 60) as u8 }
}

impl Date {
    /// The year is four digits wide and month and day lie in calendar range.
    pub open spec fn wf(self) -> bool {
        &&& self.year <= 9999
    &&& 1 <= self.month <= 12
    &&& 1 <= self.day <= days_in_month(self.year as int, self.month as int)
    }

    /// A single integer that orders dates by calendar value.
    pub open spec fn spec_key(self) -> int {
        self.year * 10000 + self.month * 100 + self.day
    }
}

/// A leap year of the Gregorian calendar.
pub open spec fn is_leap_year(y: int) -> bool {
    y % 4 == 0 && (y % 100 != 0 || y % 400 == 0)
}

/// The number of days of the given month.
pub open spec fn days_in_month(y: int, m: int) -> int {
    if m == 2 {
        if is_leap_year(y) {
            29
        } else {
            28
        }
    } else if m == 4 || m == 6 || m == 9 || m == 11 {
        30
    } else {
        31
    }
}

/// One concrete screening of a movie. `runtime_minutes` and `end` are
/// either both present or both absent; when present, the end time is the
/// start plus the runtime plus the advertising buffer, wrapped within one
/// day.
pub struct Showing {
    pub title: Vec<u8>,
    pub runtime_minutes: Option<u64>,
    pub start: Time,
    pub end: Option<Time>,
    pub flag: Option<Flag>,
}

/// The mathematical value of a Showing: the title as a byte sequence, the
/// rest as it stands.
pub struct ShowingV {
    pub title: Seq<u8>,
    pub runtime_minutes: Option<u64>,
    pub start: Time,
    pub end: Option<Time>,
    pub flag: Option<Flag>,
}

impl View for Showing {
    type V = ShowingV;

    open spec fn view(&self) -> ShowingV {
        ShowingV {
            title: self.title@,
            runtime_minutes: self.runtime_minutes,
            start: self.start,
            end: self.end,
            flag: self.flag,
        }
    }
}

impl ShowingV {
    /// Runtime and end time are paired: both known or both unknown, and a
    /// known end time is derived from the start, the runtime and the
    /// advertising buffer.
    pub open spec fn wf(self) -> bool {
        &&& self.start.wf()
        &&& (self.runtime_minutes is Some <==> self.end is Some)
        &&& (match self.runtime_minutes {
            Some(r) => r > 0 && self.end == Some(
                time_of_minutes(
                    (self.start.spec_minutes() + r + AD_BUFFER_MINUTES) % 1440,
                ),
            ),
            None => true,
        })
    }
}

impl Showing {
    /// An exact copy of the showing.
    pub fn duplicate(&self) -> (r: Showing)
        ensures
            r@ == self@,
    {
        Showing {
            title: slice_to_vec(self.title.as_slice()),
            runtime_minutes: self.runtime_minutes,
            start: self.start,
            end: self.end,
            flag: self.flag,
        }
    }
}

/// A showing together with the calendar date it was found under.
pub struct DatedShowing {
    pub date: Date,
    pub showing: Showing,
}

/// The mathematical value of a DatedShowing.
pub struct DatedShowingV {
    pub date: Date,
    pub showing: ShowingV,
}

impl View for DatedShowing {
    type V = DatedShowingV;

    open spec fn view(&self) -> DatedShowingV {
        DatedShowingV { date: self.date, showing: self.showing@ }
    }
}

/// A runtime as carried into a showing: a positive count of minutes stays,
/// an absent or zero count is unknown.
pub open spec fn effective_runtime(rt: Option<u64>) -> Option<u64> {
    match rt {
        Some(r) => if r > 0 {
            Some(r)
        } else {
            None
        },
        None => None,
    }
}

/// The marker substring whose presence in a class attribute signals an
/// original-with-subtitles showing.
pub open spec fn omu_marker() -> Seq<u8> {
    "movie-item-showing-lang-OmU".spec_bytes()
}

/// The marker substring whose presence in a class attribute signals an
/// original-version showing.
pub open spec fn ov_marker() -> Seq<u8> {
    "movie-item-showing-lang-OV".spec_bytes()
}

/// The flag read from a class attribute: the OmU marker is checked first,
/// so text holding both markers resolves to OmU.
pub open spec fn spec_flag(class: Seq<u8>) -> Option<Flag> {
    if contains_seq(class, omu_marker()) {
        Some(Flag::OmU)
    } else if contains_seq(class, ov_marker()) {
        Some(Flag::OV)
    } else {
        None
    }
}

/// Read the language flag of a showing from its anchor's class attribute.
pub fn language_flag(class_attr: &Vec<u8>) -> (r: Option<Flag>)
    ensures
        r == spec_flag(class_attr@),
{
    let omu = bytes_of("movie-item-showing-lang-OmU");
    if contains_bytes(class_attr, &omu) {
        return Some(Flag::OmU);
    }
    let ov = bytes_of("movie-item-showing-lang-OV");
    if contains_bytes(class_attr, &ov) {
        Some(Flag::OV)
    } else {
        None
    }
}

/// The end time of a showing: start plus runtime plus the advertising
/// buffer, wrapped within one day (a sum crossing midnight wraps; no date
/// rollover is performed).
pub fn end_time(start: Time, runtime: u64) -> (r: Time)
    requires
        start.wf(),
    ensures
        r.wf(),
        r == time_of_minutes((start.spec_minutes() + runtime + AD_BUFFER_MINUTES) % 1440),
{
    let start_minutes: u64 = (start.hour as u64) * 60 + (start.minute as u64);
    let total: u64 = start_minutes + runtime % 1440 + AD_BUFFER_MINUTES;
    let m: u64 = total % 1440;
    proof {
        let a = start.spec_minutes() + AD_BUFFER_MINUTES;
        lemma_add_mod_noop(a, runtime as int, 1440);
        lemma_add_mod_noop(a, (runtime as int) % 1440, 1440);
        lemma_mod_twice(runtime as int, 1440);
        assert((a + runtime % 1440) % 1440 == (a + runtime) % 1440);
    }
    Time { hour: (m / 60) as u8, minute: (m % 60) as u8 }
}

/// Law: a showing with a known runtime ends exactly at its start plus the
/// runtime plus the advertising buffer, wrapped within one day.
pub proof fn lemma_runtime_join(sv: ShowingV, r: u64)
    requires
        sv.wf(),
        sv.runtime_minutes == Some(r),
    ensures
        sv.end == Some(time_of_minutes((sv.start.spec_minutes() + r + AD_BUFFER_MINUTES) % 1440)),
{
}

/// Law: a showing with no known runtime has an unknown end time, never a
/// zero or sentinel one.
pub proof fn lemma_unknown_runtime(sv: ShowingV)
    requires
        sv.wf(),
        sv.runtime_minutes is None,
    ensures
        sv.end is None,
{
}

/// Law: class text holding the OmU marker resolves to OmU, whether or not
/// it also holds the OV marker.
pub proof fn lemma_flag_precedence(class: Seq<u8>)
    requires
        contains_seq(class, omu_marker()),
    ensures
        spec_flag(class) == Some(Flag::OmU),
{
}

/// Build one showing. A known positive runtime fixes the pair of runtime
/// and end time; an absent or zero runtime leaves both unknown.
pub fn make_showing(title: Vec<u8>, runtime: Option<u64>, start: Time, flag: Option<Flag>) -> (s:
    Showing)
    requires
        start.wf(),
    ensures
        s@.wf(),
        s@.title == title@,
        s@.start == start,
        s@.flag == flag,
        s@.runtime_minutes == effective_runtime(runtime),
{
    let (rt, end): (Option<u64>, Option<Time>) = match runtime {
        Some(r) => if r > 0 {
            (Some(r), Some(end_time(start, r)))
        } else {
            (None, None)
        },
        None => (None, None),
    };
    Showing { title, runtime_minutes: rt, start, end, flag }
}

} // verus!
