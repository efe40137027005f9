//! The schedule: showings grouped by date, dates in ascending calendar
//! order, and each date's showings ordered by start time. A showing is
//! placed after every earlier showing with an equal start time, so the
//! order of discovery is preserved among ties.

use crate::model::{Date, DatedShowing, DatedShowingV, Showing, ShowingV, Time};
use vstd::prelude::*;

verus! {

/// The showings of one calendar date, in start-time order.
pub struct DayGroup {
    pub date: Date,
    pub shows: Vec<Showing>,
}

/// The mathematical value of a DayGroup.
pub struct DayGroupV {
    pub date: Date,
    pub shows: Seq<ShowingV>,
}

impl View for DayGroup {
    type V = DayGroupV;

    open spec fn view(&self) -> DayGroupV {
        DayGroupV { date: self.date, shows: self.shows@.map_values(|s: Showing| s@) }
    }
}

/// A date-grouped, ordered listing of showings.
pub struct Schedule {
    pub days: Vec<DayGroup>,
}

impl View for Schedule {
    type V = Seq<DayGroupV>;

    open spec fn view(&self) -> Seq<DayGroupV> {
        self.days@.map_values(|d: DayGroup| d@)
    }
}

/// Dates strictly ascend: each date occurs once, in calendar order.
pub open spec fn dates_ascending(days: Seq<DayGroupV>) -> bool {
    forall|i: int, j: int|
        #![trigger days[i], days[j]]
        0 <= i < j < days.len() ==> days[i].date.spec_key() < days[j].date.spec_key()
}

/// Start times never decrease along a day's sequence of showings.
pub open spec fn starts_sorted(shows: Seq<ShowingV>) -> bool {
    forall|i: int, j: int|
        #![trigger shows[i], shows[j]]
        0 <= i <= j < shows.len() ==> shows[i].start.spec_minutes() <= shows[j].start.spec_minutes()
}

/// A well-formed schedule: unique ascending dates, each day sorted by start.
pub open spec fn schedule_wf(days: Seq<DayGroupV>) -> bool {
    &&& dates_ascending(days)
    &&& forall|d: int| 0 <= d < days.len() ==> starts_sorted(#[trigger] days[d].shows)
}

/// Every showing of the schedule is well formed.
pub open spec fn all_showings_wf(days: Seq<DayGroupV>) -> bool {
    forall|d: int, k: int|
        #![trigger days[d].shows[k]]
        0 <= d < days.len() && 0 <= k < days[d].shows.len() ==> days[d].shows[k].wf()
}

/// A showing inserted into a day's sequence: it goes after every showing
/// whose start is at or before its own, and before the first later one.
pub open spec fn spec_insert_show(shows: Seq<ShowingV>, s: ShowingV) -> Seq<ShowingV>
    decreases shows.len(),
{
    if shows.len() == 0 {
        seq![s]
    } else if shows[0].start.spec_minutes() <= s.start.spec_minutes() {
        seq![shows[0]] + spec_insert_show(shows.drop_first(), s)
    } else {
        seq![s] + shows
    }
}

/// A showing inserted into the schedule under its date: an existing group
/// of that date receives it, else a new group opens at the date's place in
/// calendar order.
pub open spec fn spec_insert(days: Seq<DayGroupV>, date: Date, s: ShowingV) -> Seq<DayGroupV>
    decreases days.len(),
{
    if days.len() == 0 {
        seq![DayGroupV { date, shows: seq![s] }]
    } else if days[0].date.spec_key() < date.spec_key() {
        seq![days[0]] + spec_insert(days.drop_first(), date, s)
    } else if days[0].date.spec_key() == date.spec_key() {
        seq![DayGroupV { date: days[0].date, shows: spec_insert_show(days[0].shows, s) }]
            + days.drop_first()
    } else {
        seq![DayGroupV { date, shows: seq![s] }] + days
    }
}

/// The schedule built from a list of dated showings, inserted in order of
/// discovery.
pub open spec fn spec_build(items: Seq<DatedShowingV>) -> Seq<DayGroupV>
    decreases items.len(),
{
    if items.len() == 0 {
        Seq::empty()
    } else {
        spec_insert(spec_build(items.drop_last()), items.last().date, items.last().showing)
    }
}

/// Skipping a prefix of showings that start at or before `s` does not
/// change where `s` lands.
proof fn lemma_insert_show_skip(shows: Seq<ShowingV>, s: ShowingV, p: int)
    requires
        0 <= p <= shows.len(),
        forall|k: int|
            0 <= k < p ==> (#[trigger] shows[k]).start.spec_minutes() <= s.start.spec_minutes(),
    ensures
        spec_insert_show(shows, s) == shows.take(p) + spec_insert_show(shows.skip(p), s),
    decreases p,
{
    if p == 0 {
        assert(shows.skip(0) =~= shows);
        assert(shows.take(0) + spec_insert_show(shows, s) =~= spec_insert_show(shows, s));
    } else {
        lemma_insert_show_skip(shows.drop_first(), s, p - 1);
        assert(shows.drop_first().take(p - 1) =~= shows.take(p).drop_first());
        assert(shows.drop_first().skip(p - 1) =~= shows.skip(p));
        assert(seq![shows[0]] + (shows.drop_first().take(p - 1) + spec_insert_show(
            shows.skip(p),
            s,
        )) =~= shows.take(p) + spec_insert_show(shows.skip(p), s));
    }
}

/// Skipping a prefix of groups with earlier dates does not change where a
/// showing's date lands.
proof fn lemma_insert_skip(days: Seq<DayGroupV>, date: Date, s: ShowingV, p: int)
    requires
        0 <= p <= days.len(),
        forall|k: int|
            0 <= k < p ==> (#[trigger] days[k]).date.spec_key() < date.spec_key(),
    ensures
        spec_insert(days, date, s) == days.take(p) + spec_insert(days.skip(p), date, s),
    decreases p,
{
    if p == 0 {
        assert(days.skip(0) =~= days);
        assert(days.take(0) + spec_insert(days, date, s) =~= spec_insert(days, date, s));
    } else {
        lemma_insert_skip(days.drop_first(), date, s, p - 1);
        assert(days.drop_first().take(p - 1) =~= days.take(p).drop_first());
        assert(days.drop_first().skip(p - 1) =~= days.skip(p));
        assert(seq![days[0]] + (days.drop_first().take(p - 1) + spec_insert(
            days.skip(p),
            date,
            s,
        )) =~= days.take(p) + spec_insert(days.skip(p), date, s));
    }
}

/// Inserting a showing into a sorted day keeps it sorted; the result holds
/// exactly the old showings and the new one.
pub proof fn lemma_insert_show_sorted(shows: Seq<ShowingV>, s: ShowingV)
    requires
        starts_sorted(shows),
    ensures
        starts_sorted(spec_insert_show(shows, s)),
        spec_insert_show(shows, s).len() == shows.len() + 1,
        forall|k: int|
            0 <= k < spec_insert_show(shows, s).len() ==> (#[trigger] spec_insert_show(shows, s)[k]
                == s || shows.contains(spec_insert_show(shows, s)[k])),
        shows.len() == 0 ==> spec_insert_show(shows, s)[0] == s,
        shows.len() > 0 ==> spec_insert_show(shows, s)[0].start.spec_minutes() >= (
        if s.start.spec_minutes() <= shows[0].start.spec_minutes() {
            s.start.spec_minutes()
        } else {
            shows[0].start.spec_minutes()
        }),
    decreases shows.len(),
{
    let res = spec_insert_show(shows, s);
    if shows.len() == 0 {
    } else if shows[0].start.spec_minutes() <= s.start.spec_minutes() {
        let rest = shows.drop_first();
        assert(starts_sorted(rest)) by {
            assert forall|i: int, j: int| 0 <= i <= j < rest.len() implies (#[trigger] rest[i]).start.spec_minutes()
                <= (#[trigger] rest[j]).start.spec_minutes() by {
                assert(rest[i] == shows[i + 1]);
                assert(rest[j] == shows[j + 1]);
            }
        }
        lemma_insert_show_sorted(rest, s);
        let sub = spec_insert_show(rest, s);
        assert(res == seq![shows[0]] + sub);
        assert forall|i: int, j: int| 0 <= i <= j < res.len() implies (#[trigger] res[i]).start.spec_minutes()
            <= (#[trigger] res[j]).start.spec_minutes() by {
            if i == 0 && j > 0 {
                assert(res[j] == sub[j - 1]);
                assert(sub[0].start.spec_minutes() <= sub[j - 1].start.spec_minutes());
                if rest.len() > 0 {
                    assert(shows[0].start.spec_minutes() <= rest[0].start.spec_minutes()) by {
                        assert(rest[0] == shows[1]);
                    }
                }
            } else if i > 0 {
                assert(res[i] == sub[i - 1]);
                assert(res[j] == sub[j - 1]);
            }
        }
        assert forall|k: int| 0 <= k < res.len() implies (#[trigger] res[k] == s || shows.contains(
            res[k],
        )) by {
            if k > 0 {
                assert(res[k] == sub[k - 1]);
                if sub[k - 1] != s {
                    let m = choose|m: int| 0 <= m < rest.len() && rest[m] == sub[k - 1];
                    assert(shows[m + 1] == rest[m]);
                }
            } else {
                assert(shows[0] == res[0]);
            }
        }
    } else {
        assert forall|k: int| 0 <= k < res.len() implies (#[trigger] res[k] == s || shows.contains(
            res[k],
        )) by {
            if k > 0 {
                assert(res[k] == shows[k - 1]);
            }
        }
        assert forall|i: int, j: int| 0 <= i <= j < res.len() implies (#[trigger] res[i]).start.spec_minutes()
            <= (#[trigger] res[j]).start.spec_minutes() by {
            if i == 0 && j > 0 {
                assert(res[j] == shows[j - 1]);
                assert(shows[0].start.spec_minutes() <= shows[j - 1].start.spec_minutes());
            } else if i > 0 {
                assert(res[i] == shows[i - 1]);
                assert(res[j] == shows[j - 1]);
            }
        }
    }
}

/// Inserting a showing keeps the schedule well formed, and adds nothing
/// but the new showing under its date.
pub proof fn lemma_insert_preserves(days: Seq<DayGroupV>, date: Date, s: ShowingV)
    requires
        schedule_wf(days),
    ensures
        schedule_wf(spec_insert(days, date, s)),
        1 <= spec_insert(days, date, s).len() <= days.len() + 1,
        days.len() == 0 ==> spec_insert(days, date, s)[0].date == date,
        days.len() > 0 ==> spec_insert(days, date, s)[0].date.spec_key() >= (
        if date.spec_key() <= days[0].date.spec_key() {
            date.spec_key()
        } else {
            days[0].date.spec_key()
        }),
        all_showings_wf(days) && s.wf() ==> all_showings_wf(spec_insert(days, date, s)),
    decreases days.len(),
{
    let res = spec_insert(days, date, s);
    if days.len() == 0 {
        assert(res =~= seq![DayGroupV { date, shows: seq![s] }]);
        assert(res[0].shows[0] == s);
    } else if days[0].date.spec_key() < date.spec_key() {
        let rest = days.drop_first();
        assert(schedule_wf(rest)) by {
            assert forall|i: int, j: int| 0 <= i < j < rest.len() implies (#[trigger] rest[i]).date.spec_key()
                < (#[trigger] rest[j]).date.spec_key() by {
                assert(rest[i] == days[i + 1]);
                assert(rest[j] == days[j + 1]);
            }
            assert forall|d: int| 0 <= d < rest.len() implies starts_sorted(
                #[trigger] rest[d].shows,
            ) by {
                assert(rest[d] == days[d + 1]);
            }
        }
        lemma_insert_preserves(rest, date, s);
        let sub = spec_insert(rest, date, s);
        assert(res == seq![days[0]] + sub);
        assert(sub[0].date.spec_key() > days[0].date.spec_key()) by {
            if rest.len() > 0 {
                assert(rest[0] == days[1]);
            }
        }
        assert forall|i: int, j: int| 0 <= i < j < res.len() implies (#[trigger] res[i]).date.spec_key()
            < (#[trigger] res[j]).date.spec_key() by {
            if i == 0 {
                assert(res[j] == sub[j - 1]);
                if j - 1 > 0 {
                    assert(sub[0].date.spec_key() < sub[j - 1].date.spec_key());
                }
            } else {
                assert(res[i] == sub[i - 1]);
                assert(res[j] == sub[j - 1]);
            }
        }
        assert forall|d: int| 0 <= d < res.len() implies starts_sorted(#[trigger] res[d].shows) by {
            if d > 0 {
                assert(res[d] == sub[d - 1]);
            }
        }
        if all_showings_wf(days) && s.wf() {
            assert(all_showings_wf(rest)) by {
                assert forall|d: int, k: int|
                    0 <= d < rest.len() && 0 <= k < rest[d].shows.len() implies (
                #[trigger] rest[d].shows[k]).wf() by {
                    assert(rest[d] == days[d + 1]);
                    assert(days[d + 1].shows[k].wf());
                }
            }
            assert forall|d: int, k: int|
                0 <= d < res.len() && 0 <= k < res[d].shows.len() implies (
            #[trigger] res[d].shows[k]).wf() by {
                if d == 0 {
                    assert(days[0].shows[k].wf());
                } else {
                    assert(res[d] == sub[d - 1]);
                    assert(sub[d - 1].shows[k].wf());
                }
            }
        }
    } else if days[0].date.spec_key() == date.spec_key() {
        let group = DayGroupV { date: days[0].date, shows: spec_insert_show(days[0].shows, s) };
        assert(starts_sorted(days[0].shows));
        lemma_insert_show_sorted(days[0].shows, s);
        assert(res == seq![group] + days.drop_first());
        assert forall|i: int, j: int| 0 <= i < j < res.len() implies (#[trigger] res[i]).date.spec_key()
            < (#[trigger] res[j]).date.spec_key() by {
            assert(res[j] == days[j]);
            if i > 0 {
                assert(res[i] == days[i]);
            }
        }
        assert forall|d: int| 0 <= d < res.len() implies starts_sorted(#[trigger] res[d].shows) by {
            if d > 0 {
                assert(res[d] == days[d]);
            }
        }
        if all_showings_wf(days) && s.wf() {
            assert forall|d: int, k: int|
                0 <= d < res.len() && 0 <= k < res[d].shows.len() implies (
            #[trigger] res[d].shows[k]).wf() by {
                if d == 0 {
                    let x = res[0].shows[k];
                    if x == s {
                    } else {
                        assert(days[0].shows.contains(x));
                        let m = choose|m: int| 0 <= m < days[0].shows.len() && days[0].shows[m]
                            == x;
                        assert(days[0].shows[m].wf());
                    }
                } else {
                    assert(res[d] == days[d]);
                    assert(days[d].shows[k].wf());
                }
            }
        }
    } else {
        let group = DayGroupV { date, shows: seq![s] };
        assert(res == seq![group] + days);
        assert forall|i: int, j: int| 0 <= i < j < res.len() implies (#[trigger] res[i]).date.spec_key()
            < (#[trigger] res[j]).date.spec_key() by {
            assert(res[j] == days[j - 1]);
            if i > 0 {
                assert(res[i] == days[i - 1]);
            }
        }
        assert forall|d: int| 0 <= d < res.len() implies starts_sorted(#[trigger] res[d].shows) by {
            if d > 0 {
                assert(res[d] == days[d - 1]);
            }
        }
        if all_showings_wf(days) && s.wf() {
            assert forall|d: int, k: int|
                0 <= d < res.len() && 0 <= k < res[d].shows.len() implies (
            #[trigger] res[d].shows[k]).wf() by {
                if d == 0 {
                    assert(res[0].shows[k] == s);
                } else {
                    assert(res[d] == days[d - 1]);
                    assert(days[d - 1].shows[k].wf());
                }
            }
        }
    }
}

/// The date's calendar key, computed on machine integers.
pub fn date_key_of(d: Date) -> (k: u32)
    ensures
        k as int == d.spec_key(),
{
    (d.year as u32) * 10000 + (d.month as u32) * 100 + (d.day as u32)
}

/// The time as minutes since midnight, computed on machine integers.
pub fn minutes_of(t: Time) -> (m: u16)
    ensures
        m as int == t.spec_minutes(),
{
    (t.hour as u16) * 60 + (t.minute as u16)
}

impl Schedule {
    /// An empty schedule.
    pub fn new() -> (s: Schedule)
        ensures
            s@ =~= Seq::<DayGroupV>::empty(),
            schedule_wf(s@),
    {
        Schedule { days: Vec::new() }
    }

    /// Insert one showing under its date, keeping dates ascending and the
    /// date's showings ordered by start time, ties in discovery order.
    pub fn insert_showing(&mut self, date: Date, s: Showing)
        requires
            schedule_wf(old(self)@),
        ensures
            final (self)@ == spec_insert(old(self)@, date, s@),
            schedule_wf(final (self)@),
    {
        proof {
            lemma_insert_preserves(old(self)@, date, s@);
        }
        let ghost oldv: Seq<DayGroupV> = self@;
        let skey: u32 = date_key_of(date);
        let mut di: usize = 0;
        while di < self.days.len() && date_key_of(self.days[di].date) < skey
            invariant
                0 <= di <= self.days@.len(),
                *self == *old(self),
                skey as int == date.spec_key(),
                forall|k: int|
                    0 <= k < di ==> (#[trigger] self@[k]).date.spec_key() < date.spec_key(),
            decreases self.days@.len() - di,
        {
            proof {
                assert(self@[di as int] == self.days@[di as int]@);
            }
            di = di + 1;
        }
        proof {
            lemma_insert_skip(oldv, date, s@, di as int);
            assert(oldv.len() == self.days@.len());
            if di < self.days.len() {
                assert(oldv[di as int] == self.days@[di as int]@);
            }
        }
        if di < self.days.len() && date_key_of(self.days[di].date) == skey {
            let smin: u16 = minutes_of(s.start);
            let mut day = self.days.remove(di);
            let ghost day0: DayGroup = day;
            proof {
                assert(day@ == oldv[di as int]);
            }
            let mut p: usize = 0;
            while p < day.shows.len() && minutes_of(day.shows[p].start) <= smin
                invariant
                    0 <= p <= day.shows@.len(),
                    day == day0,
                    smin as int == s@.start.spec_minutes(),
                    forall|k: int|
                        0 <= k < p ==> (#[trigger] day@.shows[k]).start.spec_minutes()
                            <= s@.start.spec_minutes(),
                decreases day.shows@.len() - p,
            {
                proof {
                    assert(day@.shows[p as int] == day.shows@[p as int]@);
                }
                p = p + 1;
            }
            proof {
                lemma_insert_show_skip(day@.shows, s@, p as int);
                if p < day.shows.len() {
                    assert(day@.shows[p as int] == day.shows@[p as int]@);
                    assert(day@.shows.skip(p as int)[0] == day@.shows[p as int]);
                } else {
                    assert(day@.shows.skip(p as int) =~= Seq::<ShowingV>::empty());
                }
                assert(spec_insert_show(day@.shows, s@) =~= day@.shows.insert(p as int, s@));
                assert(oldv.skip(di as int)[0] == oldv[di as int]);
            }
            let ghost shows_before: Seq<Showing> = day.shows@;
            day.shows.insert(p, s);
            proof {
                assert(day@.shows =~= day0@.shows.insert(p as int, s@)) by {
                    assert(day.shows@ == shows_before.insert(p as int, s));
                    assert forall|k: int| 0 <= k < day.shows@.len() implies #[trigger] day@.shows[k]
                        == day0@.shows.insert(p as int, s@)[k] by {
                        assert(day@.shows[k] == day.shows@[k]@);
                        if k < p {
                            assert(day.shows@[k] == shows_before[k]);
                        } else if k == p {
                            assert(day.shows@[k] == s);
                        } else {
                            assert(day.shows@[k] == shows_before[k - 1]);
                        }
                    }
                }
            }
            let ghost days_mid: Seq<DayGroup> = self.days@;
            let ghost dayfinal: DayGroup = day;
            self.days.insert(di, day);
            proof {
                assert(self@ =~= spec_insert(oldv, date, s@)) by {
                    assert(days_mid == old(self).days@.remove(di as int));
                    assert(self.days@ == days_mid.insert(di as int, dayfinal));
                    let spec_side = oldv.take(di as int) + (seq![
                        DayGroupV {
                            date: oldv[di as int].date,
                            shows: spec_insert_show(oldv[di as int].shows, s@),
                        },
                    ] + oldv.skip(di as int).drop_first());
                    assert(spec_insert(oldv, date, s@) == spec_side);
                    assert forall|k: int| 0 <= k < self@.len() implies #[trigger] self@[k]
                        == spec_side[k] by {
                        assert(self@[k] == self.days@[k]@);
                        if k < di {
                            assert(self.days@[k] == old(self).days@[k]);
                            assert(oldv[k] == old(self).days@[k]@);
                        } else if k == di {
                            assert(self.days@[k] == dayfinal);
                        } else {
                            assert(self.days@[k] == days_mid[k - 1]);
                            assert(days_mid[k - 1] == old(self).days@[k]);
                            assert(oldv[k] == old(self).days@[k]@);
                        }
                    }
                }
            }
        } else {
            let mut shows: Vec<Showing> = Vec::new();
            shows.push(s);
            let group = DayGroup { date, shows };
            proof {
                assert(group@.shows =~= seq![s@]);
                if di < self.days.len() {
                    assert(oldv.skip(di as int)[0] == oldv[di as int]);
                } else {
                    assert(oldv.skip(di as int) =~= Seq::<DayGroupV>::empty());
                }
            }
            let ghost groupg: DayGroup = group;
            self.days.insert(di, group);
            proof {
                assert(self@ =~= spec_insert(oldv, date, s@)) by {
                    assert(self.days@ == old(self).days@.insert(di as int, groupg));
                    let spec_side = oldv.take(di as int) + (seq![groupg@] + oldv.skip(di as int));
                    assert(spec_insert(oldv, date, s@) == spec_side);
                    assert forall|k: int| 0 <= k < self@.len() implies #[trigger] self@[k]
                        == spec_side[k] by {
                        assert(self@[k] == self.days@[k]@);
                        if k < di {
                            assert(self.days@[k] == old(self).days@[k]);
                            assert(oldv[k] == old(self).days@[k]@);
                        } else if k == di {
                            assert(self.days@[k] == groupg);
                        } else {
                            assert(self.days@[k] == old(self).days@[k - 1]);
                            assert(oldv[k - 1] == old(self).days@[k - 1]@);
                        }
                    }
                }
            }
        }
    }
}

/// The views of a list of dated showings.
pub open spec fn views_of(items: Seq<DatedShowing>) -> Seq<DatedShowingV> {
    items.map_values(|x: DatedShowing| x@)
}

/// Build the schedule from a list of dated showings, inserting them in
/// order of discovery.
pub fn build_schedule(items: &Vec<DatedShowing>) -> (s: Schedule)
    ensures
        s@ == spec_build(views_of(items@)),
        schedule_wf(s@),
        (forall|k: int| 0 <= k < items@.len() ==> (#[trigger] items@[k])@.showing.wf())
            ==> all_showings_wf(s@),
{
    let mut sched = Schedule::new();
    let mut idx: usize = 0;
    proof {
        assert(views_of(items@).take(0) =~= Seq::<DatedShowingV>::empty());
        assert(sched@ =~= spec_build(views_of(items@).take(0)));
    }
    while idx < items.len()
        invariant
            0 <= idx <= items@.len(),
            sched@ == spec_build(views_of(items@).take(idx as int)),
            schedule_wf(sched@),
            (forall|k: int| 0 <= k < items@.len() ==> (#[trigger] items@[k])@.showing.wf())
                ==> all_showings_wf(sched@),
        decreases items@.len() - idx,
    {
        let sh = items[idx].showing.duplicate();
        let d: Date = items[idx].date;
        proof {
            lemma_insert_preserves(sched@, d, sh@);
            assert(views_of(items@).take(idx + 1).drop_last() =~= views_of(items@).take(
                idx as int,
            ));
            assert(views_of(items@).take(idx + 1).last() == views_of(items@)[idx as int]);
            assert(views_of(items@)[idx as int] == items@[idx as int]@);
        }
        sched.insert_showing(d, sh);
        idx = idx + 1;
    }
    proof {
        assert(views_of(items@).take(items@.len() as int) =~= views_of(items@));
    }
    sched
}

/// The total number of showings a schedule holds, over all its days.
pub open spec fn total_shows(days: Seq<DayGroupV>) -> nat
    decreases days.len(),
{
    if days.len() == 0 {
        0
    } else {
        days[0].shows.len() + total_shows(days.drop_first())
    }
}

proof fn lemma_insert_show_len(shows: Seq<ShowingV>, s: ShowingV)
    ensures
        spec_insert_show(shows, s).len() == shows.len() + 1,
    decreases shows.len(),
{
    if shows.len() > 0 && shows[0].start.spec_minutes() <= s.start.spec_minutes() {
        lemma_insert_show_len(shows.drop_first(), s);
    }
}

/// Inserting one showing grows the schedule's total by exactly one.
proof fn lemma_insert_count(days: Seq<DayGroupV>, date: Date, s: ShowingV)
    ensures
        total_shows(spec_insert(days, date, s)) == total_shows(days) + 1,
    decreases days.len(),
{
    let res = spec_insert(days, date, s);
    assert(total_shows(res) == res[0].shows.len() + total_shows(res.drop_first()));
    if days.len() == 0 {
        assert(res[0].shows.len() == 1);
        assert(res.drop_first() =~= Seq::<DayGroupV>::empty());
        assert(total_shows(res.drop_first()) == 0);
    } else if days[0].date.spec_key() < date.spec_key() {
        lemma_insert_count(days.drop_first(), date, s);
        assert(res[0] == days[0]);
        assert(res.drop_first() =~= spec_insert(days.drop_first(), date, s));
        assert(total_shows(days) == days[0].shows.len() + total_shows(days.drop_first()));
    } else if days[0].date.spec_key() == date.spec_key() {
        lemma_insert_show_len(days[0].shows, s);
        assert(res[0].shows == spec_insert_show(days[0].shows, s));
        assert(res.drop_first() =~= days.drop_first());
        assert(total_shows(days) == days[0].shows.len() + total_shows(days.drop_first()));
    } else {
        assert(res[0].shows.len() == 1);
        assert(res.drop_first() =~= days);
    }
}

/// Law: no showing is dropped and none is deduplicated; the built schedule
/// holds exactly as many showings as the list it was built from.
pub proof fn lemma_build_count(items: Seq<DatedShowingV>)
    ensures
        total_shows(spec_build(items)) == items.len(),
    decreases items.len(),
{
    if items.len() > 0 {
        lemma_build_count(items.drop_last());
        lemma_insert_count(spec_build(items.drop_last()), items.last().date, items.last().showing);
    }
}

/// Ordering of one day: a showing that starts strictly earlier than
/// another stands strictly before it.
pub proof fn lemma_day_start_order(days: Seq<DayGroupV>, d: int, i: int, j: int)
    requires
        schedule_wf(days),
        0 <= d < days.len(),
        0 <= i < days[d].shows.len(),
        0 <= j < days[d].shows.len(),
        days[d].shows[i].start.spec_minutes() < days[d].shows[j].start.spec_minutes(),
    ensures
        i < j,
{
    if j <= i {
        assert(days[d].shows[j].start.spec_minutes() <= days[d].shows[i].start.spec_minutes());
    }
}

/// Ordering of days: an earlier group carries a strictly earlier date.
pub proof fn lemma_date_order(days: Seq<DayGroupV>, a: int, b: int)
    requires
        schedule_wf(days),
        0 <= a < b < days.len(),
    ensures
        days[a].date.spec_key() < days[b].date.spec_key(),
{
}

} // verus!
