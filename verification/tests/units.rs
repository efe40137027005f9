//! Unit tests for the parsers, the text helpers, the runtime table and
//! the schedule builder.

use kinoplan::model::{end_time, language_flag, make_showing, Date, Flag, Showing, Time};
use kinoplan::parse::{find_runtime, parse_date, parse_time};
use kinoplan::schedule::{build_schedule, date_key_of, minutes_of};
use kinoplan::table::RuntimeTable;
use kinoplan::text::{bytes_eq, bytes_of, contains_bytes, trim};
use kinoplan::model::DatedShowing;

fn b(s: &str) -> Vec<u8> {
    bytes_of(s)
}

#[test]
fn trim_removes_surrounding_whitespace() {
    assert_eq!(trim(&b("  Film A \t\n")), b("Film A"));
    assert_eq!(trim(&b("inner  space")), b("inner  space"));
    assert_eq!(trim(&b("   ")), b(""));
    assert_eq!(trim(&b("")), b(""));
}

#[test]
fn contains_finds_patterns() {
    assert!(contains_bytes(&b("abc def"), &b("c d")));
    assert!(!contains_bytes(&b("abc"), &b("abcd")));
    assert!(contains_bytes(&b("abc"), &b("")));
    assert!(bytes_eq(&b("xy"), &b("xy")));
    assert!(!bytes_eq(&b("xy"), &b("xz")));
}

#[test]
fn parse_time_accepts_strict_format_only() {
    assert_eq!(parse_time(&b("18:00")), Some(Time { hour: 18, minute: 0 }));
    assert_eq!(parse_time(&b("00:00")), Some(Time { hour: 0, minute: 0 }));
    assert_eq!(parse_time(&b("23:59")), Some(Time { hour: 23, minute: 59 }));
    assert_eq!(parse_time(&b("24:00")), None);
    assert_eq!(parse_time(&b("18:60")), None);
    assert_eq!(parse_time(&b("7:00")), None);
    assert_eq!(parse_time(&b("18:00 ")), None);
    assert_eq!(parse_time(&b("ab:cd")), None);
}

#[test]
fn parse_date_checks_the_calendar() {
    assert_eq!(
        parse_date(&b("2024-05-01")),
        Some(Date { year: 2024, month: 5, day: 1 })
    );
    assert_eq!(
        parse_date(&b("2024-02-29")),
        Some(Date { year: 2024, month: 2, day: 29 })
    );
    assert_eq!(parse_date(&b("2023-02-29")), None);
    assert_eq!(
        parse_date(&b("2000-02-29")),
        Some(Date { year: 2000, month: 2, day: 29 })
    );
    assert_eq!(parse_date(&b("1900-02-29")), None);
    assert_eq!(parse_date(&b("2024-13-01")), None);
    assert_eq!(parse_date(&b("2024-00-10")), None);
    assert_eq!(parse_date(&b("2024-04-31")), None);
    assert_eq!(parse_date(&b("2024-4-3")), None);
    assert_eq!(parse_date(&b("01.05.2024")), None);
    assert_eq!(parse_date(&b("")), None);
}

#[test]
fn find_runtime_reads_the_first_label() {
    assert_eq!(find_runtime(&b("Dauer: 120")), Some(120));
    assert_eq!(find_runtime(&b("Dauer:95")), Some(95));
    assert_eq!(find_runtime(&b("Dauer: \t 7 min")), Some(7));
    assert_eq!(find_runtime(&b("Genre: Drama, Dauer: 105, FSK 12")), Some(105));
    assert_eq!(find_runtime(&b("xDauer: 5")), Some(5));
    assert_eq!(find_runtime(&b("Dauer: 1 Dauer: 2")), Some(1));
    assert_eq!(find_runtime(&b("Dauer:x Dauer: 12")), Some(12));
    assert_eq!(find_runtime(&b("Dauer:")), None);
    assert_eq!(find_runtime(&b("Dauer: min")), None);
    assert_eq!(find_runtime(&b("Regie: Jane Doe")), None);
    assert_eq!(find_runtime(&b("")), None);
    assert_eq!(find_runtime(&b("Dauer: 0")), Some(0));
    // A digit run too large for the machine yields nothing.
    assert_eq!(find_runtime(&b("Dauer: 99999999999999999999999999")), None);
    assert_eq!(find_runtime(&b("Dauer: 18446744073709551615")), Some(u64::MAX));
    assert_eq!(find_runtime(&b("Dauer: 18446744073709551616")), None);
}

#[test]
fn language_flag_prefers_omu() {
    assert_eq!(language_flag(&b("movie-item-showing-lang-OmU")), Some(Flag::OmU));
    assert_eq!(language_flag(&b("movie-item-showing-lang-OV")), Some(Flag::OV));
    assert_eq!(
        language_flag(&b("movie-item-showing-lang-OmU movie-item-showing-lang-OV")),
        Some(Flag::OmU)
    );
    assert_eq!(
        language_flag(&b("movie-item-showing-lang-OV movie-item-showing-lang-OmU")),
        Some(Flag::OmU)
    );
    assert_eq!(language_flag(&b("movie-item-showtime")), None);
    assert_eq!(language_flag(&b("")), None);
}

#[test]
fn end_time_adds_runtime_and_buffer() {
    let e = end_time(Time { hour: 18, minute: 0 }, 120);
    assert_eq!((e.hour, e.minute), (20, 15));
    let wrap = end_time(Time { hour: 23, minute: 50 }, 30);
    assert_eq!((wrap.hour, wrap.minute), (0, 35));
    let exact = end_time(Time { hour: 0, minute: 0 }, 1425);
    assert_eq!((exact.hour, exact.minute), (0, 0));
}

#[test]
fn make_showing_pairs_runtime_and_end() {
    let s: Showing = make_showing(b("A"), Some(90), Time { hour: 10, minute: 0 }, None);
    assert_eq!(s.runtime_minutes, Some(90));
    let end = s.end.expect("end should be known");
    assert_eq!((end.hour, end.minute), (11, 45));
    let unknown = make_showing(b("B"), None, Time { hour: 10, minute: 0 }, Some(Flag::OV));
    assert_eq!(unknown.runtime_minutes, None);
    assert_eq!(unknown.end, None);
    let zero = make_showing(b("C"), Some(0), Time { hour: 10, minute: 0 }, None);
    assert_eq!(zero.runtime_minutes, None);
    assert_eq!(zero.end, None);
}

#[test]
fn table_lookup_is_last_write_wins() {
    let mut t = RuntimeTable::new();
    assert_eq!(t.lookup(&b("Film A")), None);
    t.insert(b("Film A"), 90);
    t.insert(b("Film B"), 80);
    assert_eq!(t.lookup(&b("Film A")), Some(90));
    t.insert(b("Film A"), 100);
    assert_eq!(t.lookup(&b("Film A")), Some(100));
    assert_eq!(t.lookup(&b("Film B")), Some(80));
    assert_eq!(t.lookup(&b("film a")), None);
    // The empty title is a valid key.
    t.insert(b(""), 5);
    assert_eq!(t.lookup(&b("")), Some(5));
}

#[test]
fn schedule_groups_and_orders() {
    let d1 = Date { year: 2024, month: 5, day: 2 };
    let d2 = Date { year: 2024, month: 5, day: 1 };
    let items = vec![
        DatedShowing {
            date: d1,
            showing: make_showing(b("X"), None, Time { hour: 20, minute: 0 }, None),
        },
        DatedShowing {
            date: d2,
            showing: make_showing(b("Y"), None, Time { hour: 19, minute: 0 }, None),
        },
        DatedShowing {
            date: d1,
            showing: make_showing(b("Z"), None, Time { hour: 15, minute: 30 }, None),
        },
        DatedShowing {
            date: d1,
            showing: make_showing(b("W"), None, Time { hour: 20, minute: 0 }, None),
        },
    ];
    let sched = build_schedule(&items);
    assert_eq!(sched.days.len(), 2);
    assert_eq!(sched.days[0].date, d2);
    assert_eq!(sched.days[1].date, d1);
    let titles: Vec<Vec<u8>> = sched.days[1].shows.iter().map(|s| s.title.clone()).collect();
    // Z starts earliest; X and W tie and keep discovery order.
    assert_eq!(titles, vec![b("Z"), b("X"), b("W")]);
}

#[test]
fn keys_order_dates_and_times() {
    let a = date_key_of(Date { year: 2024, month: 5, day: 1 });
    let bkey = date_key_of(Date { year: 2024, month: 4, day: 30 });
    assert!(bkey < a);
    assert_eq!(minutes_of(Time { hour: 18, minute: 30 }), 18 * 60 + 30);
}
