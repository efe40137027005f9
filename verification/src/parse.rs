//! Parsers for the three small fixed grammars the schedule needs: a
//! 24-hour clock time `HH:MM`, a calendar date `YYYY-MM-DD`, and a runtime
//! label, the first occurrence of the word `Dauer:` followed by optional
//! whitespace and a run of digits.

use crate::model::{days_in_month, Date, Time};
use crate::text::{bytes_of, is_digit, is_digit_byte, is_space, is_space_byte, match_at, match_prefix_at};
use vstd::prelude::*;
use vstd::string::StringSliceAdditionalSpecFns;

verus! {

/// The time a text denotes, when it is exactly two digits, a colon and two
/// digits, with the hour below 24 and the minute below 60.
pub open spec fn spec_parse_time(s: Seq<u8>) -> Option<Time> {
    if s.len() == 5 && is_digit(s[0]) && is_digit(s[1]) && s[2] == 58 && is_digit(s[3]) && is_digit(
        s[4],
    ) {
        let h = (s[0] - 48) * 10 + (s[1] - 48);
        let m = (s[3] - 48) * 10 + (s[4] - 48);
        if h < 24 && m < 60 {
            Some(Time { hour: h as u8, minute: m as u8 })
        } else {
            None
        }
    } else {
        None
    }
}

/// The date a text denotes, when it is exactly four digits, a hyphen, two
/// digits, a hyphen and two digits, and names a valid calendar date.
pub open spec fn spec_parse_date(s: Seq<u8>) -> Option<Date> {
    if s.len() == 10 && is_digit(s[0]) && is_digit(s[1]) && is_digit(s[2]) && is_digit(s[3]) && s[4]
        == 45 && is_digit(s[5]) && is_digit(s[6]) && s[7] == 45 && is_digit(s[8]) && is_digit(
        s[9],
    ) {
        let y = (s[0] - 48) * 1000 + (s[1] - 48) * 100 + (s[2] - 48) * 10 + (s[3] - 48);
        let m = (s[5] - 48) * 10 + (s[6] - 48);
        let d = (s[8] - 48) * 10 + (s[9] - 48);
        if 1 <= m && m <= 12 && 1 <= d && d <= days_in_month(y, m) {
            Some(Date { year: y as u16, month: m as u8, day: d as u8 })
        } else {
            None
        }
    } else {
        None
    }
}

/// Parse a clock time written `HH:MM`.
pub fn parse_time(s: &Vec<u8>) -> (r: Option<Time>)
    ensures
        r == spec_parse_time(s@),
        r matches Some(t) ==> t.wf(),
{
    if s.len() != 5 {
        return None;
    }
    if !(is_digit_byte(s[0]) && is_digit_byte(s[1]) && s[2] == 58 && is_digit_byte(s[3])
        && is_digit_byte(s[4])) {
        return None;
    }
    let h: u8 = (s[0] - 48) * 10 + (s[1] - 48);
    let m: u8 = (s[3] - 48) * 10 + (s[4] - 48);
    if h < 24 && m < 60 {
        Some(Time { hour: h, minute: m })
    } else {
        None
    }
}

/// The number of days of a month of the Gregorian calendar.
pub fn days_in_month_of(year: u16, month: u8) -> (d: u8)
    requires
        1 <= month <= 12,
    ensures
        d as int == days_in_month(year as int, month as int),
{
    if month == 2 {
        if year % 4 == 0 && (year % 100 != 0 || year % 400 == 0) {
            29
        } else {
            28
        }
    } else if month == 4 || month == 6 || month == 9 || month == 11 {
        30
    } else {
        31
    }
}

/// Parse a calendar date written `YYYY-MM-DD`.
pub fn parse_date(s: &Vec<u8>) -> (r: Option<Date>)
    ensures
        r == spec_parse_date(s@),
        r matches Some(d) ==> d.wf(),
{
    if s.len() != 10 {
        return None;
    }
    if !(is_digit_byte(s[0]) && is_digit_byte(s[1]) && is_digit_byte(s[2]) && is_digit_byte(s[3])
        && s[4] == 45 && is_digit_byte(s[5]) && is_digit_byte(s[6]) && s[7] == 45 && is_digit_byte(
        s[8],
    ) && is_digit_byte(s[9])) {
        return None;
    }
    let y: u16 = (s[0] - 48) as u16 * 1000 + (s[1] - 48) as u16 * 100 + (s[2] - 48) as u16 * 10 + (
    s[3] - 48) as u16;
    let m: u8 = (s[5] - 48) * 10 + (s[6] - 48);
    let d: u8 = (s[8] - 48) * 10 + (s[9] - 48);
    if 1 <= m && m <= 12 && 1 <= d && d <= days_in_month_of(y, m) {
        Some(Date { year: y, month: m, day: d })
    } else {
        None
    }
}

/// The fixed label that announces a runtime in minutes.
pub open spec fn dauer_marker() -> Seq<u8> {
    "Dauer:".spec_bytes()
}

/// The first index at or after `i` that does not hold a whitespace byte.
pub open spec fn ws_end(s: Seq<u8>, i: int) -> int
    decreases s.len() - i when 0 <= i <= s.len()
{
    if i < s.len() && is_space(s[i]) {
        ws_end(s, i + 1)
    } else {
        i
    }
}

/// The first index at or after `i` that does not hold a digit byte.
pub open spec fn digit_end(s: Seq<u8>, i: int) -> int
    decreases s.len() - i when 0 <= i <= s.len()
{
    if i < s.len() && is_digit(s[i]) {
        digit_end(s, i + 1)
    } else {
        i
    }
}

/// The value of a run of digit bytes read as a decimal number.
pub open spec fn digits_value(s: Seq<u8>) -> int
    decreases s.len(),
{
    if s.len() == 0 {
        0
    } else {
        digits_value(s.drop_last()) * 10 + (s[s.len() - 1] - 48)
    }
}

/// The runtime label matches at index `i`: the marker occurs there,
/// followed by optional whitespace and at least one digit.
pub open spec fn label_match_at(s: Seq<u8>, i: int) -> bool {
    &&& match_at(s, dauer_marker(), i)
    &&& {
        let j = ws_end(s, i + dauer_marker().len());
        j < s.len() && is_digit(s[j])
    }
}

/// The runtime announced by the leftmost occurrence of the label in `s`,
/// searched from index `i` on: the value of the digit run after the label,
/// or nothing when no label occurs or the value exceeds the machine range.
pub open spec fn spec_find_runtime_from(s: Seq<u8>, i: int) -> Option<u64>
    decreases s.len() - i when 0 <= i <= s.len()
{
    if i >= s.len() {
        None
    } else if label_match_at(s, i) {
        let j = ws_end(s, i + dauer_marker().len());
        let k = digit_end(s, j);
        let v = digits_value(s.subrange(j, k));
        if v <= u64::MAX {
            Some(v as u64)
        } else {
            None
        }
    } else {
        spec_find_runtime_from(s, i + 1)
    }
}

/// The runtime announced by the leftmost runtime label in the text.
pub open spec fn spec_find_runtime(s: Seq<u8>) -> Option<u64> {
    spec_find_runtime_from(s, 0)
}

/// Find the leftmost runtime label in a text and read its minutes.
pub fn find_runtime(text: &Vec<u8>) -> (r: Option<u64>)
    ensures
        r == spec_find_runtime(text@),
{
    let marker = bytes_of("Dauer:");
    let n: usize = text.len();
    let mlen: usize = marker.len();
    let mut i: usize = 0;
    while i < n
        invariant
            0 <= i <= n,
            n == text@.len(),
            mlen == dauer_marker().len(),
            marker@ == dauer_marker(),
            spec_find_runtime(text@) == spec_find_runtime_from(text@, i as int),
        decreases n - i,
    {
        let matched: bool = if mlen <= n - i {
            match_prefix_at(text, &marker, i)
        } else {
            false
        };
        if matched {
            let mut j: usize = i + mlen;
            while j < n && is_space_byte(text[j])
                invariant
                    i + mlen <= j <= n,
                    n == text@.len(),
                    ws_end(text@, i + mlen) == ws_end(text@, j as int),
                decreases n - j,
            {
                j = j + 1;
            }
            proof {
                assert(ws_end(text@, j as int) == j as int);
            }
            if j < n && is_digit_byte(text[j]) {
                let mut k: usize = j;
                let mut acc: u64 = 0;
                let mut overflow: bool = false;
                while k < n && is_digit_byte(text[k])
                    invariant
                        j <= k <= n,
                        n == text@.len(),
                        digit_end(text@, j as int) == digit_end(text@, k as int),
                        !overflow ==> acc == digits_value(text@.subrange(j as int, k as int)),
                        overflow ==> digits_value(text@.subrange(j as int, k as int))
                            > u64::MAX,
                    decreases n - k,
                {
                    let d: u8 = text[k] - 48;
                    proof {
                        assert(text@.subrange(j as int, k + 1).drop_last() =~= text@.subrange(
                            j as int,
                            k as int,
                        ));
                        assert(text@.subrange(j as int, k + 1)[k - j] == text@[k as int]);
                    }
                    if !overflow {
                        let next: Option<u64> = match acc.checked_mul(10) {
                            Some(t) => t.checked_add(d as u64),
                            None => None,
                        };
                        match next {
                            Some(v) => {
                                acc = v;
                            },
                            None => {
                                overflow = true;
                            },
                        }
                    }
                    k = k + 1;
                }
                proof {
                    assert(digit_end(text@, k as int) == k as int);
                    assert(label_match_at(text@, i as int));
                }
                if overflow {
                    return None;
                } else {
                    return Some(acc);
                }
            } else {
                proof {
                    assert(!label_match_at(text@, i as int));
                }
            }
        } else {
            proof {
                assert(!match_at(text@, dauer_marker(), i as int));
            }
        }
        i = i + 1;
    }
    None
}

} // verus!
