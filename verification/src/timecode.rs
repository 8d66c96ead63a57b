//! Parsing and formatting of `HH:MM:SS` start-time offsets.
//!
//! A request carries at most one token; the command-line client may pass
//! several, whose durations add up. The sum wraps around one day, matching
//! the clock-of-day arithmetic the service has always used.
use vstd::prelude::*;
use crate::ErrorKind;
use crate::strutil::str_views;

verus! {

/// Seconds in one day; sums of start times wrap at this bound.
pub const SECONDS_PER_DAY: u32 = 86400;

pub open spec fn is_digit(c: char) -> bool {
    '0' <= c && c <= '9'
}

pub open spec fn digit_val(c: char) -> int {
    c as int - '0' as int
}

pub open spec fn hms_hours(s: Seq<char>) -> int {
    digit_val(s[0]) * 10 + digit_val(s[1])
}

pub open spec fn hms_minutes(s: Seq<char>) -> int {
    digit_val(s[3]) * 10 + digit_val(s[4])
}

pub open spec fn hms_seconds(s: Seq<char>) -> int {
    digit_val(s[6]) * 10 + digit_val(s[7])
}

/// A well-formed start-time token: exactly `HH:MM:SS`, two digits per
/// field, hours below 24, minutes and seconds below 60.
pub open spec fn valid_hms(s: Seq<char>) -> bool {
    &&& s.len() == 8
    &&& s[2] == ':'
    &&& s[5] == ':'
    &&& is_digit(s[0]) && is_digit(s[1])
    &&& is_digit(s[3]) && is_digit(s[4])
    &&& is_digit(s[6]) && is_digit(s[7])
    &&& hms_hours(s) < 24
    &&& hms_minutes(s) < 60
    &&& hms_seconds(s) < 60
}

/// The offset a well-formed token denotes, in seconds from the start of
/// the day.
pub open spec fn hms_value(s: Seq<char>) -> int {
    hms_hours(s) * 3600 + hms_minutes(s) * 60 + hms_seconds(s)
}

/// Parse a start time like `00:11:21` to a number of seconds.
pub fn start_time_to_seconds(start_time: &str) -> (r: Result<u32, ErrorKind>)
    ensures
        r is Ok <==> valid_hms(start_time@),
        r matches Ok(v) ==> v == hms_value(start_time@) && v < SECONDS_PER_DAY,
        r matches Err(e) ==> e == ErrorKind::InvalidParameter,
{
    let n = start_time.unicode_len();
    if n != 8 {
        return Err(ErrorKind::InvalidParameter);
    }
    let c0 = start_time.get_char(0);
    let c1 = start_time.get_char(1);
    let c2 = start_time.get_char(2);
    let c3 = start_time.get_char(3);
    let c4 = start_time.get_char(4);
    let c5 = start_time.get_char(5);
    let c6 = start_time.get_char(6);
    let c7 = start_time.get_char(7);
    if c2 != ':' || c5 != ':' {
        return Err(ErrorKind::InvalidParameter);
    }
    if !(c0 >= '0' && c0 <= '9' && c1 >= '0' && c1 <= '9' && c3 >= '0' && c3 <= '9' && c4 >= '0'
        && c4 <= '9' && c6 >= '0' && c6 <= '9' && c7 >= '0' && c7 <= '9') {
        return Err(ErrorKind::InvalidParameter);
    }
    let hh: u32 = (c0 as u32 - 48) * 10 + (c1 as u32 - 48);
    let mm: u32 = (c3 as u32 - 48) * 10 + (c4 as u32 - 48);
    let ss: u32 = (c6 as u32 - 48) * 10 + (c7 as u32 - 48);
    if hh >= 24 || mm >= 60 || ss >= 60 {
        return Err(ErrorKind::InvalidParameter);
    }
    Ok(hh * 3600 + mm * 60 + ss)
}

/// The summed value of a sequence of start-time tokens, before wrapping.
pub open spec fn hms_sum(ts: Seq<Seq<char>>) -> int
    decreases ts.len(),
{
    if ts.len() == 0 {
        0
    } else {
        hms_sum(ts.drop_last()) + hms_value(ts.last())
    }
}

/// Sum several start-time tokens, wrapping around one day. Every token
/// must be well-formed for the sum to exist.
pub fn sum_start_times(times: &Vec<String>) -> (r: Result<u32, ErrorKind>)
    ensures
        r is Ok <==> (forall|i: int| 0 <= i < times@.len() ==> valid_hms(times@[i]@)),
        r matches Ok(v) ==> v == hms_sum(str_views(times@)) % (SECONDS_PER_DAY as int),
        r matches Err(e) ==> e == ErrorKind::InvalidParameter,
{
    let mut acc: u32 = 0;
    let mut i: usize = 0;
    while i < times.len()
        invariant
            i <= times@.len(),
            acc < SECONDS_PER_DAY,
            acc == hms_sum(str_views(times@.take(i as int))) % (SECONDS_PER_DAY as int),
            forall|j: int| 0 <= j < i ==> valid_hms(times@[j]@),
        decreases times@.len() - i,
    {
        let v = match start_time_to_seconds(times[i].as_str()) {
            Ok(v) => v,
            Err(e) => {
                return Err(e);
            },
        };
        proof {
            let prefix = str_views(times@.take(i as int));
            let next = str_views(times@.take(i + 1 as int));
            assert(next.drop_last() =~= prefix);
            assert(next.last() == times@[i as int]@);
            vstd::arithmetic::div_mod::lemma_add_mod_noop_right(
                hms_value(times@[i as int]@),
                hms_sum(prefix),
                SECONDS_PER_DAY as int,
            );
        }
        acc = (acc + v) % SECONDS_PER_DAY;
        i = i + 1;
    }
    proof {
        assert(times@.take(times@.len() as int) =~= times@);
    }
    Ok(acc)
}

fn digit_to_char(d: u32) -> (r: char)
    requires
        d < 10,
    ensures
        is_digit(r),
        digit_val(r) == d,
{
    if d == 0 {
        '0'
    } else if d == 1 {
        '1'
    } else if d == 2 {
        '2'
    } else if d == 3 {
        '3'
    } else if d == 4 {
        '4'
    } else if d == 5 {
        '5'
    } else if d == 6 {
        '6'
    } else if d == 7 {
        '7'
    } else if d == 8 {
        '8'
    } else {
        '9'
    }
}

/// Format a second count below one day back into an `HH:MM:SS` token.
/// Formatting then parsing gives back the same count.
pub fn seconds_to_start_time(secs: u32) -> (r: String)
    requires
        secs < SECONDS_PER_DAY,
    ensures
        valid_hms(r@),
        hms_value(r@) == secs,
{
    let hh: u32 = secs / 3600;
    let rem: u32 = secs % 3600;
    let mm: u32 = rem / 60;
    let ss: u32 = rem % 60;
    proof {
        vstd::arithmetic::div_mod::lemma_fundamental_div_mod(secs as int, 3600);
        vstd::arithmetic::div_mod::lemma_fundamental_div_mod(rem as int, 60);
        vstd::arithmetic::div_mod::lemma_fundamental_div_mod(hh as int, 10);
        vstd::arithmetic::div_mod::lemma_fundamental_div_mod(mm as int, 10);
        vstd::arithmetic::div_mod::lemma_fundamental_div_mod(ss as int, 10);
    }
    let mut out: Vec<char> = Vec::new();
    out.push(digit_to_char(hh / 10));
    out.push(digit_to_char(hh % 10));
    out.push(':');
    out.push(digit_to_char(mm / 10));
    out.push(digit_to_char(mm % 10));
    out.push(':');
    out.push(digit_to_char(ss / 10));
    out.push(digit_to_char(ss % 10));
    crate::strutil::chars_to_string(&out)
}

} // verus!
