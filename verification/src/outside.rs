//! The calls into the `regex` and `chrono` crates. Their contracts are
//! taken on trust from those crates' documentation; nothing here is proved.
//! Of what depends on the machine's clock or time zone, the contracts claim
//! only what holds whatever the clock and the zone are.

use vstd::prelude::*;

verus! {

/// Whether `regex::Regex::new` accepts `pattern` as a regular expression.
pub uninterp spec fn regex_compiles(pattern: Seq<char>) -> bool;

/// Whether `Regex::is_match` finds a match of the regular expression
/// `pattern` anywhere in `text`. It is meant only where the pattern
/// compiles.
pub uninterp spec fn regex_matches(pattern: Seq<char>, text: Seq<char>) -> bool;

/// What the `regex` crate says of a pattern and a text: nothing where the
/// pattern does not compile, otherwise whether the text holds a match.
pub open spec fn regex_verdict(pattern: Seq<char>, text: Seq<char>) -> Option<bool> {
    if regex_compiles(pattern) {
        Some(regex_matches(pattern, text))
    } else {
        None
    }
}

/// The first day, counted from 0001-01-01 as day 1, that `chrono` can hold:
/// the first of January of the year -262143.
pub const FIRST_DAY: i32 = -95_746_129;

/// The last day, counted from 0001-01-01 as day 1, that `chrono` can hold:
/// the last of December of the year 262142.
pub const LAST_DAY: i32 = 95_745_399;

/// Day number `day` is that of a date that `chrono` can hold.
pub open spec fn is_date(day: int) -> bool {
    FIRST_DAY <= day <= LAST_DAY
}

/// The seconds from midnight of 1970-01-01 to the time `secs` seconds after
/// midnight of day `day`, both read off one clock. 1970-01-01 is day 719163.
pub open spec fn wall_seconds(day: int, secs: int) -> int {
    (day - 719_163) * 86_400 + secs
}

/// `instant`, in seconds since 1970-01-01 00:00:00 UTC, can be the moment at
/// which a clock in some time zone shows the time `secs` seconds after
/// midnight of day `day`: a zone's clock is less than a day ahead of UTC or
/// behind it.
pub open spec fn may_show(day: int, secs: int, instant: int) -> bool {
    wall_seconds(day, secs) - 86_400 < instant < wall_seconds(day, secs) + 86_400
}

/// The day of the week of day number `day`, with Sunday as 0 and Saturday
/// as 6. Day 1, the first of January of the year 1, is a Monday.
pub open spec fn weekday_of(day: int) -> int {
    day % 7
}

/// Compiles `pattern` with `regex::Regex::new` and searches `text` with
/// `Regex::is_match`; `None` where the pattern does not compile. The result
/// is, by definition, the crate's verdict on the two strings: the contract
/// claims only that it depends on nothing else.
#[verifier::external_body]
pub(crate) fn rule_matches(pattern: &str, text: &str) -> (r: Option<bool>)
    ensures
        r == (if regex_compiles(pattern@) {
            Some(regex_matches(pattern@, text@))
        } else {
            None
        }),
{
    match regex::Regex::new(pattern) {
        Ok(re) => Some(re.is_match(text)),
        Err(_) => None,
    }
}

/// Builds the date with `chrono::NaiveDate::from_num_days_from_ce_opt` and
/// asks for `weekday().num_days_from_sunday()`. The contract claims that a
/// date exists exactly for the days from `FIRST_DAY` to `LAST_DAY`, and that
/// the weekday number is the day number modulo 7.
#[verifier::external_body]
pub(crate) fn weekday_from_sunday(day: i32) -> (r: Option<u32>)
    ensures
        r == (if FIRST_DAY <= day <= LAST_DAY {
            Some(weekday_of(day as int) as u32)
        } else {
            None
        }),
{
    match chrono::NaiveDate::from_num_days_from_ce_opt(day) {
        Some(date) => Some(chrono::Datelike::weekday(&date).num_days_from_sunday()),
        None => None,
    }
}

/// The instant, in seconds since 1970-01-01 00:00:00 UTC, at which the
/// machine's time zone shows `hour:minute:second` on day `day`. The date
/// comes from `chrono::NaiveDate::from_num_days_from_ce_opt`, the time is
/// added by `and_hms_opt`, `chrono::Local` places both by
/// `from_local_datetime(..).single()`, and `timestamp()` counts the seconds.
/// `None` where chrono has no such date or time, or where the zone shows the
/// time twice or never. Which instant comes back depends on the machine's
/// time zone. The contract claims what holds in every zone: an instant comes
/// back only for a day that is a date and a time of day that exists, and it
/// differs from the time read as UTC by the zone's offset, which chrono
/// keeps under a day (`FixedOffset::east_opt`).
#[verifier::external_body]
pub(crate) fn local_instant(day: i32, hour: u32, minute: u32, second: u32) -> (r: Option<i64>)
    ensures
        r matches Some(t) ==> {
            &&& is_date(day as int)
            &&& hour < 24 && minute < 60 && second < 60
            &&& may_show(day as int, hour * 3600 + minute * 60 + second, t as int)
        },
{
    let date = match chrono::NaiveDate::from_num_days_from_ce_opt(day) {
        Some(date) => date,
        None => return None,
    };
    let naive = match date.and_hms_opt(hour, minute, second) {
        Some(naive) => naive,
        None => return None,
    };
    match chrono::TimeZone::from_local_datetime(&chrono::Local, &naive).single() {
        Some(t) => Some(t.timestamp()),
        None => None,
    }
}

/// The present moment in the machine's time zone, from `chrono::Local::now`:
/// the day number, the seconds since midnight and the nanoseconds within the
/// second. It depends on the clock; the contract claims only that the day
/// is that of a date, as the day number of every `NaiveDate` is. The call
/// does not return, but panics, on a machine whose clock reads a time before
/// 1970 or whose time zone data puts the zone a day or more from UTC; no
/// argument decides that, so no caller can rule it out.
#[verifier::external_body]
pub(crate) fn local_now() -> (r: (i32, u32, u32))
    ensures
        is_date(r.0 as int),
{
    let now = chrono::Local::now();
    let time = now.time();
    (
        chrono::Datelike::num_days_from_ce(&now.date_naive()),
        chrono::Timelike::num_seconds_from_midnight(&time),
        chrono::Timelike::nanosecond(&time),
    )
}

} // verus!
