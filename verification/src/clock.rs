//! Wall-clock targets: how long it is until the clock next shows a given
//! time of day.

use chrono::{Local, NaiveTime, Timelike};
use vstd::prelude::*;

verus! {

pub const SECONDS_IN_DAY: u32 = 86_400;

/// The text is not a time of day in either of the accepted forms.
#[derive(Clone, Copy, Debug, PartialEq, Eq, Structural)]
pub struct NotATime;

/// The local time of day at some moment.
#[derive(Clone, Copy, Debug, PartialEq, Eq, Structural)]
pub struct Reading {
    /// Whole seconds since the last midnight.
    pub second: u32,
    /// Nanoseconds into the second that has begun.
    pub nanosecond: u32,
}

/// The time of day that chrono reads from `text` under the strftime pattern
/// `pattern`, in whole seconds since midnight, or `None` where chrono does
/// not accept the text.
pub uninterp spec fn parsed_time_of_day(text: Seq<char>, pattern: Seq<char>) -> Option<u32>;

/// Calls `chrono::NaiveTime::parse_from_str` and gives the time it returns
/// as `Timelike::num_seconds_from_midnight` counts it. Nothing is claimed
/// about which texts chrono accepts under a pattern; the result is only
/// given its name. That the count stays below the seconds of a day is what
/// chrono documents of every `NaiveTime`.
#[verifier::external_body]
fn time_of_day(text: &str, pattern: &str) -> (time: Option<u32>)
    ensures
        time == parsed_time_of_day(text@, pattern@),
        time matches Some(second) ==> second < SECONDS_IN_DAY,
{
    match NaiveTime::parse_from_str(text, pattern) {
        Ok(time) => Some(time.num_seconds_from_midnight()),
        Err(_) => None,
    }
}

/// Calls `chrono::Local::now` and gives the time of day of its
/// `naive_local()`: `num_seconds_from_midnight` and `nanosecond`. The first
/// stays below the seconds of a day, as chrono documents. Two calls may
/// differ. Like chrono, this panics if the system clock is set before 1970.
#[verifier::external_body]
fn read_clock() -> (now: Reading)
    ensures
        now.second < SECONDS_IN_DAY,
{
    let now = Local::now().naive_local().time();
    Reading { second: now.num_seconds_from_midnight(), nanosecond: now.nanosecond() }
}

/// The time of day that `text` names: read as a twelve-hour time with
/// `am` or `pm` if it is one, else as a twenty-four-hour time.
pub open spec fn named_time_of_day(text: Seq<char>) -> Option<u32> {
    match parsed_time_of_day(text, "%I:%M %p"@) {
        Some(second) => Some(second),
        None => parsed_time_of_day(text, "%H:%M"@),
    }
}

/// The whole seconds from `now` until the clock next shows `target` seconds
/// past midnight. A second that has begun counts as gone, so half a second
/// before the target there are zero whole seconds to go; at the target
/// itself, to the nanosecond, there are zero as well, and right after it a
/// second less than a day.
pub open spec fn time_until(target: u32, now: Reading) -> int {
    let gone = now.second + if now.nanosecond > 0 {
        1int
    } else {
        0int
    };
    (target - gone) % (SECONDS_IN_DAY as int)
}

/// The whole seconds from `now` until the clock next shows `target` seconds
/// past midnight.
pub fn seconds_until(target: u32, now: Reading) -> (seconds: i64)
    requires
        target < SECONDS_IN_DAY,
        now.second < SECONDS_IN_DAY,
    ensures
        seconds == time_until(target, now),
        0 <= seconds < SECONDS_IN_DAY,
{
    let gone: i64 = if now.nanosecond > 0 {
        now.second as i64 + 1
    } else {
        now.second as i64
    };
    let target = target as i64;
    if target >= gone {
        target - gone
    } else {
        target + SECONDS_IN_DAY as i64 - gone
    }
}

/// Reads a time of day such as `1:30 pm` or `13:30` and gives the whole
/// seconds from now until the local clock next shows it.
pub fn parse_time(date: &str) -> (result: Result<i64, NotATime>)
    ensures
        result is Ok <==> named_time_of_day(date@) is Some,
        result matches Ok(seconds) ==> exists|now: Reading|
            now.second < SECONDS_IN_DAY && seconds == #[trigger] time_until(
                named_time_of_day(date@)->0,
                now,
            ),
        result matches Ok(seconds) ==> 0 <= seconds < SECONDS_IN_DAY,
{
    let target = match time_of_day(date, "%I:%M %p") {
        Some(second) => second,
        None => match time_of_day(date, "%H:%M") {
            Some(second) => second,
            None => {
                return Err(NotATime);
            },
        },
    };
    let now = read_clock();
    Ok(seconds_until(target, now))
}

} // verus!
