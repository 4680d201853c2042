//! The duration argument of the command line: a time of day to count to, or
//! a length of time to count.

use crate::clock::{named_time_of_day, parse_time, time_until, Reading, SECONDS_IN_DAY};
use crate::duration::{duration_of, parse_duration, DurationError};
use vstd::prelude::*;

verus! {

/// A duration in seconds as a `usize`, where it fits.
pub open spec fn as_target(duration: Result<u64, DurationError>) -> Result<usize, DurationError> {
    match duration {
        Ok(seconds) => if seconds <= usize::MAX {
            Ok(seconds as usize)
        } else {
            Err(DurationError::TooLong)
        },
        Err(error) => Err(error),
    }
}

/// The number of seconds to count for an argument. An argument that names a
/// time of day stands for the seconds from now until the local clock next
/// shows that time. Any other argument is read as a duration, and is refused
/// if it is none.
pub fn target_seconds(argument: &str) -> (result: Result<usize, DurationError>)
    ensures
        named_time_of_day(argument@) is Some ==> (result matches Ok(seconds) && exists|now: Reading|
            now.second < SECONDS_IN_DAY && seconds == #[trigger] time_until(
                named_time_of_day(argument@)->0,
                now,
            )),
        named_time_of_day(argument@) is None ==> result == as_target(duration_of(argument@)),
{
    match parse_time(argument) {
        Ok(seconds) => Ok(seconds as usize),
        Err(_) => match parse_duration(argument) {
            Ok(seconds) => {
                if seconds <= usize::MAX as u64 {
                    Ok(seconds as usize)
                } else {
                    Err(DurationError::TooLong)
                }
            },
            Err(error) => Err(error),
        },
    }
}

} // verus!
