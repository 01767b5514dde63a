//! The timestamp calculator: derives absolute start/end epoch markers
//! from elapsed and total playback time under the configured mode, so
//! the display layer can run a live clock without polling.

use vstd::prelude::*;

use crate::config::TimestampMode;
use crate::player::PlayerStatus;

verus! {

/// Absolute start/end markers for a presence update, in epoch seconds.
#[derive(Clone, Copy, PartialEq, Eq, Debug)]
pub struct Timestamps {
    pub start: Option<u64>,
    pub end: Option<u64>,
}

/// What the timestamp calculator returns: nothing without an elapsed
/// time, nothing when the mode is off or needs a missing duration;
/// otherwise the start marker `now - elapsed` and/or the end marker
/// `start + duration` that the mode asks for.
pub open spec fn timestamp_spec(status: PlayerStatus, mode: TimestampMode, now: u64) -> Timestamps
    recommends
        timestamp_inputs_ok(status, mode, now),
{
    match status.elapsed {
        None => Timestamps { start: None, end: None },
        Some(e) => match mode {
            TimestampMode::Off => Timestamps { start: None, end: None },
            TimestampMode::Elapsed => Timestamps { start: Some((now - e) as u64), end: None },
            TimestampMode::Left => match status.duration {
                None => Timestamps { start: None, end: None },
                Some(d) => Timestamps { start: None, end: Some((now + (d - e)) as u64) },
            },
            TimestampMode::Both => match status.duration {
                None => Timestamps { start: None, end: None },
                Some(d) => Timestamps {
                    start: Some((now - e) as u64),
                    end: Some((now - e + d) as u64),
                },
            },
        },
    }
}

/// The machine-limit conditions under which the markers are defined: the
/// elapsed time does not exceed the clock, and when a mode subtracts the
/// elapsed time from the duration, the elapsed time does not exceed the
/// duration and the end marker fits in an epoch-seconds word.
pub open spec fn timestamp_inputs_ok(status: PlayerStatus, mode: TimestampMode, now: u64) -> bool {
    &&& (status.elapsed is Some ==> status.elapsed.unwrap() <= now)
    &&& ((mode == TimestampMode::Left || mode == TimestampMode::Both) && status.elapsed is Some
        && status.duration is Some ==> status.elapsed.unwrap() <= status.duration.unwrap() && now
        - status.elapsed.unwrap() + status.duration.unwrap() <= u64::MAX)
}

/// Computes the activity timestamps from the current song's elapsed and
/// total time, per the configured mode, against the clock reading `now`.
pub fn get_timestamp(status: &PlayerStatus, mode: TimestampMode, now: u64) -> (r: Timestamps)
    requires
        timestamp_inputs_ok(*status, mode, now),
    ensures
        r == timestamp_spec(*status, mode, now),
{
    let elapsed = match status.elapsed {
        Some(e) => e,
        None => {
            return Timestamps { start: None, end: None };
        },
    };
    match mode {
        TimestampMode::Left => match status.duration {
            Some(d) => {
                let remaining = d - elapsed;
                Timestamps { start: None, end: Some(now + remaining) }
            },
            None => Timestamps { start: None, end: None },
        },
        TimestampMode::Off => Timestamps { start: None, end: None },
        TimestampMode::Elapsed => Timestamps { start: Some(now - elapsed), end: None },
        TimestampMode::Both => match status.duration {
            Some(d) => {
                let start_timestamp = now - elapsed;
                Timestamps { start: Some(start_timestamp), end: Some(start_timestamp + d) }
            },
            None => Timestamps { start: None, end: None },
        },
    }
}

} // verus!
