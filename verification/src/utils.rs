use crate::text::text_view;
use std::fmt::Write;
use vstd::prelude::*;

verus! {

/// Whether an optional reference points at the given id.
pub open spec fn spec_matches(x: Option<i32>, y: i32) -> bool {
    x == Some(y)
}

/// True exactly when `x` is present and equal to `y`.
pub fn matches(x: Option<i32>, y: i32) -> (r: bool)
    ensures
        r == spec_matches(x, y),
{
    match x {
        Some(v) => v == y,
        None => false,
    }
}

/// `std::time::SystemTime`, a moment on the system clock. Nothing is known
/// of a value of it.
#[verifier::external_type_specification]
#[verifier::external_body]
pub struct ExSystemTime(std::time::SystemTime);

/// `std::time::SystemTimeError`, the error of asking how long after a later
/// moment an earlier one lies.
#[verifier::external_type_specification]
#[verifier::external_body]
pub struct ExSystemTimeError(std::time::SystemTimeError);

/// `SystemTime::now` reads the clock. Nothing is claimed of what it gives.
pub assume_specification[ std::time::SystemTime::now ]() -> (r: std::time::SystemTime);

/// `SystemTime::duration_since` gives the time from `earlier` to `t`, or an
/// error where `earlier` is the later one. Nothing more is claimed.
pub assume_specification[ std::time::SystemTime::duration_since ](
    t: &std::time::SystemTime,
    earlier: std::time::SystemTime,
) -> (r: Result<std::time::Duration, std::time::SystemTimeError>);

/// `Duration::as_secs` gives the whole seconds of a duration. Nothing is
/// claimed of their number.
pub assume_specification[ std::time::Duration::as_secs ](d: &std::time::Duration) -> (r: u64);

/// `Duration::subsec_nanos` gives the part of a duration below one second,
/// in nanoseconds: less than one billion.
pub assume_specification[ std::time::Duration::subsec_nanos ](d: &std::time::Duration) -> (r: u32)
    ensures
        r < 1_000_000_000,
;

/// The start of the Unix epoch, `std::time::UNIX_EPOCH`.
#[verifier::external_body]
fn unix_epoch() -> (r: std::time::SystemTime) {
    std::time::UNIX_EPOCH
}

/// A count of seconds as a time of this library, where it is small enough
/// to be one.
pub open spec fn time_of_seconds(secs: u64) -> Option<i32> {
    if secs <= i32::MAX {
        Some(secs as i32)
    } else {
        None
    }
}

/// Seconds since the epoch as a time, or nothing where they do not fit.
pub fn seconds_to_time(secs: u64) -> (r: Option<i32>)
    ensures
        r == time_of_seconds(secs),
{
    if secs <= 2147483647 {
        Some(secs as i32)
    } else {
        None
    }
}

/// The present moment in whole seconds since the Unix epoch. There is none
/// where the clock stands before the epoch or the seconds do not fit.
pub fn get_time() -> (r: Option<i32>)
    ensures
        r matches Some(t) ==> 0 <= t,
{
    let now = std::time::SystemTime::now();
    match now.duration_since(unix_epoch()) {
        Ok(since_the_epoch) => seconds_to_time(since_the_epoch.as_secs()),
        Err(_) => None,
    }
}

/// The date and time, in UTC, of the moment `secs` seconds and `nanos`
/// nanoseconds after the Unix epoch, written as `2015-05-15 00:00:00 UTC`
/// with the fraction of the second behind the seconds where there is one;
/// nothing where the calendar does not reach the moment.
pub uninterp spec fn utc_text(secs: i64, nanos: u32) -> Option<Seq<char>>;

/// Makes the moment with `chrono::DateTime::<Utc>::from_timestamp` and
/// writes it out by its `Display` form; `None` where the former gives none
/// or the latter fails. The time zone of the machine plays no part. The
/// contract only names the outcome.
#[verifier::external_body]
fn utc_stamp(secs: i64, nanos: u32) -> (r: Option<String>)
    ensures
        text_view(r) == utc_text(secs, nanos),
{
    let moment = match chrono::DateTime::<chrono::Utc>::from_timestamp(secs, nanos) {
        Some(moment) => moment,
        None => return None,
    };
    let mut text = String::new();
    match write!(text, "{}", moment) {
        Ok(()) => Some(text),
        Err(_) => None,
    }
}

/// The timestamp of the moment `secs` seconds and `nanos` nanoseconds
/// after the epoch: its UTC text, where the seconds can be counted.
pub open spec fn stamp_of(secs: u64, nanos: u32) -> Option<Seq<char>> {
    if secs <= i64::MAX {
        utc_text(secs as i64, nanos)
    } else {
        None
    }
}

/// The timestamp of a moment given by its distance from the epoch.
pub fn date_of(secs: u64, nanos: u32) -> (r: Option<String>)
    ensures
        text_view(r) == stamp_of(secs, nanos),
{
    if secs <= 9223372036854775807 {
        utc_stamp(secs as i64, nanos)
    } else {
        None
    }
}

/// The present date and time in UTC as text. There is none where the clock
/// stands before the epoch or beyond the calendar. A text that is given is
/// the timestamp of some moment at or after the epoch.
pub fn get_date() -> (r: Option<String>)
    ensures
        r matches Some(s) ==> exists|secs: u64, nanos: u32|
            nanos < 1_000_000_000 && #[trigger] stamp_of(secs, nanos) == Some(s@),
{
    let now = std::time::SystemTime::now();
    match now.duration_since(unix_epoch()) {
        Ok(since_the_epoch) => {
            let secs = since_the_epoch.as_secs();
            let nanos = since_the_epoch.subsec_nanos();
            let text = date_of(secs, nanos);
            proof {
                if text is Some {
                    assert(stamp_of(secs, nanos) == Some(text.unwrap()@));
                }
            }
            text
        },
        Err(_) => None,
    }
}

} // verus!
