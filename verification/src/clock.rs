//! The time, and how it is written.

use vstd::prelude::*;

use crate::pieces::option_text;

verus! {

#[verifier::external_type_specification]
#[verifier::external_body]
pub struct ExSystemTime(std::time::SystemTime);

/// `std::time::SystemTime::now`: what the clock of the host shows. It may show any time, so nothing
/// is stated of the result.
#[verifier::external_body]
fn system_time() -> (now: std::time::SystemTime) {
    std::time::SystemTime::now()
}

/// `std::time::SystemTime::duration_since` with the beginning of 1970: the whole seconds since
/// then, and nothing for an earlier time. A time is opaque here, so nothing is stated of the result.
#[verifier::external_body]
fn seconds_since_epoch(time: std::time::SystemTime) -> (seconds: Option<u64>) {
    time.duration_since(std::time::UNIX_EPOCH).ok().map(|duration| duration.as_secs())
}

/// The seconds as a signed number, and zero where there are none. A number that is too large for 63
/// bits turns negative.
pub open spec fn signed_seconds(seconds: Option<u64>) -> int {
    match seconds {
        Some(known) => if known <= i64::MAX {
            known as int
        } else {
            known - 0x1_0000_0000_0000_0000
        },
        None => 0,
    }
}

pub fn timestamp_of(seconds: Option<u64>) -> (signed: i64)
    ensures
        signed == signed_seconds(seconds),
{
    match seconds {
        Some(known) => {
            if known <= 0x7FFF_FFFF_FFFF_FFFF {
                known as i64
            } else {
                -((u64::MAX - known) as i64) - 1
            }
        },
        None => 0,
    }
}

/// The seconds since the beginning of 1970, none for an earlier time. The clock may show any time.
pub(crate) fn unix_timestamp_now() -> (seconds: i64)
    ensures
        exists|shown: Option<u64>| seconds == #[trigger] signed_seconds(shown),
{
    let shown = seconds_since_epoch(system_time());
    timestamp_of(shown)
}

/// The time that is `seconds` after the beginning of 1970, written as RFC 3339 has it.
pub uninterp spec fn utc_time(seconds: int) -> Option<Seq<char>>;

/// `chrono::DateTime::from_timestamp` and, on its result, `to_rfc3339_opts` with whole seconds and
/// a `Z` for UTC: nothing where the time is out of chrono's range, which the beginning of 1970 is
/// not. The outcome depends on the number of seconds alone; the calendar is not stated.
#[verifier::external_body]
fn utc_text(seconds: i64) -> (text: Option<String>)
    ensures
        option_text(text) == utc_time(seconds as int),
        seconds == 0 ==> text is Some,
{
    chrono::DateTime::from_timestamp(seconds, 0).map(
        |time| time.to_rfc3339_opts(chrono::SecondsFormat::Secs, true),
    )
}

/// The time in text form; the beginning of 1970 for a time that cannot be written.
pub open spec fn timestamp(seconds: int) -> Seq<char> {
    match utc_time(seconds) {
        Some(text) => text,
        None => utc_time(0)->0,
    }
}

pub fn timestamp_text(seconds: i64) -> (text: String)
    ensures
        text@ == timestamp(seconds as int),
{
    match utc_text(seconds) {
        Some(text) => text,
        None => utc_text(0).unwrap(),
    }
}

/// The sum of two numbers, or the nearest number that 64 bits hold.
pub open spec fn clamped(sum: int) -> i64 {
    if sum > i64::MAX {
        i64::MAX
    } else if sum < i64::MIN {
        i64::MIN
    } else {
        sum as i64
    }
}

/// A time that is `seconds` later.
pub fn later(start: i64, seconds: i64) -> (end: i64)
    ensures
        end == clamped(start + seconds),
{
    if seconds > 0 && start > i64::MAX - seconds {
        i64::MAX
    } else if seconds < 0 && start < i64::MIN - seconds {
        i64::MIN
    } else {
        start + seconds
    }
}

/// A time that is out of range stays at the end of the range.
pub proof fn times_stay_in_range(start: i64, seconds: i64)
    ensures
        i64::MIN <= start + seconds <= i64::MAX ==> clamped(start + seconds) == start + seconds,
        start + seconds > i64::MAX ==> clamped(start + seconds) == i64::MAX,
        start + seconds < i64::MIN ==> clamped(start + seconds) == i64::MIN,
        signed_seconds(None) == 0,
        seconds >= 0 ==> signed_seconds(Some(seconds as u64)) == seconds,
{
}

} // verus!
