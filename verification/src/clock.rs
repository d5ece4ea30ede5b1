//! The system clock.

use vstd::prelude::*;

verus! {

/// A point in time as the system clock gives it.
#[verifier::external_type_specification]
#[verifier::external_body]
pub struct ExSystemTime(std::time::SystemTime);

/// Says that one point in time is before another.
#[verifier::external_type_specification]
#[verifier::external_body]
pub struct ExSystemTimeError(std::time::SystemTimeError);

/// `std::time::SystemTime::now` reads the system clock. Nothing is claimed of
/// what it shows.
pub assume_specification[ std::time::SystemTime::now ]() -> std::time::SystemTime;

/// A span in milliseconds: its whole seconds are counted in 64 bits.
pub open spec fn is_span(ms: u128) -> bool {
    ms as int / 1000 <= u64::MAX
}

/// What reading the clock can give: a span since the Unix epoch, or nothing if
/// the clock is before it.
pub open spec fn is_reading(reading: Option<u128>) -> bool {
    reading matches Some(ms) ==> is_span(ms)
}

/// `std::time::Duration::as_millis` gives the whole milliseconds of a span. As
/// `Duration` counts whole seconds in a `u64`, there are no more whole seconds in
/// the result. Which span a `Duration` holds is not said.
pub assume_specification[ std::time::Duration::as_millis ](span: &std::time::Duration) -> (r: u128)
    ensures
        is_span(r),
;

/// `std::time::SystemTime::duration_since`, from the Unix epoch. It fails for a
/// time before the epoch; nothing is claimed of the span otherwise.
#[verifier::external_body]
fn since_epoch(time: std::time::SystemTime) -> Result<
    std::time::Duration,
    std::time::SystemTimeError,
> {
    time.duration_since(std::time::UNIX_EPOCH)
}

/// The whole milliseconds of the time since the Unix epoch, or nothing if the time
/// was found to be before it.
pub fn whole_millis(
    since: Result<std::time::Duration, std::time::SystemTimeError>,
) -> (r: Option<u128>)
    ensures
        r is Some <==> since is Ok,
        is_reading(r),
{
    match since {
        Ok(span) => Some(span.as_millis()),
        Err(_) => None,
    }
}

/// Whole milliseconds since the Unix epoch, or nothing if the system clock is
/// before it.
pub fn unix_millis() -> (r: Option<u128>)
    ensures
        is_reading(r),
{
    whole_millis(since_epoch(std::time::SystemTime::now()))
}

} // verus!
