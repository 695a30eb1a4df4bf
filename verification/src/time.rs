//! Wall-clock helpers.
use vstd::prelude::*;

verus! {

#[verifier::external_type_specification]
#[verifier::external_body]
pub struct ExSystemTime(std::time::SystemTime);

/// `SystemTime::now`: the current wall-clock time. Nothing is claimed of it.
#[verifier::external_body]
fn system_now() -> std::time::SystemTime {
    std::time::SystemTime::now()
}

/// `SystemTime::duration_since(UNIX_EPOCH)`: the time elapsed since the Unix epoch, or `None`
/// for a time before it. Nothing is claimed of the value.
#[verifier::external_body]
fn since_epoch(t: &std::time::SystemTime) -> Option<std::time::Duration> {
    t.duration_since(std::time::UNIX_EPOCH).ok()
}

/// `Duration::as_millis`: the whole milliseconds of a duration. Nothing is claimed of the
/// value.
#[verifier::external_body]
fn whole_millis(d: &std::time::Duration) -> u128 {
    d.as_millis()
}

/// The millisecond count kept for a clock reading: the milliseconds since the Unix epoch
/// truncated to 64 bits, or 0 for a clock set before the epoch (`None`).
pub open spec fn spec_millis_or_zero(since: Option<u128>) -> u64 {
    match since {
        Some(ms) => (ms % 0x1_0000_0000_0000_0000) as u64,
        None => 0,
    }
}

/// The millisecond count kept for a clock reading (see `spec_millis_or_zero`).
pub fn millis_or_zero(since: Option<u128>) -> (r: u64)
    ensures
        r == spec_millis_or_zero(since),
{
    match since {
        Some(ms) => {
            assert((ms as u64) == (ms % 0x1_0000_0000_0000_0000) as u64) by (bit_vector);
            #[verifier::truncate]
            (ms as u64)
        },
        None => 0,
    }
}

/// Milliseconds since the Unix epoch, truncated to 64 bits. A system clock set before the
/// epoch (a misconfigured host) yields 0 rather than stopping a running simulation. Which
/// reading the clock gives is not claimed; what is kept of it is `millis_or_zero`'s.
pub fn now_unix_ms() -> (r: u64) {
    let since = match since_epoch(&system_now()) {
        Some(d) => Some(whole_millis(&d)),
        None => None,
    };
    millis_or_zero(since)
}

} // verus!
