//! The time since the Unix epoch.

use vstd::prelude::*;

verus! {

/// A reading of the clock: seconds and nanoseconds since the Unix epoch, or
/// nothing where the clock stands before it.
pub open spec fn clock_reading(elapsed: Option<(u64, u32)>) -> bool {
    match elapsed {
        Some(t) => t.1 < 1_000_000_000,
        None => true,
    }
}

/// `SystemTime::elapsed` of `UNIX_EPOCH`, as whole seconds and the nanoseconds
/// that are left; nothing for its error. What the clock says is open.
#[verifier::external_body]
fn elapsed_since_epoch() -> (r: Option<(u64, u32)>)
    ensures
        clock_reading(r),
{
    std::time::UNIX_EPOCH.elapsed().ok().map(|d| (d.as_secs(), d.subsec_nanos()))
}

/// A clock reading in milliseconds, zero before the epoch, in 64 bits.
pub open spec fn millis_of(elapsed: Option<(u64, u32)>) -> int {
    match elapsed {
        Some(t) => (t.0 * 1000 + t.1 as int / 1_000_000) % 0x1_0000_0000_0000_0000,
        None => 0,
    }
}

/// A clock reading in nanoseconds, reduced to a number below 99999.
pub open spec fn number_of(elapsed: Option<(u64, u32)>) -> int {
    match elapsed {
        Some(t) => (t.0 * 1_000_000_000 + t.1) % 99999,
        None => 0,
    }
}

/// A clock reading in milliseconds.
pub fn timestamp_ms(elapsed: Option<(u64, u32)>) -> (r: u64)
    ensures
        r == millis_of(elapsed),
{
    match elapsed {
        Some(t) => {
            let ms: u128 = t.0 as u128 * 1000 + t.1 as u128 / 1_000_000;
            (ms % 0x1_0000_0000_0000_0000) as u64
        },
        None => 0,
    }
}

/// A clock reading as a number below 99999.
pub fn reduced_nanos(elapsed: Option<(u64, u32)>) -> (r: u32)
    ensures
        r == number_of(elapsed),
        r < 99999,
{
    match elapsed {
        Some(t) => {
            let ns: u128 = t.0 as u128 * 1_000_000_000 + t.1 as u128;
            (ns % 99999) as u32
        },
        None => 0,
    }
}

/// Returns the current time as Unix milliseconds.
///
/// Used to timestamp all outgoing WebSocket events.
pub fn current_timestamp_ms() -> (r: u64)
    ensures
        exists|elapsed: Option<(u64, u32)>|
            #[trigger] clock_reading(elapsed) && r == millis_of(elapsed),
{
    timestamp_ms(elapsed_since_epoch())
}

/// A number for an anonymous username, taken from the clock.
pub fn rand_number() -> (r: u32)
    ensures
        r < 99999,
        exists|elapsed: Option<(u64, u32)>|
            #[trigger] clock_reading(elapsed) && r == number_of(elapsed),
{
    reduced_nanos(elapsed_since_epoch())
}

/// A reading in milliseconds is that of the clock without what is less than a
/// millisecond, as long as it fits into 64 bits.
pub proof fn law_milliseconds_are_counted_in_full(secs: u64, nanos: u32)
    requires
        nanos < 1_000_000_000,
        secs < 0x40_0000_0000_0000,
    ensures
        ({
            let ms = millis_of(Some((secs, nanos)));
            let ns = secs * 1_000_000_000 + nanos;
            ms * 1_000_000 <= ns < (ms + 1) * 1_000_000
        }),
        millis_of(None) == 0,
{
}

/// The number that a reading gives is what is left of its nanoseconds when they
/// are divided by 99999.
pub proof fn law_number_is_a_remainder(secs: u64, nanos: u32)
    ensures
        ({
            let n = number_of(Some((secs, nanos)));
            &&& 0 <= n < 99999
            &&& exists|q: int| secs * 1_000_000_000 + nanos == #[trigger] (q * 99999) + n
        }),
        number_of(None) == 0,
{
    let ns: int = secs * 1_000_000_000 + nanos;
    let q = ns / 99999;
    assert(ns == q * 99999 + number_of(Some((secs, nanos))));
}

} // verus!
