//! What the library takes on trust: the hardware clock, the system clock,
//! the reading of decimal numerals, and sorting.

use vstd::prelude::*;

verus! {

/// `quanta::Clock`, a handle on the machine's fastest counter and on its
/// calibration against wall time. Nothing inside it is visible here.
#[verifier::external_type_specification]
#[verifier::external_body]
pub struct ExClock(quanta::Clock);

/// `quanta::Clock::new`: a clock on the best counter that the machine has.
/// Nothing is claimed of it.
pub assume_specification[ quanta::Clock::new ]() -> quanta::Clock;

/// `quanta::Clock::raw`: the current reading of the counter. Nothing is
/// claimed of the value.
pub assume_specification[ quanta::Clock::raw ](clock: &quanta::Clock) -> u64;

/// `quanta::Clock::delta_as_nanos`: the nanoseconds between two raw readings.
/// The scale is the machine's, so the only claim is that a span that does not
/// run forward is zero.
pub assume_specification[ quanta::Clock::delta_as_nanos ](
    clock: &quanta::Clock,
    start: u64,
    end: u64,
) -> (r: u64)
    ensures
        end <= start ==> r == 0,
;

/// `web_time::SystemTime::now` and `SystemTime::duration_since` the Unix
/// epoch, as whole nanoseconds; `None` when the system clock is set before
/// the epoch. Nothing is claimed of the value.
#[verifier::external_body]
pub(crate) fn unix_time_nanos() -> Option<u128> {
    match web_time::SystemTime::now().duration_since(web_time::UNIX_EPOCH) {
        Ok(d) => Some(d.as_nanos()),
        Err(_) => None,
    }
}

/// `str::parse::<u64>`: the value of a decimal numeral, which is one or more
/// decimal digits after a `+` or after nothing; `None` for any other text and
/// for a numeral above `u64::MAX`.
#[verifier::external_body]
pub(crate) fn parse_u64(s: &str) -> (r: Option<u64>)
    ensures
        r == (match crate::time_text::decimal_value(s@) {
            Some(v) => if v <= u64::MAX {
                Some(v as u64)
            } else {
                None
            },
            None => None,
        }),
{
    match s.parse::<u64>() {
        Ok(v) => Some(v),
        Err(_) => None,
    }
}

/// `<[u64]>::sort` on the contents of a vector: afterwards the vector holds
/// the same samples, each as often as before, in ascending order.
#[verifier::external_body]
pub(crate) fn sort_samples(v: &mut Vec<u64>)
    ensures
        final(v)@.to_multiset() == old(v)@.to_multiset(),
        forall|i: int, j: int| 0 <= i <= j < final(v)@.len() ==> final(v)@[i] <= final(v)@[j],
{
    v.sort();
}

} // verus!
