//! The rate at which a ring is written.

use crate::time::Nanos;
use vstd::prelude::*;

verus! {

/// The records per millisecond of a ring whose count went by `published`
/// in `elapsed`: `published * 1_000_000 / elapsed`.
pub open spec fn rate_per_milli(published: nat, elapsed: nat) -> nat {
    published * 1_000_000 / elapsed
}

/// The records per millisecond of a ring whose count of published records
/// went from `before` to `after` in `elapsed`; `None` where no time has
/// passed, the count went back, or the rate does not fit in 64 bits.
pub fn throughput(before: usize, after: usize, elapsed: Nanos) -> (r: Option<u64>)
    ensures
        r == (if elapsed.0 > 0 && before <= after && rate_per_milli(
            (after - before) as nat,
            elapsed.0 as nat,
        ) <= u64::MAX {
            Some(rate_per_milli((after - before) as nat, elapsed.0 as nat) as u64)
        } else {
            None
        }),
{
    if elapsed.0 == 0 || before > after {
        return None;
    }
    let published = (after - before) as u128;
    let rate: u128 = published * 1_000_000 / (elapsed.0 as u128);
    if rate <= u64::MAX as u128 {
        Some(rate as u64)
    } else {
        None
    }
}

} // verus!
