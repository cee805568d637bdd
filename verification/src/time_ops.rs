//! Arithmetic on the time units, and conversions to and from integers.

use crate::time::{Duration, Instant, Nanos};
use vstd::prelude::*;
use vstd::std_specs::convert::FromSpecImpl;
use vstd::std_specs::ops::{AddSpecImpl, DivSpecImpl, MulSpecImpl, SubSpecImpl};

verus! {

/// `a + b` reduced to 64 bits.
pub open spec fn wrapping_sum(a: u64, b: u64) -> u64 {
    if a + b <= u64::MAX {
        (a + b) as u64
    } else {
        (a + b - 0x1_0000_0000_0000_0000) as u64
    }
}

/// `a - b` reduced to 64 bits.
pub open spec fn wrapping_difference(a: u64, b: u64) -> u64 {
    if a >= b {
        (a - b) as u64
    } else {
        (a + 0x1_0000_0000_0000_0000 - b) as u64
    }
}

impl core::ops::Sub for Instant {
    type Output = Nanos;

    /// The time from `rhs` to `self`; zero where `self` is not the later
    /// reading.
    fn sub(self, rhs: Instant) -> (r: Nanos)
        ensures
            self.0 <= rhs.0 ==> r.0 == 0,
    {
        self.since(rhs)
    }
}

impl SubSpecImpl for Instant {
    /// The result is the clock's, so no spec function gives it.
    open spec fn obeys_sub_spec() -> bool {
        false
    }

    open spec fn sub_req(self, rhs: Instant) -> bool {
        true
    }

    open spec fn sub_spec(self, rhs: Instant) -> Nanos {
        arbitrary()
    }
}

impl core::ops::Add for Nanos {
    type Output = Nanos;

    fn add(self, rhs: Nanos) -> (r: Nanos) {
        Nanos(self.0.wrapping_add(rhs.0))
    }
}

impl AddSpecImpl for Nanos {
    open spec fn obeys_add_spec() -> bool {
        true
    }

    open spec fn add_req(self, rhs: Nanos) -> bool {
        true
    }

    open spec fn add_spec(self, rhs: Nanos) -> Nanos {
        Nanos(wrapping_sum(self.0, rhs.0))
    }
}

impl core::ops::AddAssign for Nanos {
    fn add_assign(&mut self, rhs: Nanos)
        ensures
            final(self).0 == wrapping_sum(old(self).0, rhs.0),
    {
        *self = *self + rhs;
    }
}

impl core::ops::Sub for Nanos {
    type Output = Nanos;

    fn sub(self, rhs: Nanos) -> (r: Nanos) {
        Nanos(self.0.wrapping_sub(rhs.0))
    }
}

impl SubSpecImpl for Nanos {
    open spec fn obeys_sub_spec() -> bool {
        true
    }

    open spec fn sub_req(self, rhs: Nanos) -> bool {
        true
    }

    open spec fn sub_spec(self, rhs: Nanos) -> Nanos {
        Nanos(wrapping_difference(self.0, rhs.0))
    }
}

impl core::ops::SubAssign for Nanos {
    fn sub_assign(&mut self, rhs: Nanos)
        ensures
            final(self).0 == wrapping_difference(old(self).0, rhs.0),
    {
        *self = *self - rhs;
    }
}

impl core::ops::Sub<u64> for Nanos {
    type Output = Nanos;

    fn sub(self, rhs: u64) -> (r: Nanos) {
        Nanos(self.0.wrapping_sub(rhs))
    }
}

impl SubSpecImpl<u64> for Nanos {
    open spec fn obeys_sub_spec() -> bool {
        true
    }

    open spec fn sub_req(self, rhs: u64) -> bool {
        true
    }

    open spec fn sub_spec(self, rhs: u64) -> Nanos {
        Nanos(wrapping_difference(self.0, rhs))
    }
}

impl core::ops::SubAssign<u64> for Nanos {
    fn sub_assign(&mut self, rhs: u64)
        ensures
            final(self).0 == wrapping_difference(old(self).0, rhs),
    {
        *self = *self - rhs;
    }
}

impl core::ops::Mul<u32> for Nanos {
    type Output = Nanos;

    fn mul(self, rhs: u32) -> (r: Nanos) {
        Nanos(self.0 * (rhs as u64))
    }
}

impl MulSpecImpl<u32> for Nanos {
    open spec fn obeys_mul_spec() -> bool {
        true
    }

    open spec fn mul_req(self, rhs: u32) -> bool {
        self.0 * rhs <= u64::MAX
    }

    open spec fn mul_spec(self, rhs: u32) -> Nanos {
        Nanos((self.0 * rhs) as u64)
    }
}

impl core::ops::Mul<Nanos> for u32 {
    type Output = Nanos;

    fn mul(self, rhs: Nanos) -> (r: Nanos) {
        rhs * self
    }
}

impl MulSpecImpl<Nanos> for u32 {
    open spec fn obeys_mul_spec() -> bool {
        true
    }

    open spec fn mul_req(self, rhs: Nanos) -> bool {
        rhs.0 * self <= u64::MAX
    }

    open spec fn mul_spec(self, rhs: Nanos) -> Nanos {
        Nanos((rhs.0 * self) as u64)
    }
}

impl core::ops::MulAssign<u32> for Nanos {
    fn mul_assign(&mut self, rhs: u32)
        requires
            old(self).0 * rhs <= u64::MAX,
        ensures
            final(self).0 == old(self).0 * rhs,
    {
        *self = *self * rhs;
    }
}

impl core::ops::Mul<u64> for Nanos {
    type Output = Nanos;

    fn mul(self, rhs: u64) -> (r: Nanos) {
        Nanos(self.0 * rhs)
    }
}

impl MulSpecImpl<u64> for Nanos {
    open spec fn obeys_mul_spec() -> bool {
        true
    }

    open spec fn mul_req(self, rhs: u64) -> bool {
        self.0 * rhs <= u64::MAX
    }

    open spec fn mul_spec(self, rhs: u64) -> Nanos {
        Nanos((self.0 * rhs) as u64)
    }
}

impl core::ops::Mul<Nanos> for u64 {
    type Output = Nanos;

    fn mul(self, rhs: Nanos) -> (r: Nanos) {
        rhs * self
    }
}

impl MulSpecImpl<Nanos> for u64 {
    open spec fn obeys_mul_spec() -> bool {
        true
    }

    open spec fn mul_req(self, rhs: Nanos) -> bool {
        rhs.0 * self <= u64::MAX
    }

    open spec fn mul_spec(self, rhs: Nanos) -> Nanos {
        Nanos((rhs.0 * self) as u64)
    }
}

impl core::ops::MulAssign<u64> for Nanos {
    fn mul_assign(&mut self, rhs: u64)
        requires
            old(self).0 * rhs <= u64::MAX,
        ensures
            final(self).0 == old(self).0 * rhs,
    {
        *self = *self * rhs;
    }
}

impl core::ops::Div<u32> for Nanos {
    type Output = Nanos;

    fn div(self, rhs: u32) -> (r: Nanos) {
        Nanos(self.0 / (rhs as u64))
    }
}

impl DivSpecImpl<u32> for Nanos {
    open spec fn obeys_div_spec() -> bool {
        true
    }

    open spec fn div_req(self, rhs: u32) -> bool {
        rhs != 0
    }

    open spec fn div_spec(self, rhs: u32) -> Nanos {
        Nanos(self.0 / (rhs as u64))
    }
}

impl core::ops::DivAssign<u32> for Nanos {
    fn div_assign(&mut self, rhs: u32)
        requires
            rhs != 0,
        ensures
            final(self).0 == old(self).0 / (rhs as u64),
    {
        *self = *self / rhs;
    }
}

impl core::ops::Div<usize> for Nanos {
    type Output = Nanos;

    fn div(self, rhs: usize) -> (r: Nanos) {
        Nanos(self.0 / (rhs as u64))
    }
}

impl DivSpecImpl<usize> for Nanos {
    open spec fn obeys_div_spec() -> bool {
        true
    }

    open spec fn div_req(self, rhs: usize) -> bool {
        rhs != 0
    }

    open spec fn div_spec(self, rhs: usize) -> Nanos {
        Nanos(self.0 / (rhs as u64))
    }
}

impl core::ops::Div<u64> for Nanos {
    type Output = Nanos;

    fn div(self, rhs: u64) -> (r: Nanos) {
        Nanos(self.0 / rhs)
    }
}

impl DivSpecImpl<u64> for Nanos {
    open spec fn obeys_div_spec() -> bool {
        true
    }

    open spec fn div_req(self, rhs: u64) -> bool {
        rhs != 0
    }

    open spec fn div_spec(self, rhs: u64) -> Nanos {
        Nanos(self.0 / rhs)
    }
}

impl core::ops::DivAssign<u64> for Nanos {
    fn div_assign(&mut self, rhs: u64)
        requires
            rhs != 0,
        ensures
            final(self).0 == old(self).0 / rhs,
    {
        *self = *self / rhs;
    }
}

impl core::ops::Add for Duration {
    type Output = Duration;

    fn add(self, rhs: Duration) -> (r: Duration) {
        Duration(self.0.wrapping_add(rhs.0))
    }
}

impl AddSpecImpl for Duration {
    open spec fn obeys_add_spec() -> bool {
        true
    }

    open spec fn add_req(self, rhs: Duration) -> bool {
        true
    }

    open spec fn add_spec(self, rhs: Duration) -> Duration {
        Duration(wrapping_sum(self.0, rhs.0))
    }
}

impl core::ops::Sub for Duration {
    type Output = Duration;

    fn sub(self, rhs: Duration) -> (r: Duration) {
        Duration(self.0.wrapping_sub(rhs.0))
    }
}

impl SubSpecImpl for Duration {
    open spec fn obeys_sub_spec() -> bool {
        true
    }

    open spec fn sub_req(self, rhs: Duration) -> bool {
        true
    }

    open spec fn sub_spec(self, rhs: Duration) -> Duration {
        Duration(wrapping_difference(self.0, rhs.0))
    }
}

impl core::ops::Mul<u64> for Duration {
    type Output = Duration;

    fn mul(self, rhs: u64) -> (r: Duration) {
        Duration(self.0 * rhs)
    }
}

impl MulSpecImpl<u64> for Duration {
    open spec fn obeys_mul_spec() -> bool {
        true
    }

    open spec fn mul_req(self, rhs: u64) -> bool {
        self.0 * rhs <= u64::MAX
    }

    open spec fn mul_spec(self, rhs: u64) -> Duration {
        Duration((self.0 * rhs) as u64)
    }
}

impl core::ops::Div<u64> for Duration {
    type Output = Duration;

    fn div(self, rhs: u64) -> (r: Duration) {
        Duration(self.0 / rhs)
    }
}

impl DivSpecImpl<u64> for Duration {
    open spec fn obeys_div_spec() -> bool {
        true
    }

    open spec fn div_req(self, rhs: u64) -> bool {
        rhs != 0
    }

    open spec fn div_spec(self, rhs: u64) -> Duration {
        Duration(self.0 / rhs)
    }
}

impl core::ops::Div<usize> for Duration {
    type Output = Duration;

    fn div(self, rhs: usize) -> (r: Duration) {
        Duration(self.0 / (rhs as u64))
    }
}

impl DivSpecImpl<usize> for Duration {
    open spec fn obeys_div_spec() -> bool {
        true
    }

    open spec fn div_req(self, rhs: usize) -> bool {
        rhs != 0
    }

    open spec fn div_spec(self, rhs: usize) -> Duration {
        Duration(self.0 / (rhs as u64))
    }
}

/// The sum of the spans of `s`.
pub open spec fn total(s: Seq<Nanos>) -> nat
    decreases s.len(),
{
    if s.len() == 0 {
        0
    } else {
        total(s.drop_last()) + s.last().0 as nat
    }
}

/// A sum never falls when a further span is added to it.
proof fn lemma_total_grows(s: Seq<Nanos>, n: int)
    requires
        0 <= n <= s.len(),
    ensures
        total(s.take(n)) <= total(s),
    decreases s.len() - n,
{
    if n < s.len() {
        lemma_total_grows(s, n + 1);
        assert(s.take(n + 1).drop_last() =~= s.take(n));
    } else {
        assert(s.take(n) =~= s);
    }
}

impl Nanos {
    /// The sum of `values`; `None` where it does not fit in 64 bits.
    pub fn checked_sum(values: &Vec<Nanos>) -> (r: Option<Nanos>)
        ensures
            r == (if total(values@) <= u64::MAX {
                Some(Nanos(total(values@) as u64))
            } else {
                None
            }),
    {
        let mut sum: u64 = 0;
        let mut i: usize = 0;
        while i < values.len()
            invariant
                i <= values@.len(),
                sum == total(values@.take(i as int)),
            decreases values@.len() - i,
        {
            proof {
                assert(values@.take(i + 1).drop_last() =~= values@.take(i as int));
                lemma_total_grows(values@, i + 1);
            }
            match sum.checked_add(values[i].0) {
                Some(next) => {
                    sum = next;
                },
                None => {
                    return None;
                },
            }
            i = i + 1;
        }
        proof {
            assert(values@.take(values@.len() as int) =~= values@);
        }
        Some(Nanos(sum))
    }
}

impl From<u64> for Nanos {
    fn from(value: u64) -> (r: Nanos) {
        Nanos(value)
    }
}

impl FromSpecImpl<u64> for Nanos {
    open spec fn obeys_from_spec() -> bool {
        true
    }

    open spec fn from_spec(value: u64) -> Nanos {
        Nanos(value)
    }
}

impl From<u32> for Nanos {
    fn from(value: u32) -> (r: Nanos) {
        Nanos(value as u64)
    }
}

impl FromSpecImpl<u32> for Nanos {
    open spec fn obeys_from_spec() -> bool {
        true
    }

    open spec fn from_spec(value: u32) -> Nanos {
        Nanos(value as u64)
    }
}

impl From<u128> for Nanos {
    /// The low 64 bits of `value`.
    fn from(value: u128) -> (r: Nanos) {
        Nanos(value as u64)
    }
}

impl FromSpecImpl<u128> for Nanos {
    open spec fn obeys_from_spec() -> bool {
        true
    }

    open spec fn from_spec(value: u128) -> Nanos {
        Nanos(value as u64)
    }
}

impl From<i64> for Nanos {
    /// The bits of `value` read as unsigned.
    fn from(value: i64) -> (r: Nanos) {
        Nanos(value as u64)
    }
}

impl FromSpecImpl<i64> for Nanos {
    open spec fn obeys_from_spec() -> bool {
        true
    }

    open spec fn from_spec(value: i64) -> Nanos {
        Nanos(value as u64)
    }
}

impl From<i32> for Nanos {
    /// `value` widened to 64 bits, its bits read as unsigned.
    fn from(value: i32) -> (r: Nanos) {
        Nanos(value as u64)
    }
}

impl FromSpecImpl<i32> for Nanos {
    open spec fn obeys_from_spec() -> bool {
        true
    }

    open spec fn from_spec(value: i32) -> Nanos {
        Nanos(value as u64)
    }
}

impl From<Nanos> for i64 {
    /// The bits of the count read as signed.
    fn from(val: Nanos) -> (r: i64) {
        val.0 as i64
    }
}

impl FromSpecImpl<Nanos> for i64 {
    open spec fn obeys_from_spec() -> bool {
        true
    }

    open spec fn from_spec(val: Nanos) -> i64 {
        val.0 as i64
    }
}

} // verus!
