//! How a span of nanoseconds is shown, and how one is read from a text.

use crate::trusted::parse_u64;
use crate::text::{find, first_occurrence};
use crate::time::Nanos;
use vstd::prelude::*;
use vstd::string::StrSliceExecFns;

verus! {

/// The unit in which a span of nanoseconds is shown.
#[derive(Clone, Copy, Debug, PartialEq, Eq, Structural)]
pub enum TimeUnit {
    /// Whole nanoseconds.
    Nanos,
    /// Microseconds, in thousandths.
    Micros,
    /// Milliseconds, in thousandths.
    Millis,
    /// Seconds, in thousandths.
    Secs,
}

/// The unit in which `v` nanoseconds are shown: the largest of nanoseconds,
/// microseconds, milliseconds and seconds of which `v` holds at least one.
pub open spec fn unit_of(v: u64) -> TimeUnit {
    if v < 1_000 {
        TimeUnit::Nanos
    } else if v < 1_000_000 {
        TimeUnit::Micros
    } else if v < 1_000_000_000 {
        TimeUnit::Millis
    } else {
        TimeUnit::Secs
    }
}

/// The number that is shown for `v` nanoseconds: `v` itself in nanoseconds,
/// and otherwise the thousandths of the unit that `v` holds, rounded down.
pub open spec fn shown_count(v: u64) -> u64 {
    match unit_of(v) {
        TimeUnit::Nanos => v,
        TimeUnit::Micros => v,
        TimeUnit::Millis => v / 1_000,
        TimeUnit::Secs => v / 1_000_000,
    }
}

/// Whether `c` is a decimal digit.
pub open spec fn is_digit(c: char) -> bool {
    '0' <= c <= '9'
}

/// The number that the decimal digits of `s` stand for.
pub open spec fn digits_value(s: Seq<char>) -> nat
    decreases s.len(),
{
    if s.len() == 0 {
        0
    } else {
        digits_value(s.drop_last()) * 10 + (s.last() as nat - '0' as nat) as nat
    }
}

/// The number that `s` stands for, if `s` is a decimal numeral: one or more
/// decimal digits, after a `+` or after nothing.
pub open spec fn decimal_value(s: Seq<char>) -> Option<nat> {
    let digits = if s.len() > 0 && s[0] == '+' {
        s.subrange(1, s.len() as int)
    } else {
        s
    };
    if digits.len() > 0 && forall|i: int| 0 <= i < digits.len() ==> is_digit(#[trigger] digits[i]) {
        Some(digits_value(digits))
    } else {
        None
    }
}

/// Whether `ns` stands somewhere in `s`.
pub open spec fn mentions_ns(s: Seq<char>) -> bool {
    first_occurrence(s, "ns"@, 0) is Some
}

/// The numeral in a text that gives a span of nanoseconds: the text without
/// its last two characters where `ns` stands somewhere in it, and the whole
/// text otherwise.
pub open spec fn numeral_of(s: Seq<char>) -> Seq<char> {
    if mentions_ns(s) {
        s.subrange(0, s.len() - 2)
    } else {
        s
    }
}

/// The span that a text gives, if its numeral is a decimal numeral that fits
/// in 64 bits.
pub open spec fn parsed(s: Seq<char>) -> Option<Nanos> {
    match decimal_value(numeral_of(s)) {
        Some(v) => if v <= u64::MAX {
            Some(Nanos(v as u64))
        } else {
            None
        },
        None => None,
    }
}

/// A text that gives no span of nanoseconds.
#[derive(Clone, Copy, Debug, PartialEq, Eq, Structural)]
pub struct ParseNanosError;

impl Nanos {
    /// The unit in which the span is shown and the number shown in it: whole
    /// nanoseconds below a microsecond, and thousandths of a microsecond, a
    /// millisecond or a second from there on.
    pub fn display_parts(&self) -> (r: (u64, TimeUnit))
        ensures
            r.0 == shown_count(self.0),
            r.1 == unit_of(self.0),
    {
        let v = self.0;
        if v < 1_000 {
            (v, TimeUnit::Nanos)
        } else if v < 1_000_000 {
            (v, TimeUnit::Micros)
        } else if v < 1_000_000_000 {
            (v / 1_000, TimeUnit::Millis)
        } else {
            (v / 1_000_000, TimeUnit::Secs)
        }
    }

    /// The span that `s` gives: a decimal count of nanoseconds, with or
    /// without `ns` behind it.
    pub fn parse(s: &str) -> (r: Result<Nanos, ParseNanosError>)
        ensures
            r == (match parsed(s@) {
                Some(n) => Ok::<Nanos, ParseNanosError>(n),
                None => Err::<Nanos, ParseNanosError>(ParseNanosError),
            }),
    {
        proof {
            reveal_strlit("ns");
        }
        let value = match find(s, "ns") {
            Some(_) => parse_u64(s.substring_char(0, s.unicode_len() - 2)),
            None => parse_u64(s),
        };
        match value {
            Some(v) => Ok(Nanos(v)),
            None => Err(ParseNanosError),
        }
    }
}

impl core::str::FromStr for Nanos {
    type Err = ParseNanosError;

    fn from_str(s: &str) -> (r: Result<Self, Self::Err>)
        ensures
            r == (match parsed(s@) {
                Some(n) => Ok::<Nanos, ParseNanosError>(n),
                None => Err::<Nanos, ParseNanosError>(ParseNanosError),
            }),
    {
        Nanos::parse(s)
    }
}

} // verus!
