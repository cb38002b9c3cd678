//! Nanosecond-resolution timestamp and interval types.
//!
//! An `Instant` is a point of time on some logical clock; a `Duration` is an
//! interval. Both are 64-bit nanosecond counts. Arithmetic is checked:
//! subtraction of instants is only defined when it cannot wrap.

use vstd::prelude::*;

verus! {

/// A point of time, measured in nanoseconds from an arbitrary origin.
///
/// Instants from different logical clocks are not comparable; only the
/// difference of two instants of the same clock is meaningful.
#[derive(Debug, Default, Copy, Clone, PartialEq, Eq, Structural)]
pub struct Instant(pub u64);

/// A time interval, measured in nanoseconds.
#[derive(Debug, Default, Copy, Clone, PartialEq, Eq, Structural, PartialOrd, Ord, Hash)]
pub struct Duration(pub u64);

/// The character of one decimal digit.
pub open spec fn spec_digit_char(d: int) -> char {
    if d == 0 {
        '0'
    } else if d == 1 {
        '1'
    } else if d == 2 {
        '2'
    } else if d == 3 {
        '3'
    } else if d == 4 {
        '4'
    } else if d == 5 {
        '5'
    } else if d == 6 {
        '6'
    } else if d == 7 {
        '7'
    } else if d == 8 {
        '8'
    } else {
        '9'
    }
}

/// The decimal digits of a non-negative number, most significant first.
pub open spec fn spec_digits(n: int) -> Seq<char>
    recommends
        n >= 0,
    decreases n,
{
    if n < 10 {
        seq![spec_digit_char(n)]
    } else {
        spec_digits(n / 10).push(spec_digit_char(n % 10))
    }
}

/// The display form of a duration: the value scaled to the unit chosen by
/// magnitude — a step of 1000 whenever the value reaches 5000 of the
/// smaller unit — followed by the unit's suffix.
pub open spec fn spec_duration_display(n: u64) -> Seq<char> {
    if n < 5_000 {
        spec_digits(n as int) + "ns"@
    } else if n < 5_000_000 {
        spec_digits(n as int / 1_000) + "μs"@
    } else if n < 5_000_000_000 {
        spec_digits(n as int / 1_000_000) + "ms"@
    } else {
        spec_digits(n as int / 1_000_000_000) + "s"@
    }
}

/// One decimal digit as text.
fn digit_str(d: u64) -> (r: &'static str)
    requires
        d < 10,
    ensures
        r@ == seq![spec_digit_char(d as int)],
{
    proof {
        reveal_strlit("0");
        reveal_strlit("1");
        reveal_strlit("2");
        reveal_strlit("3");
        reveal_strlit("4");
        reveal_strlit("5");
        reveal_strlit("6");
        reveal_strlit("7");
        reveal_strlit("8");
        reveal_strlit("9");
    }
    let r: &'static str = if d == 0 {
        "0"
    } else if d == 1 {
        "1"
    } else if d == 2 {
        "2"
    } else if d == 3 {
        "3"
    } else if d == 4 {
        "4"
    } else if d == 5 {
        "5"
    } else if d == 6 {
        "6"
    } else if d == 7 {
        "7"
    } else if d == 8 {
        "8"
    } else {
        "9"
    };
    proof {
        assert(r@ =~= seq![spec_digit_char(d as int)]);
    }
    r
}

/// The decimal text of a number.
pub fn u64_to_string(n: u64) -> (r: String)
    ensures
        r@ == spec_digits(n as int),
    decreases n,
{
    if n < 10 {
        let mut s = String::new();
        s.append(digit_str(n));
        proof {
            assert(s@ =~= spec_digits(n as int));
        }
        s
    } else {
        let mut s = u64_to_string(n / 10);
        s.append(digit_str(n % 10));
        proof {
            assert(s@ =~= spec_digits(n as int));
        }
        s
    }
}

impl Instant {
    /// Builds an instant from a nanosecond count.
    pub fn from_nanos(x: u64) -> (r: Self)
        ensures
            r.0 == x,
    {
        Instant(x)
    }

    /// The nanosecond count of this instant.
    pub fn as_nanos(self) -> (r: u64)
        ensures
            r == self.0,
    {
        self.0
    }

    /// The interval from `earlier` to `self`, or `None` if `earlier` is
    /// later than `self` (so the subtraction would wrap).
    pub fn checked_duration_since(self, earlier: Self) -> (r: Option<Duration>)
        ensures
            self.0 >= earlier.0 ==> r == Some(Duration((self.0 - earlier.0) as u64)),
            self.0 < earlier.0 ==> r is None,
    {
        if self.0 >= earlier.0 {
            Some(Duration(self.0 - earlier.0))
        } else {
            None
        }
    }
}

impl Duration {
    /// Builds a duration from a nanosecond count.
    pub fn from_nanos(x: u64) -> (r: Self)
        ensures
            r.0 == x,
    {
        Duration(x)
    }

    /// The nanosecond count of this duration.
    pub fn as_nanos(self) -> (r: u64)
        ensures
            r == self.0,
    {
        self.0
    }

    /// The display form: the value under the unit chosen by magnitude,
    /// then the unit's suffix.
    pub fn to_string(&self) -> (r: String)
        ensures
            r@ == spec_duration_display(self.0),
    {
        let (value, suffix): (u64, &'static str) = if self.0 < 5_000 {
            (self.0, "ns")
        } else if self.0 < 5_000_000 {
            (self.0 / 1_000, "μs")
        } else if self.0 < 5_000_000_000 {
            (self.0 / 1_000_000, "ms")
        } else {
            (self.0 / 1_000_000_000, "s")
        };
        let mut s = u64_to_string(value);
        s.append(suffix);
        s
    }

    /// The sum of two durations, or `None` if it does not fit in 64 bits.
    pub fn checked_add(self, rhs: Self) -> (r: Option<Duration>)
        ensures
            self.0 + rhs.0 <= u64::MAX ==> r == Some(Duration((self.0 + rhs.0) as u64)),
            self.0 + rhs.0 > u64::MAX ==> r is None,
    {
        match self.0.checked_add(rhs.0) {
            Some(n) => Some(Duration(n)),
            None => None,
        }
    }
}

} // verus!
