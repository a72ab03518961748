//! Lengths of time.

use vstd::prelude::*;

verus! {

/// A length of time: whole seconds, and nanoseconds below a second.
#[derive(Debug, Clone, Copy, PartialEq, Eq, Structural)]
pub struct Span {
    pub secs: u64,
    pub nanos: u32,
}

impl Span {
    /// The length in nanoseconds.
    pub open spec fn total(self) -> int {
        self.secs * 1_000_000_000 + self.nanos
    }

    /// Whether the nanoseconds are below a second.
    pub open spec fn valid(self) -> bool {
        self.nanos < 1_000_000_000
    }

    /// The length that has so many nanoseconds.
    pub open spec fn of_total(n: int) -> Span {
        Span { secs: (n / 1_000_000_000) as u64, nanos: (n % 1_000_000_000) as u32 }
    }

    /// The nanoseconds of the shortest length that is too long for the type.
    pub open spec fn limit() -> int {
        0x1_0000_0000_0000_0000int * 1_000_000_000
    }

    /// Both lengths one after the other, unless that is too long for the type.
    pub open spec fn sum(self, other: Span) -> Option<Span> {
        if self.total() + other.total() < Span::limit() {
            Some(Span::of_total(self.total() + other.total()))
        } else {
            None
        }
    }

    /// The time that is left of this length after the other, unless the other is longer.
    pub open spec fn difference(self, other: Span) -> Option<Span> {
        if self.total() >= other.total() {
            Some(Span::of_total(self.total() - other.total()))
        } else {
            None
        }
    }

    /// A valid length of time is that of its nanoseconds.
    pub proof fn law_of_total(self)
        requires
            self.valid(),
        ensures
            Span::of_total(self.total()) == self,
            0 <= self.total() < Span::limit(),
    {
    }

    /// No time at all.
    pub fn zero() -> (r: Span)
        ensures
            r.valid(),
            r.total() == 0,
    {
        Span { secs: 0, nanos: 0 }
    }

    /// A valid length of time is determined by its nanoseconds.
    pub proof fn law_total_unique(self, other: Span)
        requires
            self.valid(),
            other.valid(),
            self.total() == other.total(),
        ensures
            self == other,
    {
    }

    /// The time that is left of this length after the other, unless the other is longer.
    pub fn checked_sub(self, other: Span) -> (r: Option<Span>)
        requires
            self.valid(),
            other.valid(),
        ensures
            match r {
                Some(d) => d.valid() && d.total() == self.total() - other.total(),
                None => self.total() < other.total(),
            },
            r == self.difference(other),
    {
        if self.secs < other.secs || (self.secs == other.secs && self.nanos < other.nanos) {
            None
        } else if self.nanos >= other.nanos {
            Some(Span { secs: self.secs - other.secs, nanos: self.nanos - other.nanos })
        } else {
            Some(
                Span {
                    secs: self.secs - other.secs - 1,
                    nanos: 1_000_000_000 - (other.nanos - self.nanos),
                },
            )
        }
    }

    /// Both lengths one after the other, unless that is too long for the type.
    pub fn checked_add(self, other: Span) -> (r: Option<Span>)
        requires
            self.valid(),
            other.valid(),
        ensures
            match r {
                Some(d) => d.valid() && d.total() == self.total() + other.total(),
                None => self.total() + other.total() >= Span::limit(),
            },
            r == self.sum(other),
    {
        let nanos: u32 = self.nanos + other.nanos;
        let carry: u64 = if nanos >= 1_000_000_000 {
            1
        } else {
            0
        };
        if self.secs > u64::MAX - other.secs || self.secs + other.secs > u64::MAX - carry {
            return None;
        }
        Some(
            Span {
                secs: self.secs + other.secs + carry,
                nanos: if nanos >= 1_000_000_000 { nanos - 1_000_000_000 } else { nanos },
            },
        )
    }
}

} // verus!
