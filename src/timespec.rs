use vstd::prelude::*;

verus! {

/// Nanoseconds in one second.
pub const NSEC_PER_SEC: i32 = 1_000_000_000;

/// A point in time (or a span of time): whole seconds plus the nanoseconds
/// past that second.
#[derive(Clone, Copy, Debug, PartialEq, Eq, Structural)]
pub struct Timespec {
    pub sec: i64,
    pub nsec: i32,
}

/// The smallest number of nanoseconds a normalized `Timespec` can hold.
pub open spec fn min_nanos() -> int {
    i64::MIN as int * 1_000_000_000
}

/// The largest number of nanoseconds a normalized `Timespec` can hold.
pub open spec fn max_nanos() -> int {
    i64::MAX as int * 1_000_000_000 + 999_999_999
}

/// `x` limited to what a normalized `Timespec` can hold.
pub open spec fn clamp_nanos(x: int) -> int {
    if x < min_nanos() {
        min_nanos()
    } else if x > max_nanos() {
        max_nanos()
    } else {
        x
    }
}

impl Timespec {
    /// The nanoseconds field lies in `[0, NSEC_PER_SEC)`.
    pub open spec fn valid(self) -> bool {
        0 <= self.nsec < 1_000_000_000
    }

    /// The whole value in nanoseconds.
    pub open spec fn nanos(self) -> int {
        self.sec * 1_000_000_000 + self.nsec
    }

    /// The time that lies after every other: a deadline that never comes.
    pub open spec fn spec_never() -> Timespec {
        Timespec { sec: i64::MAX, nsec: 0 }
    }

    /// The earlier of the two times.
    pub open spec fn spec_earliest(self, other: Timespec) -> Timespec {
        if other.is_after_spec(self) {
            self
        } else {
            other
        }
    }

    /// The time that lies after every other: a deadline that never comes.
    pub fn never() -> (r: Timespec)
        ensures
            r.valid(),
            r == Timespec::spec_never(),
    {
        Timespec { sec: i64::MAX, nsec: 0 }
    }

    /// Whether `self` comes strictly after `other` (seconds first, then
    /// nanoseconds).
    pub fn is_after(&self, other: &Timespec) -> (r: bool)
        ensures
            r == (self.sec > other.sec || (self.sec == other.sec && self.nsec > other.nsec)),
            self.valid() && other.valid() ==> r == (self.nanos() > other.nanos()),
    {
        self.sec > other.sec || (self.sec == other.sec && self.nsec > other.nsec)
    }

    /// The earlier of the two times.
    pub fn earliest(self, other: Timespec) -> (r: Timespec)
        ensures
            r == self.spec_earliest(other),
    {
        if other.is_after(&self) {
            self
        } else {
            other
        }
    }

    pub open spec fn is_after_spec(self, other: Timespec) -> bool {
        self.sec > other.sec || (self.sec == other.sec && self.nsec > other.nsec)
    }
}

/// Adds two normalized times, carrying nanoseconds into seconds; a sum that a
/// `Timespec` cannot hold saturates at the nearest end.
pub fn add(a: Timespec, b: Timespec) -> (r: Timespec)
    requires
        a.valid(),
        b.valid(),
    ensures
        r.valid(),
        r.nanos() == clamp_nanos(a.nanos() + b.nanos()),
{
    let mut nsec: i32 = a.nsec + b.nsec;
    let mut carry: i128 = 0;
    if nsec >= NSEC_PER_SEC {
        nsec = nsec - NSEC_PER_SEC;
        carry = 1;
    }
    let sec: i128 = a.sec as i128 + b.sec as i128 + carry;
    if sec > i64::MAX as i128 {
        Timespec { sec: i64::MAX, nsec: 999_999_999 }
    } else if sec < i64::MIN as i128 {
        Timespec { sec: i64::MIN, nsec: 0 }
    } else {
        Timespec { sec: sec as i64, nsec }
    }
}

/// Relies on `time::get_time`: the current wall-clock time, which that
/// function builds with `Timespec::new`, asserting `0 <= nsec < 1_000_000_000`.
#[verifier::external_body]
pub(crate) fn get_time() -> (r: Timespec)
    ensures
        r.valid(),
{
    let t = time::get_time();
    Timespec { sec: t.sec, nsec: t.nsec }
}

/// The time `duration` from now.
pub fn deadline(duration: Timespec) -> (r: Timespec)
    requires
        duration.valid(),
    ensures
        r.valid(),
        exists|now: Timespec| now.valid() && r.nanos() == clamp_nanos(now.nanos() + duration.nanos()),
{
    let now = get_time();
    crate::timespec::add(now, duration)
}

} // verus!
