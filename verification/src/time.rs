//! Timestamps of input samples and the elapsed time between two of them.

use vstd::prelude::*;

verus! {

/// Number of microseconds in one second.
pub const MICROS_PER_SEC: i128 = 1_000_000;

/// The time at which the kernel recorded an input sample: whole seconds and
/// the microseconds within the second, both as the device clock reported them.
///
/// No relation between the two fields is assumed; the instant that a
/// timestamp denotes is its linear count of microseconds, [`Timestamp::micros`].
#[derive(Clone, Copy, Debug, PartialEq, Eq, Structural)]
pub struct Timestamp {
    pub sec: i64,
    pub usec: i64,
}

impl Timestamp {
    /// The instant as one linear count of microseconds.
    pub open spec fn micros(self) -> int {
        self.sec * MICROS_PER_SEC + self.usec
    }

    /// A timestamp from its two components.
    pub fn new(sec: i64, usec: i64) -> (t: Timestamp)
        ensures
            t.sec == sec,
            t.usec == usec,
    {
        Timestamp { sec, usec }
    }

    /// The zero timestamp, which stands for "no frame observed yet".
    pub fn zero() -> (t: Timestamp)
        ensures
            t.sec == 0,
            t.usec == 0,
            t.micros() == 0,
    {
        Timestamp { sec: 0, usec: 0 }
    }

    /// The linear count of microseconds, computed without overflow.
    pub fn as_micros(&self) -> (m: i128)
        ensures
            m == self.micros(),
    {
        let sec: i128 = self.sec as i128;
        let usec: i128 = self.usec as i128;
        sec * MICROS_PER_SEC + usec
    }
}

/// The distance between two instants, in microseconds.
pub open spec fn spec_time_diff(a: Timestamp, b: Timestamp) -> nat {
    if a.micros() >= b.micros() {
        (a.micros() - b.micros()) as nat
    } else {
        (b.micros() - a.micros()) as nat
    }
}

/// Elapsed time between two timestamps in microseconds, whichever of the two
/// is the later one.
pub fn time_diff(a: &Timestamp, b: &Timestamp) -> (elapsed: u128)
    ensures
        elapsed == spec_time_diff(*a, *b),
{
    let x: i128 = a.as_micros();
    let y: i128 = b.as_micros();
    if x >= y {
        (x - y) as u128
    } else {
        (y - x) as u128
    }
}

/// The elapsed time does not depend on the order of its arguments.
pub proof fn lemma_time_diff_symmetric(a: Timestamp, b: Timestamp)
    ensures
        spec_time_diff(a, b) == spec_time_diff(b, a),
{
}

/// The elapsed time is zero exactly between timestamps of the same instant.
pub proof fn lemma_time_diff_zero(a: Timestamp, b: Timestamp)
    ensures
        spec_time_diff(a, b) == 0 <==> a.micros() == b.micros(),
{
}

} // verus!
