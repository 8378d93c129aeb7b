//! The frame tracker: it remembers when the last frame was completed.

use vstd::prelude::*;
use crate::time::Timestamp;

verus! {

/// Holds the timestamp of the most recent frame-complete marker. Until one
/// is recorded it holds the zero timestamp.
#[derive(Debug)]
pub struct FrameTracker {
    last: Timestamp,
}

impl View for FrameTracker {
    type V = Timestamp;

    /// The recorded timestamp.
    closed spec fn view(&self) -> Timestamp {
        self.last
    }
}

impl FrameTracker {
    /// A tracker that has seen no frame yet.
    pub fn new() -> (tracker: FrameTracker)
        ensures
            tracker@ == (Timestamp { sec: 0, usec: 0 }),
    {
        FrameTracker { last: Timestamp::zero() }
    }

    /// The timestamp recorded last.
    pub fn current(&self) -> (time: Timestamp)
        ensures
            time == self@,
    {
        self.last
    }

    /// Replaces the recorded timestamp.
    pub fn record(&mut self, time: Timestamp)
        ensures
            final(self)@ == time,
    {
        self.last = time;
    }
}

} // verus!
