//! Input samples as the kernel delivers them, and their classification.

use vstd::prelude::*;
use crate::time::Timestamp;

verus! {

/// Event type of synchronization markers.
pub const EV_SYN: u16 = 0;

/// Event type of relative-motion samples.
pub const EV_REL: u16 = 2;

/// Synchronization code that closes a frame of samples.
pub const SYN_REPORT: u16 = 0;

/// Synchronization code that reports an overrun of the kernel's event queue.
pub const SYN_DROPPED: u16 = 3;

/// Relative-motion code of the horizontal axis.
pub const REL_X: u16 = 0;

/// Relative-motion code of the vertical axis.
pub const REL_Y: u16 = 1;

/// The two axes whose motion is accelerated.
#[derive(Clone, Copy, Debug, PartialEq, Eq, Structural)]
pub enum Axis {
    X,
    Y,
}

/// What a sample means to the pipeline.
#[derive(Clone, Copy, Debug, PartialEq, Eq, Structural)]
pub enum SampleKind {
    /// Relative motion along one of the accelerated axes.
    Motion(Axis),
    /// The marker that closes a frame.
    FrameComplete,
    /// The marker that reports lost samples.
    BufferOverrun,
    /// Anything else; such a sample is forwarded as it is.
    Other,
}

/// One input event: its timestamp, the numeric event type and code, and its
/// value. For a relative-motion sample the value is the signed magnitude.
#[derive(Clone, Copy, Debug, PartialEq, Eq, Structural)]
pub struct InputSample {
    pub time: Timestamp,
    pub event_type: u16,
    pub code: u16,
    pub value: i32,
}

impl InputSample {
    /// The classification of a sample by its event type and code.
    pub open spec fn spec_kind(&self) -> SampleKind {
        if self.event_type == EV_REL && self.code == REL_X {
            SampleKind::Motion(Axis::X)
        } else if self.event_type == EV_REL && self.code == REL_Y {
            SampleKind::Motion(Axis::Y)
        } else if self.event_type == EV_SYN && self.code == SYN_REPORT {
            SampleKind::FrameComplete
        } else if self.event_type == EV_SYN && self.code == SYN_DROPPED {
            SampleKind::BufferOverrun
        } else {
            SampleKind::Other
        }
    }

    /// The sample reports relative motion along some axis.
    pub open spec fn spec_is_relative(&self) -> bool {
        self.event_type == EV_REL
    }

    /// The sample reports relative motion along the X or the Y axis.
    pub open spec fn spec_is_motion(&self) -> bool {
        self.event_type == EV_REL && (self.code == REL_X || self.code == REL_Y)
    }

    /// The same sample with another value.
    pub open spec fn spec_with_value(&self, value: i32) -> InputSample {
        InputSample { time: self.time, event_type: self.event_type, code: self.code, value }
    }

    /// A sample from its four fields.
    pub fn new(time: Timestamp, event_type: u16, code: u16, value: i32) -> (sample: InputSample)
        ensures
            sample == (InputSample { time, event_type, code, value }),
    {
        InputSample { time, event_type, code, value }
    }

    /// Classifies the sample.
    pub fn kind(&self) -> (kind: SampleKind)
        ensures
            kind == self.spec_kind(),
    {
        if self.event_type == EV_REL && self.code == REL_X {
            SampleKind::Motion(Axis::X)
        } else if self.event_type == EV_REL && self.code == REL_Y {
            SampleKind::Motion(Axis::Y)
        } else if self.event_type == EV_SYN && self.code == SYN_REPORT {
            SampleKind::FrameComplete
        } else if self.event_type == EV_SYN && self.code == SYN_DROPPED {
            SampleKind::BufferOverrun
        } else {
            SampleKind::Other
        }
    }

    /// Whether the sample reports relative motion along some axis.
    pub fn is_relative(&self) -> (relative: bool)
        ensures
            relative == self.spec_is_relative(),
    {
        self.event_type == EV_REL
    }

    /// Whether the sample reports relative motion along the X or the Y axis.
    pub fn is_motion(&self) -> (motion: bool)
        ensures
            motion == self.spec_is_motion(),
            motion == (self.spec_kind() is Motion),
    {
        self.event_type == EV_REL && (self.code == REL_X || self.code == REL_Y)
    }
}

} // verus!
