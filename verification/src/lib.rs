//! Velocity-dependent pointer acceleration for kernel input events.
//!
//! The crate holds the decision logic of an event-forwarding pipeline: it
//! measures the time since the last synchronization frame, estimates the
//! pointer velocity, maps it through a saturating acceleration curve and
//! scales the magnitude of relative-motion samples. A driver around it reads
//! the samples from a grabbed device and writes them to a virtual one.
//!
//! All arithmetic is exact over integers: velocities and multipliers are
//! ratios, and a product is rounded once. No function panics. Every function
//! states what it computes in a contract over a mathematical model, and the
//! laws of the curve, of the transformation and of the pipeline are proved
//! from those models:
//!
//! * [`time`]: timestamps and the elapsed time between two of them;
//! * [`tracker`]: the time of the last completed frame;
//! * [`ratio`]: ratios of integers and rounding;
//! * [`curve`]: the acceleration curve, its parameters, velocities and
//!   multipliers;
//! * [`sample`]: input samples and their classification;
//! * [`transform`]: velocity estimate and scaling of one motion sample;
//! * [`pipeline`]: the state machine that a driver runs.

pub mod curve;
pub mod pipeline;
pub mod ratio;
pub mod sample;
pub mod time;
pub mod tracker;
pub mod transform;
