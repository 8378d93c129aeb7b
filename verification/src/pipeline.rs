//! The device pipeline as a state machine.
//!
//! The pipeline decides; a driver around it performs the device work. The
//! driver hands every outcome of that work to [`Pipeline::handle`] as an
//! [`Event`] and carries out the [`Action`] that comes back:
//!
//! * `Acquire`: open and grab the physical device and create the virtual
//!   one, then report `Acquired` or `AcquireFailed`;
//! * `Read`: wait for the next sample and report it, or `ReadFailed`;
//! * `Emit`: write the sample to the virtual device, then go on as for
//!   `Read`, or report `EmitFailed`;
//! * `Exit`: stop; the pipeline has terminated for the reason given.

use vstd::prelude::*;
use crate::curve::{AccelerationParameters, Curve};
use crate::sample::{InputSample, SampleKind};
use crate::time::{spec_time_diff, time_diff, Timestamp};
use crate::tracker::FrameTracker;
use crate::transform::{lemma_transform_in_range, spec_transform, transform};

verus! {

/// Why a pipeline has terminated.
#[derive(Clone, Copy, Debug, PartialEq, Eq, Structural)]
pub enum StopReason {
    /// The kernel dropped samples; velocities can no longer be trusted.
    BufferOverrun,
    /// A device could not be opened, grabbed or created.
    AcquireFailed,
    /// Reading from the physical device failed.
    ReadFailed,
    /// Writing to the virtual device failed.
    EmitFailed,
}

/// The state of a pipeline.
#[derive(Clone, Copy, Debug, PartialEq, Eq, Structural)]
pub enum PipelineState {
    /// No device has been acquired yet.
    Idle,
    /// Samples are read, transformed and emitted.
    Running,
    /// The pipeline has stopped for good.
    Terminated(StopReason),
}

/// An outcome of the driver's work.
#[derive(Clone, Copy, Debug, PartialEq, Eq, Structural)]
pub enum Event {
    /// Both devices are ready.
    Acquired,
    /// A device could not be opened, grabbed or created.
    AcquireFailed,
    /// The physical device delivered a sample.
    Sample(InputSample),
    /// Reading from the physical device failed.
    ReadFailed,
    /// Writing to the virtual device failed.
    EmitFailed,
}

/// A sample on its way to the virtual device.
#[derive(Clone, Copy, Debug, PartialEq, Eq, Structural)]
pub struct Emission {
    /// The sample to write.
    pub sample: InputSample,
    /// The sample is a motion sample that arrived with no time elapsed since
    /// the last frame, so that its magnitude was left as it was.
    pub degenerate: bool,
}

/// What the driver has to do next.
#[derive(Clone, Copy, Debug, PartialEq, Eq, Structural)]
pub enum Action {
    /// Acquire the devices.
    Acquire,
    /// Wait for the next sample.
    Read,
    /// Write this sample, then wait for the next one.
    Emit(Emission),
    /// Stop.
    Exit(StopReason),
}

/// The mathematical state of a pipeline.
pub struct PipelineModel {
    pub state: PipelineState,
    /// Timestamp of the last frame-complete marker, zero before the first.
    pub last_frame: Timestamp,
    /// The curve that is applied to motion samples.
    pub curve: Curve,
}

impl PipelineModel {
    /// The same pipeline in another state.
    pub open spec fn with_state(self, state: PipelineState) -> PipelineModel {
        PipelineModel { state, last_frame: self.last_frame, curve: self.curve }
    }

    /// The same pipeline after a frame was completed at `time`.
    pub open spec fn with_frame(self, time: Timestamp) -> PipelineModel {
        PipelineModel { state: self.state, last_frame: time, curve: self.curve }
    }

    /// The same pipeline, terminated.
    pub open spec fn stopped(self, reason: StopReason) -> PipelineModel {
        self.with_state(PipelineState::Terminated(reason))
    }

    /// Time in microseconds between the last completed frame and a sample.
    pub open spec fn elapsed(self, sample: InputSample) -> nat {
        spec_time_diff(sample.time, self.last_frame)
    }
}

/// The sample that a running pipeline emits for a motion sample.
pub open spec fn spec_accelerated(m: PipelineModel, sample: InputSample) -> Emission {
    Emission {
        sample: sample.spec_with_value(
            spec_transform(m.curve, sample.value as int, m.elapsed(sample) as int) as i32,
        ),
        degenerate: m.elapsed(sample) == 0,
    }
}

/// A sample emitted as it arrived.
pub open spec fn spec_forwarded(sample: InputSample) -> Emission {
    Emission { sample, degenerate: false }
}

/// What a running pipeline does with a sample.
pub open spec fn spec_on_sample(m: PipelineModel, sample: InputSample) -> (PipelineModel, Action) {
    match sample.spec_kind() {
        SampleKind::Motion(_) => (m, Action::Emit(spec_accelerated(m, sample))),
        SampleKind::FrameComplete => (
            m.with_frame(sample.time),
            Action::Emit(spec_forwarded(sample)),
        ),
        SampleKind::BufferOverrun => (
            m.stopped(StopReason::BufferOverrun),
            Action::Exit(StopReason::BufferOverrun),
        ),
        SampleKind::Other => (m, Action::Emit(spec_forwarded(sample))),
    }
}

/// What a pipeline in a given state is waiting for: an idle one for the
/// devices, a running one for a sample, a terminated one for the driver to
/// stop.
pub open spec fn spec_awaited(state: PipelineState) -> Action {
    match state {
        PipelineState::Idle => Action::Acquire,
        PipelineState::Running => Action::Read,
        PipelineState::Terminated(reason) => Action::Exit(reason),
    }
}

/// The transition function of the pipeline: the state after an event and
/// the action that the driver has to take.
///
/// An event that does not belong to the current state changes nothing; the
/// action then repeats what the state is waiting for.
pub open spec fn spec_handle(m: PipelineModel, event: Event) -> (PipelineModel, Action) {
    match (m.state, event) {
        (PipelineState::Idle, Event::Acquired) => (
            m.with_state(PipelineState::Running),
            Action::Read,
        ),
        (PipelineState::Idle, Event::AcquireFailed) => (
            m.stopped(StopReason::AcquireFailed),
            Action::Exit(StopReason::AcquireFailed),
        ),
        (PipelineState::Running, Event::Sample(sample)) => spec_on_sample(m, sample),
        (PipelineState::Running, Event::ReadFailed) => (
            m.stopped(StopReason::ReadFailed),
            Action::Exit(StopReason::ReadFailed),
        ),
        (PipelineState::Running, Event::EmitFailed) => (
            m.stopped(StopReason::EmitFailed),
            Action::Exit(StopReason::EmitFailed),
        ),
        _ => (m, spec_awaited(m.state)),
    }
}

/// What a pipeline emits for a sequence of samples that arrive one after
/// the other, and the state in which it is left.
pub open spec fn spec_feed(m: PipelineModel, samples: Seq<InputSample>) -> (
    PipelineModel,
    Seq<Emission>,
)
    decreases samples.len(),
{
    if samples.len() == 0 {
        (m, Seq::empty())
    } else {
        let (before, emitted) = spec_feed(m, samples.drop_last());
        let (after, action) = spec_handle(before, Event::Sample(samples.last()));
        match action {
            Action::Emit(emission) => (after, emitted.push(emission)),
            _ => (after, emitted),
        }
    }
}

/// The pipeline: its state, the frame tracker and the curve parameters.
#[derive(Debug)]
pub struct Pipeline {
    state: PipelineState,
    tracker: FrameTracker,
    params: AccelerationParameters,
}

impl View for Pipeline {
    type V = PipelineModel;

    closed spec fn view(&self) -> PipelineModel {
        PipelineModel { state: self.state, last_frame: self.tracker@, curve: self.params@ }
    }
}

impl Pipeline {
    /// An idle pipeline that has seen no frame.
    pub fn new(params: AccelerationParameters) -> (pipeline: Pipeline)
        ensures
            pipeline@ == (PipelineModel {
                state: PipelineState::Idle,
                last_frame: Timestamp { sec: 0, usec: 0 },
                curve: params@,
            }),
    {
        Pipeline { state: PipelineState::Idle, tracker: FrameTracker::new(), params }
    }

    /// What the pipeline is waiting for. A driver begins with this action.
    pub fn awaited(&self) -> (action: Action)
        ensures
            action == spec_awaited(self@.state),
    {
        match self.state {
            PipelineState::Idle => Action::Acquire,
            PipelineState::Running => Action::Read,
            PipelineState::Terminated(reason) => Action::Exit(reason),
        }
    }

    /// The current state.
    pub fn state(&self) -> (state: PipelineState)
        ensures
            state == self@.state,
    {
        self.state
    }

    /// The timestamp of the last completed frame.
    pub fn last_frame(&self) -> (time: Timestamp)
        ensures
            time == self@.last_frame,
    {
        self.tracker.current()
    }

    /// The curve parameters.
    pub fn params(&self) -> (params: AccelerationParameters)
        ensures
            params@ == self@.curve,
            params@.wf(),
    {
        proof {
            use_type_invariant(&self.params);
            self.params.lemma_valid();
        }
        self.params
    }

    /// Whether the pipeline has terminated.
    pub fn is_terminated(&self) -> (terminated: bool)
        ensures
            terminated == (self@.state is Terminated),
    {
        match self.state {
            PipelineState::Terminated(_) => true,
            _ => false,
        }
    }

    /// Takes one event and says what to do next, as [`spec_handle`] defines.
    pub fn handle(&mut self, event: Event) -> (action: Action)
        ensures
            (final(self)@, action) == spec_handle(old(self)@, event),
    {
        match (self.state, event) {
            (PipelineState::Idle, Event::Acquired) => {
                self.state = PipelineState::Running;
                Action::Read
            },
            (PipelineState::Idle, Event::AcquireFailed) => self.stop(StopReason::AcquireFailed),
            (PipelineState::Running, Event::Sample(sample)) => self.on_sample(sample),
            (PipelineState::Running, Event::ReadFailed) => self.stop(StopReason::ReadFailed),
            (PipelineState::Running, Event::EmitFailed) => self.stop(StopReason::EmitFailed),
            _ => self.awaited(),
        }
    }

    /// Handles the samples of a recorded sequence one after the other and
    /// returns what the pipeline emits for them, in order.
    pub fn feed(&mut self, samples: &Vec<InputSample>) -> (emitted: Vec<Emission>)
        ensures
            (final(self)@, emitted@) == spec_feed(old(self)@, samples@),
    {
        let ghost start = self@;
        let mut emitted: Vec<Emission> = Vec::new();
        let mut next: usize = 0;
        while next < samples.len()
            invariant
                next <= samples.len(),
                (self@, emitted@) == spec_feed(start, samples@.take(next as int)),
            decreases samples.len() - next,
        {
            let action = self.handle(Event::Sample(samples[next]));
            match action {
                Action::Emit(emission) => {
                    emitted.push(emission);
                },
                _ => {},
            }
            next = next + 1;
            proof {
                let taken = samples@.take(next as int);
                assert(taken.drop_last() == samples@.take(next - 1));
                assert(taken.last() == samples@[next - 1]);
            }
        }
        proof {
            assert(samples@.take(next as int) == samples@);
        }
        emitted
    }

    /// Terminates the pipeline.
    fn stop(&mut self, reason: StopReason) -> (action: Action)
        ensures
            final(self)@ == old(self)@.stopped(reason),
            action == Action::Exit(reason),
    {
        self.state = PipelineState::Terminated(reason);
        Action::Exit(reason)
    }

    /// Classifies a sample and treats it accordingly.
    fn on_sample(&mut self, sample: InputSample) -> (action: Action)
        ensures
            (final(self)@, action) == spec_on_sample(old(self)@, sample),
    {
        match sample.kind() {
            SampleKind::Motion(_) => {
                let last: Timestamp = self.tracker.current();
                let elapsed: u128 = time_diff(&sample.time, &last);
                let mut moved: InputSample = sample;
                let degenerate: bool = transform(&mut moved, elapsed, &self.params);
                Action::Emit(Emission { sample: moved, degenerate })
            },
            SampleKind::FrameComplete => {
                self.tracker.record(sample.time);
                Action::Emit(Emission { sample, degenerate: false })
            },
            SampleKind::BufferOverrun => self.stop(StopReason::BufferOverrun),
            SampleKind::Other => Action::Emit(Emission { sample, degenerate: false }),
        }
    }
}

/// The timestamp of the last frame-complete marker in a sequence of samples,
/// or `initial` where the sequence holds none.
pub open spec fn spec_last_frame(initial: Timestamp, samples: Seq<InputSample>) -> Timestamp
    decreases samples.len(),
{
    if samples.len() == 0 {
        initial
    } else if samples.last().spec_kind() is FrameComplete {
        samples.last().time
    } else {
        spec_last_frame(initial, samples.drop_last())
    }
}

/// No sample of the sequence is a buffer-overrun marker.
pub open spec fn spec_no_overrun(samples: Seq<InputSample>) -> bool {
    forall|i: int| 0 <= i < samples.len() ==> !((#[trigger] samples[i]).spec_kind() is BufferOverrun)
}

/// How far a state is along the life of a pipeline: idle, then running,
/// then terminated.
pub open spec fn spec_progress(state: PipelineState) -> nat {
    match state {
        PipelineState::Idle => 0,
        PipelineState::Running => 1,
        PipelineState::Terminated(_) => 2,
    }
}

/// A pipeline never goes back: no event leads from running to idle or out of
/// termination, and a pipeline leaves the idle state only by an acquisition
/// event.
pub proof fn lemma_states_only_advance(m: PipelineModel, event: Event)
    ensures
        spec_progress(m.state) <= spec_progress(spec_handle(m, event).0.state),
        m.state is Idle && spec_handle(m, event).0.state != m.state ==> event is Acquired
            || event is AcquireFailed,
        m.state is Idle && event is Acquired ==> spec_handle(m, event).0.state is Running,
{
}

/// A terminated pipeline stays as it is and answers every event with `Exit`.
pub proof fn lemma_terminated_is_final(m: PipelineModel, event: Event)
    requires
        m.state is Terminated,
    ensures
        spec_handle(m, event) == (m, Action::Exit(m.state->Terminated_0)),
        spec_handle(m, event).1 == spec_awaited(m.state),
{
}

/// Every failure of the device work is fatal, and none is tried again: a
/// failed acquisition terminates an idle pipeline, a failed read or write a
/// running one, each for its own reason.
pub proof fn lemma_failures_are_fatal(m: PipelineModel)
    ensures
        m.state is Idle ==> spec_handle(m, Event::AcquireFailed) == (
            m.stopped(StopReason::AcquireFailed),
            Action::Exit(StopReason::AcquireFailed),
        ),
        m.state is Running ==> spec_handle(m, Event::ReadFailed) == (
            m.stopped(StopReason::ReadFailed),
            Action::Exit(StopReason::ReadFailed),
        ),
        m.state is Running ==> spec_handle(m, Event::EmitFailed) == (
            m.stopped(StopReason::EmitFailed),
            Action::Exit(StopReason::EmitFailed),
        ),
{
}

/// A running pipeline emits a sample that is neither a motion sample nor a
/// buffer-overrun marker exactly as it arrived.
pub proof fn lemma_other_samples_pass_unchanged(m: PipelineModel, sample: InputSample)
    requires
        m.state is Running,
        !sample.spec_is_motion(),
        !(sample.spec_kind() is BufferOverrun),
    ensures
        spec_handle(m, Event::Sample(sample)).1 == Action::Emit(
            Emission { sample, degenerate: false },
        ),
{
}

/// A running pipeline answers every sample but a buffer-overrun marker with
/// exactly one emission, which differs from the sample in its value at most,
/// and it keeps running.
pub proof fn lemma_one_emission_per_sample(m: PipelineModel, sample: InputSample)
    requires
        m.state is Running,
        !(sample.spec_kind() is BufferOverrun),
    ensures
        spec_handle(m, Event::Sample(sample)).0.state is Running,
        spec_handle(m, Event::Sample(sample)).1 matches Action::Emit(emission)
            && emission.sample.time == sample.time
            && emission.sample.event_type == sample.event_type
            && emission.sample.code == sample.code
            && (emission.sample.value != sample.value ==> sample.spec_is_motion()),
{
}

/// The value that a pipeline with a well-formed curve emits for a motion
/// sample is the transformed magnitude itself: it fits the 32 bits of the
/// sample.
pub proof fn lemma_accelerated_value(m: PipelineModel, sample: InputSample)
    requires
        m.curve.wf(),
    ensures
        spec_accelerated(m, sample).sample.value == spec_transform(
            m.curve,
            sample.value as int,
            m.elapsed(sample) as int,
        ),
        m.elapsed(sample) == 0 ==> spec_accelerated(m, sample).sample == sample,
{
    lemma_transform_in_range(m.curve, sample.value as int, m.elapsed(sample) as int);
}

/// A buffer-overrun marker terminates a running pipeline and is not emitted.
pub proof fn lemma_overrun_terminates(m: PipelineModel, sample: InputSample)
    requires
        m.state is Running,
        sample.spec_kind() is BufferOverrun,
    ensures
        spec_handle(m, Event::Sample(sample)) == (
            m.stopped(StopReason::BufferOverrun),
            Action::Exit(StopReason::BufferOverrun),
        ),
{
}

/// The recorded frame time changes only when a running pipeline takes a
/// frame-complete marker, and then it becomes the time of that marker. The
/// curve parameters never change.
pub proof fn lemma_frame_time_follows_markers(m: PipelineModel, event: Event)
    ensures
        spec_handle(m, event).0.curve == m.curve,
        spec_handle(m, event).0.last_frame == if m.state is Running && event is Sample
            && event->Sample_0.spec_kind() is FrameComplete {
            event->Sample_0.time
        } else {
            m.last_frame
        },
{
}

/// A pipeline that is not running emits nothing and stays as it is.
pub proof fn lemma_feed_needs_running(m: PipelineModel, samples: Seq<InputSample>)
    requires
        !(m.state is Running),
    ensures
        spec_feed(m, samples) == (m, Seq::<Emission>::empty()),
    decreases samples.len(),
{
    if samples.len() > 0 {
        lemma_feed_needs_running(m, samples.drop_last());
    }
}

/// Feeding two sequences one after the other is feeding their concatenation:
/// nothing is held back between samples.
pub proof fn lemma_feed_concat(m: PipelineModel, first: Seq<InputSample>, second: Seq<InputSample>)
    ensures
        spec_feed(m, first + second) == ({
            let (between, head) = spec_feed(m, first);
            let (after, tail) = spec_feed(between, second);
            (after, head + tail)
        }),
    decreases second.len(),
{
    let (between, head) = spec_feed(m, first);
    if second.len() == 0 {
        assert(first + second == first);
        assert(head + Seq::<Emission>::empty() == head);
    } else {
        lemma_feed_concat(m, first, second.drop_last());
        assert((first + second).drop_last() == first + second.drop_last());
        assert((first + second).last() == second.last());
        let (before, tail) = spec_feed(between, second.drop_last());
        let (after, action) = spec_handle(before, Event::Sample(second.last()));
        match action {
            Action::Emit(emission) => {
                assert((head + tail).push(emission) == head + tail.push(emission));
            },
            _ => {},
        }
    }
}

/// The pipeline never emits more samples than it was fed.
pub proof fn lemma_feed_length(m: PipelineModel, samples: Seq<InputSample>)
    ensures
        spec_feed(m, samples).1.len() <= samples.len(),
    decreases samples.len(),
{
    if samples.len() > 0 {
        lemma_feed_length(m, samples.drop_last());
    }
}

/// Order and one-to-one mapping: a running pipeline that is fed samples
/// without a buffer-overrun marker keeps running and emits one sample for
/// each, in the order of arrival. Each emitted sample has the time, type and
/// code of the sample it stands for; a sample that is not a motion sample is
/// emitted unchanged; a motion sample is transformed with the time elapsed
/// since the last frame-complete marker before it.
pub proof fn lemma_feed_keeps_order(m: PipelineModel, samples: Seq<InputSample>)
    requires
        m.state is Running,
        spec_no_overrun(samples),
    ensures
        spec_feed(m, samples).0 == m.with_frame(spec_last_frame(m.last_frame, samples)),
        spec_feed(m, samples).1.len() == samples.len(),
        forall|i: int|
            0 <= i < samples.len() ==> {
                let emission = #[trigger] spec_feed(m, samples).1[i];
                let sample = samples[i];
                let before = m.with_frame(spec_last_frame(m.last_frame, samples.take(i)));
                &&& emission.sample.time == sample.time
                &&& emission.sample.event_type == sample.event_type
                &&& emission.sample.code == sample.code
                &&& !sample.spec_is_motion() ==> emission == spec_forwarded(sample)
                &&& sample.spec_is_motion() ==> emission == spec_accelerated(before, sample)
            },
    decreases samples.len(),
{
    if samples.len() > 0 {
        let front = samples.drop_last();
        let last = samples.last();
        assert(spec_no_overrun(front)) by {
            assert forall|i: int| 0 <= i < front.len() implies !((#[trigger] front[i]).spec_kind()
                is BufferOverrun) by {
                assert(front[i] == samples[i]);
            }
        }
        lemma_feed_keeps_order(m, front);
        let (before, emitted) = spec_feed(m, front);
        assert(!(last.spec_kind() is BufferOverrun)) by {
            assert(last == samples[samples.len() - 1]);
        }
        let all = spec_feed(m, samples).1;
        assert forall|i: int| 0 <= i < samples.len() implies ({
            let emission = #[trigger] all[i];
            let sample = samples[i];
            let state = m.with_frame(spec_last_frame(m.last_frame, samples.take(i)));
            &&& emission.sample.time == sample.time
            &&& emission.sample.event_type == sample.event_type
            &&& emission.sample.code == sample.code
            &&& !sample.spec_is_motion() ==> emission == spec_forwarded(sample)
            &&& sample.spec_is_motion() ==> emission == spec_accelerated(state, sample)
        }) by {
            if i < front.len() {
                assert(all[i] == emitted[i]);
                assert(samples[i] == front[i]);
                assert(samples.take(i) == front.take(i));
            } else {
                assert(samples.take(i) == front);
            }
        }
    }
}

/// A buffer-overrun marker ends the emission: a running pipeline that meets
/// its first such marker at position `at` terminates for that reason, and
/// what it has emitted is what it emitted for the `at` samples before the
/// marker; neither the marker nor any later sample is emitted.
pub proof fn lemma_feed_stops_at_overrun(m: PipelineModel, samples: Seq<InputSample>, at: int)
    requires
        m.state is Running,
        0 <= at < samples.len(),
        samples[at].spec_kind() is BufferOverrun,
        spec_no_overrun(samples.take(at)),
    ensures
        spec_feed(m, samples).0.state == PipelineState::Terminated(StopReason::BufferOverrun),
        spec_feed(m, samples).1 == spec_feed(m, samples.take(at)).1,
        spec_feed(m, samples).1.len() == at,
{
    let head = samples.take(at);
    let marker = seq![samples[at]];
    let rest = samples.skip(at + 1);
    assert(samples == head + (marker + rest));
    lemma_feed_keeps_order(m, head);
    let (running, emitted) = spec_feed(m, head);
    lemma_feed_concat(m, head, marker + rest);
    lemma_feed_concat(running, marker, rest);
    assert(spec_feed(running, marker) == (
        running.stopped(StopReason::BufferOverrun),
        Seq::<Emission>::empty(),
    )) by {
        assert(marker.drop_last() == Seq::<InputSample>::empty());
        assert(marker.last() == samples[at]);
        reveal_with_fuel(spec_feed, 2);
    }
    lemma_feed_needs_running(running.stopped(StopReason::BufferOverrun), rest);
    assert(emitted + (Seq::<Emission>::empty() + Seq::<Emission>::empty()) == emitted);
}

} // verus!
