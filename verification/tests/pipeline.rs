use pointer_accel::curve::AccelerationParameters;
use pointer_accel::pipeline::{Action, Emission, Event, Pipeline, PipelineState, StopReason};
use pointer_accel::sample::{InputSample, EV_REL, EV_SYN, REL_X, REL_Y, SYN_DROPPED, SYN_REPORT};
use pointer_accel::time::Timestamp;

const EV_KEY: u16 = 1;
const BTN_LEFT: u16 = 272;
const REL_WHEEL: u16 = 8;

fn ms(millis: i64) -> Timestamp {
    Timestamp::new(100 + millis / 1000, (millis % 1000) * 1000)
}

fn motion_x(millis: i64, value: i32) -> InputSample {
    InputSample::new(ms(millis), EV_REL, REL_X, value)
}

fn motion_y(millis: i64, value: i32) -> InputSample {
    InputSample::new(ms(millis), EV_REL, REL_Y, value)
}

fn frame(millis: i64) -> InputSample {
    InputSample::new(ms(millis), EV_SYN, SYN_REPORT, 0)
}

fn overrun(millis: i64) -> InputSample {
    InputSample::new(ms(millis), EV_SYN, SYN_DROPPED, 0)
}

fn button(millis: i64, value: i32) -> InputSample {
    InputSample::new(ms(millis), EV_KEY, BTN_LEFT, value)
}

fn wheel(millis: i64, value: i32) -> InputSample {
    InputSample::new(ms(millis), EV_REL, REL_WHEEL, value)
}

fn forwarded(sample: InputSample) -> Action {
    Action::Emit(Emission { sample, degenerate: false })
}

fn running() -> Pipeline {
    let mut pipeline = Pipeline::new(AccelerationParameters::default());
    assert_eq!(pipeline.handle(Event::Acquired), Action::Read);
    pipeline
}

#[test]
fn new_pipeline_is_idle_and_has_seen_no_frame() {
    let params = AccelerationParameters::default();
    let pipeline = Pipeline::new(params);
    assert_eq!(pipeline.state(), PipelineState::Idle);
    assert_eq!(pipeline.last_frame(), Timestamp::zero());
    assert_eq!(pipeline.params(), params);
    assert!(!pipeline.is_terminated());
}

#[test]
fn awaited_action_follows_the_state() {
    let mut pipeline = Pipeline::new(AccelerationParameters::default());
    assert_eq!(pipeline.awaited(), Action::Acquire);
    pipeline.handle(Event::Acquired);
    assert_eq!(pipeline.awaited(), Action::Read);
    pipeline.handle(Event::Sample(motion_x(1, 5)));
    assert_eq!(pipeline.awaited(), Action::Read);
    pipeline.handle(Event::ReadFailed);
    assert_eq!(pipeline.awaited(), Action::Exit(StopReason::ReadFailed));
}

#[test]
fn acquisition_starts_the_pipeline() {
    let mut pipeline = Pipeline::new(AccelerationParameters::default());
    assert_eq!(pipeline.handle(Event::Acquired), Action::Read);
    assert_eq!(pipeline.state(), PipelineState::Running);
}

#[test]
fn failed_acquisition_is_fatal() {
    let mut pipeline = Pipeline::new(AccelerationParameters::default());
    assert_eq!(pipeline.handle(Event::AcquireFailed), Action::Exit(StopReason::AcquireFailed));
    assert_eq!(pipeline.state(), PipelineState::Terminated(StopReason::AcquireFailed));
    assert!(pipeline.is_terminated());
    assert_eq!(pipeline.handle(Event::Acquired), Action::Exit(StopReason::AcquireFailed));
}

#[test]
fn idle_pipeline_asks_for_acquisition_and_emits_nothing() {
    let mut pipeline = Pipeline::new(AccelerationParameters::default());
    assert_eq!(pipeline.handle(Event::Sample(motion_x(0, 5))), Action::Acquire);
    assert_eq!(pipeline.handle(Event::Sample(frame(0))), Action::Acquire);
    assert_eq!(pipeline.handle(Event::ReadFailed), Action::Acquire);
    assert_eq!(pipeline.handle(Event::EmitFailed), Action::Acquire);
    assert_eq!(pipeline.state(), PipelineState::Idle);
    assert_eq!(pipeline.last_frame(), Timestamp::zero());
}

#[test]
fn running_pipeline_ignores_acquisition_events() {
    let mut pipeline = running();
    assert_eq!(pipeline.handle(Event::Acquired), Action::Read);
    assert_eq!(pipeline.handle(Event::AcquireFailed), Action::Read);
    assert_eq!(pipeline.state(), PipelineState::Running);
}

#[test]
fn read_failure_is_fatal() {
    let mut pipeline = running();
    assert_eq!(pipeline.handle(Event::ReadFailed), Action::Exit(StopReason::ReadFailed));
    assert_eq!(pipeline.state(), PipelineState::Terminated(StopReason::ReadFailed));
}

#[test]
fn emit_failure_is_fatal() {
    let mut pipeline = running();
    assert_eq!(pipeline.handle(Event::Sample(frame(0))), forwarded(frame(0)));
    assert_eq!(pipeline.handle(Event::EmitFailed), Action::Exit(StopReason::EmitFailed));
    assert_eq!(pipeline.state(), PipelineState::Terminated(StopReason::EmitFailed));
}

#[test]
fn frame_marker_is_recorded_and_forwarded() {
    let mut pipeline = running();
    assert_eq!(pipeline.handle(Event::Sample(frame(250))), forwarded(frame(250)));
    assert_eq!(pipeline.last_frame(), ms(250));
    assert_eq!(pipeline.handle(Event::Sample(frame(258))), forwarded(frame(258)));
    assert_eq!(pipeline.last_frame(), ms(258));
}

#[test]
fn only_frame_markers_move_the_frame_time() {
    let mut pipeline = running();
    pipeline.handle(Event::Sample(frame(10)));
    pipeline.handle(Event::Sample(motion_x(18, 5)));
    pipeline.handle(Event::Sample(button(19, 1)));
    pipeline.handle(Event::Sample(wheel(20, -1)));
    assert_eq!(pipeline.last_frame(), ms(10));
}

#[test]
fn motion_is_scaled_by_the_time_since_the_last_frame() {
    let mut pipeline = running();
    pipeline.handle(Event::Sample(frame(0)));
    // 5 counts, 8 ms after the frame: velocity 0.625, multiplier 0.7625, 3.8125 rounds to 4.
    assert_eq!(pipeline.handle(Event::Sample(motion_x(8, 5))), forwarded(motion_x(8, 4)));
    // 1000 counts, 1 ms after the next frame: the ceiling applies.
    pipeline.handle(Event::Sample(frame(8)));
    assert_eq!(pipeline.handle(Event::Sample(motion_y(9, -1000))), forwarded(motion_y(9, -1500)));
}

#[test]
fn motion_samples_of_one_frame_share_the_elapsed_time() {
    let mut pipeline = running();
    pipeline.handle(Event::Sample(frame(0)));
    // Both are measured against the frame at 0 ms, not against each other.
    assert_eq!(pipeline.handle(Event::Sample(motion_x(8, 5))), forwarded(motion_x(8, 4)));
    assert_eq!(pipeline.handle(Event::Sample(motion_y(8, -3))), forwarded(motion_y(8, -2)));
    assert_eq!(pipeline.last_frame(), ms(0));
}

#[test]
fn elapsed_time_does_not_depend_on_which_came_first() {
    let mut pipeline = running();
    pipeline.handle(Event::Sample(frame(8)));
    // The sample carries an earlier time than the frame marker.
    assert_eq!(pipeline.handle(Event::Sample(motion_x(0, 5))), forwarded(motion_x(0, 4)));
}

#[test]
fn motion_at_the_time_of_the_frame_is_degenerate() {
    let mut pipeline = running();
    pipeline.handle(Event::Sample(frame(40)));
    let action = pipeline.handle(Event::Sample(motion_x(40, 1000)));
    assert_eq!(action, Action::Emit(Emission { sample: motion_x(40, 1000), degenerate: true }));
    assert_eq!(pipeline.state(), PipelineState::Running);
}

#[test]
fn motion_before_any_frame_is_measured_from_the_zero_timestamp() {
    let mut pipeline = running();
    let first = InputSample::new(Timestamp::new(0, 8_000), EV_REL, REL_X, 5);
    let expected = InputSample::new(Timestamp::new(0, 8_000), EV_REL, REL_X, 4);
    assert_eq!(pipeline.handle(Event::Sample(first)), forwarded(expected));
    let at_zero = InputSample::new(Timestamp::zero(), EV_REL, REL_X, 5);
    assert_eq!(
        pipeline.handle(Event::Sample(at_zero)),
        Action::Emit(Emission { sample: at_zero, degenerate: true })
    );
}

#[test]
fn other_samples_pass_through_unchanged() {
    let mut pipeline = running();
    pipeline.handle(Event::Sample(frame(0)));
    let others = [
        button(1, 1),
        button(2, 0),
        wheel(3, -1),
        InputSample::new(ms(4), EV_SYN, 2, 0),
        InputSample::new(ms(5), 4, 4, 589_825),
        InputSample::new(ms(6), u16::MAX, u16::MAX, i32::MIN),
    ];
    for sample in others {
        assert_eq!(pipeline.handle(Event::Sample(sample)), forwarded(sample));
    }
    assert_eq!(pipeline.last_frame(), ms(0));
}

#[test]
fn buffer_overrun_terminates_the_pipeline() {
    let mut pipeline = running();
    pipeline.handle(Event::Sample(frame(0)));
    assert_eq!(
        pipeline.handle(Event::Sample(overrun(1))),
        Action::Exit(StopReason::BufferOverrun)
    );
    assert_eq!(pipeline.state(), PipelineState::Terminated(StopReason::BufferOverrun));
    assert!(pipeline.is_terminated());
}

#[test]
fn nothing_is_emitted_after_a_buffer_overrun() {
    let mut pipeline = running();
    pipeline.handle(Event::Sample(overrun(1)));
    let later = [
        Event::Sample(motion_x(2, 5)),
        Event::Sample(frame(2)),
        Event::Sample(button(3, 1)),
        Event::Acquired,
        Event::ReadFailed,
        Event::EmitFailed,
    ];
    for event in later {
        assert_eq!(pipeline.handle(event), Action::Exit(StopReason::BufferOverrun));
    }
    assert_eq!(pipeline.last_frame(), Timestamp::zero());
}

#[test]
fn feed_stops_emitting_at_a_buffer_overrun() {
    let mut pipeline = running();
    let samples = vec![
        frame(0),
        motion_x(8, 5),
        frame(8),
        overrun(9),
        motion_x(16, 5),
        frame(16),
        button(17, 1),
    ];
    let emitted = pipeline.feed(&samples);
    assert_eq!(
        emitted,
        vec![
            Emission { sample: frame(0), degenerate: false },
            Emission { sample: motion_x(8, 4), degenerate: false },
            Emission { sample: frame(8), degenerate: false },
        ]
    );
    assert_eq!(pipeline.state(), PipelineState::Terminated(StopReason::BufferOverrun));
    assert_eq!(pipeline.last_frame(), ms(8));
}

#[test]
fn feed_keeps_the_order_and_alters_motion_only() {
    let mut pipeline = running();
    let samples = vec![
        frame(0),
        motion_x(8, 5),
        motion_y(8, -3),
        frame(8),
        button(9, 1),
        motion_x(10, 40),
        wheel(10, 1),
        frame(10),
        motion_y(11, -1000),
        button(11, 0),
        frame(11),
        motion_x(11, 7),
        frame(12),
    ];
    let emitted = pipeline.feed(&samples);
    assert_eq!(emitted.len(), samples.len());
    for (emission, sample) in emitted.iter().zip(samples.iter()) {
        assert_eq!(emission.sample.time, sample.time);
        assert_eq!(emission.sample.event_type, sample.event_type);
        assert_eq!(emission.sample.code, sample.code);
        if !sample.is_motion() {
            assert_eq!(emission.sample, *sample);
            assert!(!emission.degenerate);
        }
    }
    let values: Vec<i32> = emitted.iter().map(|e| e.sample.value).collect();
    assert_eq!(values, vec![0, 4, -2, 0, 1, 46, 1, 0, -1500, 0, 0, 7, 0]);
    let degenerate: Vec<bool> = emitted.iter().map(|e| e.degenerate).collect();
    assert_eq!(
        degenerate,
        vec![
            false, false, false, false, false, false, false, false, false, false, false, true,
            false
        ]
    );
    assert_eq!(pipeline.state(), PipelineState::Running);
    assert_eq!(pipeline.last_frame(), ms(12));
}

#[test]
fn feed_is_the_same_as_handling_sample_by_sample() {
    let samples = vec![frame(0), motion_x(3, 12), button(3, 1), frame(4), motion_y(8, -7)];
    let mut fed = running();
    let emitted = fed.feed(&samples);
    let mut stepped = running();
    let mut collected: Vec<Emission> = Vec::new();
    for sample in &samples {
        if let Action::Emit(emission) = stepped.handle(Event::Sample(*sample)) {
            collected.push(emission);
        }
    }
    assert_eq!(emitted, collected);
    assert_eq!(fed.state(), stepped.state());
    assert_eq!(fed.last_frame(), stepped.last_frame());
}

#[test]
fn feed_in_two_parts_is_feed_of_the_whole() {
    let first = vec![frame(0), motion_x(8, 5), motion_y(8, -3)];
    let second = vec![frame(8), motion_x(10, 40), frame(10)];
    let mut whole = first.clone();
    whole.extend(second.iter().copied());
    let mut split = running();
    let mut emitted = split.feed(&first);
    emitted.extend(split.feed(&second));
    let mut joined = running();
    assert_eq!(joined.feed(&whole), emitted);
    assert_eq!(joined.last_frame(), split.last_frame());
}

#[test]
fn feed_of_no_samples_emits_nothing() {
    let mut pipeline = running();
    assert_eq!(pipeline.feed(&Vec::new()), Vec::new());
    assert_eq!(pipeline.state(), PipelineState::Running);
}

#[test]
fn feed_of_a_pipeline_that_is_not_running_emits_nothing() {
    let samples = vec![frame(0), motion_x(8, 5), button(9, 1)];
    let mut idle = Pipeline::new(AccelerationParameters::default());
    assert_eq!(idle.feed(&samples), Vec::new());
    assert_eq!(idle.state(), PipelineState::Idle);
    assert_eq!(idle.last_frame(), Timestamp::zero());
    let mut stopped = running();
    stopped.handle(Event::ReadFailed);
    assert_eq!(stopped.feed(&samples), Vec::new());
    assert_eq!(stopped.state(), PipelineState::Terminated(StopReason::ReadFailed));
}

#[test]
fn pipeline_uses_the_parameters_it_was_given() {
    let wide = AccelerationParameters::new(20_000, 2, 1_000_000, 3_000_000).unwrap();
    let mut pipeline = Pipeline::new(wide);
    pipeline.handle(Event::Acquired);
    pipeline.handle(Event::Sample(frame(0)));
    assert_eq!(pipeline.handle(Event::Sample(motion_x(1, 1000))), forwarded(motion_x(1, 3000)));
    assert_eq!(pipeline.params(), wide);
}
