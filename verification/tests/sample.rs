use pointer_accel::sample::{
    Axis, InputSample, SampleKind, EV_REL, EV_SYN, REL_X, REL_Y, SYN_DROPPED, SYN_REPORT,
};
use pointer_accel::time::Timestamp;

fn at(event_type: u16, code: u16) -> InputSample {
    InputSample::new(Timestamp::new(1, 2), event_type, code, 3)
}

#[test]
fn event_numbers_are_those_of_the_kernel() {
    assert_eq!(EV_SYN, 0);
    assert_eq!(EV_REL, 2);
    assert_eq!(SYN_REPORT, 0);
    assert_eq!(SYN_DROPPED, 3);
    assert_eq!(REL_X, 0);
    assert_eq!(REL_Y, 1);
}

#[test]
fn new_sample_holds_its_fields() {
    let sample = InputSample::new(Timestamp::new(9, 8), 7, 6, -5);
    assert_eq!(sample.time, Timestamp::new(9, 8));
    assert_eq!(sample.event_type, 7);
    assert_eq!(sample.code, 6);
    assert_eq!(sample.value, -5);
}

#[test]
fn motion_along_x_and_y_is_classified_by_axis() {
    assert_eq!(at(EV_REL, REL_X).kind(), SampleKind::Motion(Axis::X));
    assert_eq!(at(EV_REL, REL_Y).kind(), SampleKind::Motion(Axis::Y));
    assert!(at(EV_REL, REL_X).is_motion());
    assert!(at(EV_REL, REL_Y).is_motion());
}

#[test]
fn synchronization_markers_are_told_apart() {
    assert_eq!(at(EV_SYN, SYN_REPORT).kind(), SampleKind::FrameComplete);
    assert_eq!(at(EV_SYN, SYN_DROPPED).kind(), SampleKind::BufferOverrun);
    // SYN_CONFIG and SYN_MT_REPORT are neither.
    assert_eq!(at(EV_SYN, 1).kind(), SampleKind::Other);
    assert_eq!(at(EV_SYN, 2).kind(), SampleKind::Other);
    assert!(!at(EV_SYN, SYN_REPORT).is_motion());
    assert!(!at(EV_SYN, SYN_DROPPED).is_motion());
}

#[test]
fn everything_else_is_other() {
    // A wheel, a button, an absolute axis, an unknown type.
    assert_eq!(at(EV_REL, 8).kind(), SampleKind::Other);
    assert_eq!(at(1, 272).kind(), SampleKind::Other);
    assert_eq!(at(3, 0).kind(), SampleKind::Other);
    assert_eq!(at(u16::MAX, u16::MAX).kind(), SampleKind::Other);
    assert!(!at(EV_REL, 8).is_motion());
    assert!(!at(1, 0).is_motion());
}

#[test]
fn every_relative_axis_is_relative() {
    assert!(at(EV_REL, REL_X).is_relative());
    assert!(at(EV_REL, 8).is_relative());
    assert!(at(EV_REL, u16::MAX).is_relative());
    assert!(!at(EV_SYN, SYN_REPORT).is_relative());
    assert!(!at(1, 0).is_relative());
}
