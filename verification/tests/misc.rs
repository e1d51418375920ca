use std::cell::RefCell;

use sample_changer::config::{default_gripper_poll_hz, default_map_source_pv, GripperMode};
use sample_changer::error::SequencerError;
use sample_changer::gripper::{RbvLatch, RbvSink};
use sample_changer::motion::{accepted, NOT_ACCEPTED};
use sample_changer::text::{decimal, split_chars, chars_of, trim};

struct Recorder(RefCell<Vec<i32>>);

impl RbvSink for Recorder {
    fn write_gripper_rbv(&self, value: i32) {
        self.0.borrow_mut().push(value);
    }
}

#[test]
fn the_readback_is_written_only_when_the_fingers_cross() {
    let sink = Recorder(RefCell::new(Vec::new()));
    let mut latch = RbvLatch::new();
    for (side, want) in [
        (true, Some(1)),
        (true, None),
        (false, Some(0)),
        (false, None),
        (true, Some(1)),
    ] {
        let write = latch.update_rbv(side);
        assert_eq!(write, want);
        if let Some(value) = write {
            sink.write_gripper_rbv(value);
        }
    }
    assert_eq!(*sink.0.borrow(), vec![1, 0, 1]);
}

#[test]
fn a_refused_write_names_the_missing_program() {
    assert!(accepted(Ok(true), "movej", "holder standby").is_ok());
    let refused = accepted(Ok(false), "movej", "holder standby").unwrap_err();
    assert_eq!(refused.0, format!("movej: holder standby{NOT_ACCEPTED}"));
    let failed = accepted(Err("socket closed".to_string()), "servoj", "probe").unwrap_err();
    assert_eq!(failed.message(), "servoj: probe: socket closed");
}

#[test]
fn config_defaults() {
    assert_eq!(default_map_source_pv(), "Robot:MapSource");
    assert_eq!(default_gripper_poll_hz(), 50);
    assert_ne!(GripperMode::Hande, GripperMode::Simulated);
    let e = SequencerError("x".to_string());
    assert_eq!(e.message(), "x");
}

#[test]
fn numbers_and_text_helpers() {
    assert_eq!(decimal(0), "0");
    assert_eq!(decimal(-42), "-42");
    assert_eq!(decimal(i64::MIN), "-9223372036854775808");
    assert_eq!(decimal(i64::MAX), "9223372036854775807");
    assert_eq!(trim("  a b \t"), "a b");
    assert_eq!(
        split_chars(&chars_of("a,,b,"), ','),
        vec!["a".to_string(), String::new(), "b".to_string(), String::new()]
    );
}
