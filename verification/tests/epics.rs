use sample_changer::epics::{
    decode_calib_mode, decode_gripper_cmd, decode_vision_kind, decode_holder, decode_jog, decode_map_source,
    decode_or_zero, decode_trigger, decode_wait, stringin_text, CalibMode, NullState, VisionKind,
    WaitStatus, STRINGIN_BYTES,
};

/// Every mode is classified, and the three that are not gated are
/// the three an operator reaches for when a run has already gone
/// wrong or when nothing is being carried.
#[test]
fn the_modes_that_drive_into_a_seat_are_the_ones_the_gripper_gate_covers() {
    for mode in [
        CalibMode::Normal,
        CalibMode::Holder,
        CalibMode::SampleHolder,
        CalibMode::GripNull,
        CalibMode::HolderTransfer,
    ] {
        assert!(mode.enters_a_seat(), "{mode:?} must be gated");
    }
    for mode in [CalibMode::Recover, CalibMode::HandEye, CalibMode::SeatProbe] {
        assert!(!mode.enters_a_seat(), "{mode:?} must stay ungated");
    }
}

#[test]
fn every_mode_reads_back_as_itself() {
    for mode in [
        CalibMode::Normal,
        CalibMode::Holder,
        CalibMode::SampleHolder,
        CalibMode::HandEye,
        CalibMode::Recover,
        CalibMode::SeatProbe,
        CalibMode::GripNull,
        CalibMode::HolderTransfer,
    ] {
        assert_eq!(decode_calib_mode(Some(mode.code())), mode);
    }
    assert_eq!(CalibMode::HolderTransfer.code(), 7);
    assert_eq!(decode_calib_mode(Some(8)), CalibMode::Normal);
    assert_eq!(decode_calib_mode(Some(-1)), CalibMode::Normal);
    assert_eq!(decode_calib_mode(None), CalibMode::Normal);
}

#[test]
fn the_wait_record_reads_like_the_cpp_node() {
    assert_eq!(decode_wait(Some(0)), WaitStatus::Waiting);
    assert_eq!(decode_wait(Some(1)), WaitStatus::Continue);
    assert_eq!(decode_wait(Some(2)), WaitStatus::Skip);
    assert_eq!(decode_wait(Some(9)), WaitStatus::Continue);
    assert_eq!(decode_wait(None), WaitStatus::Continue);
}

#[test]
fn failed_reads_fall_back_to_each_records_default() {
    assert_eq!(decode_trigger(None), -1);
    assert_eq!(decode_trigger(Some(1)), 1);
    assert_eq!(decode_or_zero(None), 0);
    assert_eq!(decode_or_zero(Some(13)), 13);
    assert_eq!(decode_holder(None), 1);
    assert_eq!(decode_holder(Some(4)), 4);
    assert_eq!(decode_gripper_cmd(None), -1);
    assert_eq!(decode_gripper_cmd(Some(0)), 0);
    assert_eq!(decode_jog(None), (0, false));
    assert_eq!(decode_jog(Some(3)), (3, true));
    assert_eq!(decode_jog(Some(0)), (0, false));
}

#[test]
fn a_map_source_outside_the_seats_reads_as_the_stage() {
    assert_eq!(decode_map_source(Some(0)), 0);
    assert_eq!(decode_map_source(Some(10)), 10);
    assert_eq!(decode_map_source(Some(11)), 0);
    assert_eq!(decode_map_source(Some(-3)), 0);
    assert_eq!(decode_map_source(None), 0);
}

#[test]
fn the_other_enums_publish_their_numbers() {
    assert_eq!(VisionKind::PickAlign.code(), 1);
    assert_eq!(VisionKind::Seating.code(), 4);
    assert_eq!(NullState::Idle.code(), 0);
    assert_eq!(NullState::Failed.code(), 3);
}

#[test]
fn a_message_is_cut_to_the_stringin_record_on_a_character_boundary() {
    assert_eq!(stringin_text("short"), "short");
    let long = "x".repeat(50);
    assert_eq!(stringin_text(&long), "x".repeat(STRINGIN_BYTES));
    // 19 two-byte characters are 38 bytes; a 20th would make 40.
    let wide = "\u{e9}".repeat(25);
    let cut = stringin_text(&wide);
    assert_eq!(cut, "\u{e9}".repeat(19));
    assert!(cut.len() <= STRINGIN_BYTES);
    assert_eq!(stringin_text(""), "");
}

#[test]
fn vision_kinds_read_back_from_their_codes() {
    for kind in [
        VisionKind::PickAlign,
        VisionKind::GripOffset,
        VisionKind::PlaceAlign,
        VisionKind::Seating,
    ] {
        assert_eq!(decode_vision_kind(kind.code()), Some(kind));
    }
    assert_eq!(decode_vision_kind(0), None);
    assert_eq!(decode_vision_kind(5), None);
    assert_eq!(VisionKind::GripOffset.label(), "GripOffset");
    assert_eq!(VisionKind::Seating.label(), "Seating");
}
