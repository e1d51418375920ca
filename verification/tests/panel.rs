use sample_changer::calib::{row_name, slot_for, COLS, ROWS};
use sample_changer::camera::infer_dims;
use sample_changer::ops::{
    apply_label, confirm_lines, hold_line, needs_confirmation, normalized_null_source,
    null_state_label, plan_for, seat_chip, seat_name, transfer_allowed, Action, Chip, OpsPv,
    RECOVER_WARNING,
};
use sample_changer::pvs::{cam, mode_name, robot, seat_state_name, state_name, step_name, MODE_NAMES};
use sample_changer::yamledit::Slot;

#[test]
fn addresses_carry_the_channel_access_prefix() {
    assert_eq!(robot("State"), "ca://Robot:State");
    assert_eq!(cam("Acquire"), "ca://RS405:Acquire");
}

#[test]
fn the_record_labels_follow_the_database_numbering() {
    assert_eq!(state_name(0), "idle");
    assert_eq!(state_name(2), "measurement wait");
    assert_eq!(state_name(4), "hold");
    assert_eq!(state_name(5), "?");
    assert_eq!(state_name(-1), "?");
    assert_eq!(seat_state_name(1), "empty");
    assert_eq!(seat_state_name(2), "occupied");
    assert_eq!(
        seat_state_name(0),
        "nothing has looked there since the IOC started"
    );
    assert_eq!(step_name(0), "open gripper");
    assert_eq!(step_name(12), "stage standby \u{2014} waiting");
    assert_eq!(step_name(23), "holder standby");
    assert_eq!(step_name(24), "");
    assert_eq!(mode_name(6), Some("Grip Null"));
    assert_eq!(mode_name(8), None);
    assert_eq!(mode_name(-1), None);
    assert_eq!(MODE_NAMES[7], "Holder Transfer");
}

#[test]
fn seats_are_named_stage_then_holders() {
    assert_eq!(seat_name(0), "stage");
    assert_eq!(seat_name(7), "holder 7");
}

#[test]
fn each_action_describes_itself() {
    assert_eq!(Action::Mount(3).describe(), "Mount holder 3 on the stage");
    assert_eq!(Action::Return(10).describe(), "Return the sample to holder 10");
    assert_eq!(
        Action::GripNull { target: 4, source: 0 }.describe(),
        "Null the grip wrench at holder 4 and write its trims"
    );
    assert_eq!(
        Action::GripNull { target: 0, source: 5 }.describe(),
        "Null the grip wrench at stage and write its trims (fetching holder 5's puck first)"
    );
    assert_eq!(
        Action::Transfer { target: 2, source: 9 }.describe(),
        "Move the puck from holder 9 to holder 2"
    );
    assert_eq!(
        Action::Hold { holder: 6, at_stage: true }.describe(),
        "Carry holder 6's puck to the stage and hold there for jogging"
    );
    assert_eq!(
        Action::Hold { holder: 6, at_stage: false }.describe(),
        "Pick holder 6's puck and hold above that seat for jogging"
    );
    assert_eq!(
        Action::Advanced { mode: 5, start: 3 }.describe(),
        "Trigger mode 5 (Seat Probe) from step 3"
    );
    assert_eq!(
        Action::Advanced { mode: 9, start: 0 }.describe(),
        "Trigger mode 9 (?) from step 0"
    );
    assert_eq!(Action::Recover.describe(), "Recover to holder standby");
}

#[test]
fn a_mount_writes_its_records_and_triggers_last() {
    let plan = plan_for(&Action::Mount(3));
    assert_eq!(
        plan.puts,
        vec![
            (OpsPv::Holder, 3),
            (OpsPv::CalibMode, 0),
            (OpsPv::StartStep, 0),
            (OpsPv::PauseStep, 0),
            (OpsPv::Wait, 0),
            (OpsPv::Trigger, 1),
        ]
    );
    assert!(plan.resets_pause_input);
    assert_eq!(plan.note, "Mounting holder 3 on the stage...");
}

#[test]
fn a_return_enters_at_the_retrieval_leg() {
    let plan = plan_for(&Action::Return(2));
    assert_eq!(plan.puts[2], (OpsPv::StartStep, 13));
    assert_eq!(
        plan.note,
        "Retrieving the sample from the stage back to holder 2..."
    );
}

#[test]
fn a_grip_null_from_its_own_seat_asks_for_no_puck() {
    let plan = plan_for(&Action::GripNull { target: 4, source: 4 });
    assert_eq!(plan.puts[1], (OpsPv::MapSource, 0));
    assert_eq!(plan.puts[2], (OpsPv::CalibMode, 6));
    assert_eq!(
        plan.note,
        "Nulling holder 4 \u{2014} it picks and reseats that seat's own puck once per iteration and writes the trims to taught_waypoints.yaml"
    );
    let fetch = plan_for(&Action::GripNull { target: 0, source: 8 });
    assert_eq!(fetch.puts[1], (OpsPv::MapSource, 8));
    assert_eq!(
        fetch.note,
        "Fetching holder 8's puck into stage, then nulling there \u{2014} the puck is left in stage"
    );
}

#[test]
fn a_hold_clears_wait_before_its_trigger() {
    let plan = plan_for(&Action::Hold { holder: 5, at_stage: true });
    assert_eq!(
        plan.puts,
        vec![
            (OpsPv::Holder, 5),
            (OpsPv::CalibMode, 2),
            (OpsPv::StartStep, 0),
            (OpsPv::PauseStep, 0),
            (OpsPv::Wait, 0),
            (OpsPv::Trigger, 1),
        ]
    );
    let above = plan_for(&Action::Hold { holder: 3, at_stage: false });
    assert_eq!(above.puts[1], (OpsPv::CalibMode, 1));
    assert_eq!(above.puts[4], (OpsPv::Wait, 0));
    assert!(plan.note.starts_with("Carrying holder 5's puck to the stage"));
}

#[test]
fn advanced_and_recover_leave_the_pause_step_alone() {
    let adv = plan_for(&Action::Advanced { mode: 1, start: 7 });
    assert_eq!(
        adv.puts,
        vec![
            (OpsPv::CalibMode, 1),
            (OpsPv::StartStep, 7),
            (OpsPv::Wait, 0),
            (OpsPv::Trigger, 1),
        ]
    );
    assert!(!adv.resets_pause_input);
    assert_eq!(adv.note, "Triggered mode 1 from step 7");
    let rec = plan_for(&Action::Recover);
    assert_eq!(
        rec.puts,
        vec![(OpsPv::CalibMode, 4), (OpsPv::Wait, 0), (OpsPv::Trigger, 1)]
    );
    assert!(!rec.resets_pause_input);
    assert_eq!(rec.note, "Recovering to holder standby...");
    let tr = plan_for(&Action::Transfer { target: 1, source: 3 });
    assert_eq!(tr.puts[2], (OpsPv::CalibMode, 7));
    assert_eq!(
        tr.note,
        "Moving the puck from holder 3 to holder 1 \u{2014} straight across, no stage leg and no probe"
    );
}

#[test]
fn only_an_idle_panel_skips_the_confirmation() {
    assert!(!needs_confirmation(Some(0), &Action::Mount(1)));
    assert!(!needs_confirmation(None, &Action::Mount(1)));
    assert!(needs_confirmation(Some(4), &Action::Mount(1)));
    assert!(needs_confirmation(Some(0), &Action::Recover));
}

#[test]
fn the_confirmation_names_the_step_and_the_action() {
    assert_eq!(confirm_lines(0, &Action::Mount(2)), vec!["Mount holder 2 on the stage?".to_string()]);
    assert_eq!(
        confirm_lines(4, &Action::Recover),
        vec![
            "CurrentStep is 4 (grip puck): a sequence is running or was interrupted there.".to_string(),
            RECOVER_WARNING.to_string(),
            "Recover to holder standby?".to_string(),
        ]
    );
}

#[test]
fn seat_fields_normalise_like_the_panel() {
    assert_eq!(normalized_null_source(3, 3), 0);
    assert_eq!(normalized_null_source(3, 5), 5);
    assert!(transfer_allowed(1, 2));
    assert!(!transfer_allowed(2, 2));
}

#[test]
fn the_null_state_row_names_each_state() {
    assert_eq!(null_state_label(0), "idle");
    assert_eq!(null_state_label(1), "running");
    assert_eq!(null_state_label(2), "SETTLED");
    assert_eq!(null_state_label(3), "FAILED");
    assert_eq!(null_state_label(9), "idle");
}

#[test]
fn seat_chips_only_trust_a_connected_record() {
    assert_eq!(
        seat_chip(0, 2, true),
        ("stage".to_string(), Chip::Puck, "occupied")
    );
    assert_eq!(seat_chip(3, 1, true), ("3".to_string(), Chip::Empty, "empty"));
    assert_eq!(
        seat_chip(3, 0, true),
        (
            "3".to_string(),
            Chip::Unknown,
            "nothing has looked there since the IOC started"
        )
    );
    assert_eq!(
        seat_chip(10, 2, false),
        (
            "10".to_string(),
            Chip::Unknown,
            "no Robot:Seat: record \u{2014} restart the IOC"
        )
    );
}

#[test]
fn the_hold_card_says_where_or_why_not() {
    assert_eq!(hold_line(true, "holder 3", ""), "Holding at holder 3 \u{2014} jog, then Apply");
    assert_eq!(hold_line(true, "", ""), "Holding \u{2014} jog, then Apply");
    assert_eq!(
        hold_line(false, "", "daemon is idle"),
        "No hold standing (daemon is idle)."
    );
    assert_eq!(apply_label(true, "stage", ""), "Apply to stage");
    assert_eq!(apply_label(true, "", ""), "Apply to this seat");
    assert_eq!(
        apply_label(false, "", "daemon not responding"),
        "Apply to seat trims (daemon not responding)"
    );
}

#[test]
fn each_calibration_cell_edits_its_own_slot() {
    assert_eq!(slot_for(0, 0), Some(Slot::Scalar("sample_holder_on_position_x_offset")));
    assert_eq!(slot_for(0, 2), Some(Slot::Scalar("sample_holder_on_position_z_offset")));
    assert_eq!(slot_for(0, 3), None);
    assert_eq!(slot_for(1, 3), Some(Slot::Scalar("holder_on_position_tilt_x_deg")));
    assert_eq!(slot_for(1, 4), Some(Slot::Scalar("holder_on_position_tilt_z_deg")));
    assert_eq!(slot_for(2, 0), Some(Slot::List("holder_multi_x_offsets", 0)));
    assert_eq!(slot_for(11, 4), Some(Slot::List("holder_multi_tilt_z_deg", 9)));
    assert_eq!(slot_for(5, 5), None);
    assert_eq!(COLS, 5);
    assert_eq!(ROWS, 12);
}

#[test]
fn rows_are_named_stage_rack_then_holders() {
    assert_eq!(row_name(0), "Stage");
    assert_eq!(row_name(1), "Rack");
    assert_eq!(row_name(2), "Holder 1");
    assert_eq!(row_name(11), "Holder 10");
}

#[test]
fn a_frame_size_names_its_stream_mode() {
    assert_eq!(infer_dims(640 * 480), Some((640, 480)));
    assert_eq!(infer_dims(1280 * 720), Some((1280, 720)));
    assert_eq!(infer_dims(848 * 480), Some((848, 480)));
    assert_eq!(infer_dims(424 * 240), Some((424, 240)));
    assert_eq!(infer_dims(320 * 240), Some((320, 240)));
    assert_eq!(infer_dims(1000), None);
    assert_eq!(infer_dims(0), None);
}
