//! PV addresses and the fixed labels of the robot database's enum-like
//! records.

use vstd::prelude::*;

verus! {

/// `ca://` prefix for every robot PV. The daemon's IOC serves these; the
/// panel finds them by broadcast search like every other client.
pub const ROBOT: &'static str = "ca://Robot:";

/// `ca://` prefix for the D405 camera IOC's control records. Only the
/// images travel over pvAccess; Acquire/ImageMode/state stay CA.
pub const CAM: &'static str = "ca://RS405:";

/// The full address of the robot record `suffix`.
pub fn robot(suffix: &str) -> (address: String)
    ensures
        address@ == ROBOT@ + suffix@,
{
    let mut out = String::from_str(ROBOT);
    out.append(suffix);
    out
}

/// The full address of the camera record `suffix`.
pub fn cam(suffix: &str) -> (address: String)
    ensures
        address@ == CAM@ + suffix@,
{
    let mut out = String::from_str(CAM);
    out.append(suffix);
    out
}

/// `Robot:CalibMode` labels, index == PV value.
pub const MODE_NAMES: [&'static str; 8] = [
    "Normal",
    "Holder Calib",
    "Sample Holder Calib",
    "Hand-Eye Calib",
    "Recover",
    "Seat Probe",
    "Grip Null",
    "Holder Transfer",
];

/// The label of `Robot:CalibMode` value `mode`, or `None` for a value
/// the record has no label for.
pub open spec fn mode_label(mode: int) -> Option<Seq<char>> {
    if 0 <= mode < 8 {
        Some(MODE_NAMES@[mode]@)
    } else {
        None
    }
}

/// Looks a mode value up in [`MODE_NAMES`].
pub fn mode_name(mode: i64) -> (name: Option<&'static str>)
    ensures
        match name {
            Some(n) => mode_label(mode as int) == Some(n@),
            None => mode_label(mode as int) is None,
        },
{
    if 0 <= mode && mode < 8 {
        Some(MODE_NAMES[mode as usize])
    } else {
        None
    }
}

/// `Robot:State` labels, index == PV value.
pub open spec fn state_label(state: int) -> Seq<char> {
    if state == 0 {
        "idle"@
    } else if state == 1 {
        "running"@
    } else if state == 2 {
        "measurement wait"@
    } else if state == 3 {
        "paused"@
    } else if state == 4 {
        "hold"@
    } else {
        "?"@
    }
}

/// The label of a `Robot:State` value. The record is a plain longin,
/// like `Robot:Null:State`, so its labels live here next to
/// [`step_name`] rather than in the database.
pub fn state_name(state: i64) -> (name: &'static str)
    ensures
        name@ == state_label(state as int),
{
    match state {
        0 => "idle",
        1 => "running",
        2 => "measurement wait",
        3 => "paused",
        4 => "hold",
        _ => "?",
    }
}

/// `Robot:Seat:*` labels, index == PV value.
pub open spec fn seat_state_label(value: int) -> Seq<char> {
    if value == 1 {
        "empty"@
    } else if value == 2 {
        "occupied"@
    } else {
        "nothing has looked there since the IOC started"@
    }
}

/// The label of a `Robot:Seat:*` value.
///
/// Zero is the value the records come up in and never one the daemon
/// writes: it says nothing has looked at that seat, which only the
/// database is in a position to claim.
pub fn seat_state_name(value: i64) -> (name: &'static str)
    ensures
        name@ == seat_state_label(value as int),
{
    match value {
        1 => "empty",
        2 => "occupied",
        _ => "nothing has looked there since the IOC started",
    }
}

/// What the sequencer does at each `Robot:CurrentStep` value; the empty
/// label past the last step.
pub open spec fn step_label(step: int) -> Seq<char> {
    if step == 0 {
        "open gripper"@
    } else if step == 1 {
        "holder standby"@
    } else if step == 2 {
        "above holder"@
    } else if step == 3 {
        "at holder seat"@
    } else if step == 4 {
        "grip puck"@
    } else if step == 5 {
        "lift"@
    } else if step == 6 {
        "retreat"@
    } else if step == 7 {
        "stage standby"@
    } else if step == 8 {
        "above stage"@
    } else if step == 9 {
        "on stage seat"@
    } else if step == 10 {
        "release"@
    } else if step == 11 {
        "lift"@
    } else if step == 12 {
        "stage standby \u{2014} waiting"@
    } else if step == 13 {
        "above stage"@
    } else if step == 14 {
        "on stage seat"@
    } else if step == 15 {
        "grip puck"@
    } else if step == 16 {
        "lift"@
    } else if step == 17 {
        "stage standby"@
    } else if step == 18 {
        "holder standby"@
    } else if step == 19 {
        "above holder"@
    } else if step == 20 {
        "at holder seat"@
    } else if step == 21 {
        "release"@
    } else if step == 22 {
        "lift"@
    } else if step == 23 {
        "holder standby"@
    } else {
        ""@
    }
}

/// The label of a `Robot:CurrentStep` value.
pub fn step_name(step: i64) -> (name: &'static str)
    ensures
        name@ == step_label(step as int),
{
    match step {
        0 => "open gripper",
        1 => "holder standby",
        2 => "above holder",
        3 => "at holder seat",
        4 => "grip puck",
        5 => "lift",
        6 => "retreat",
        7 => "stage standby",
        8 => "above stage",
        9 => "on stage seat",
        10 => "release",
        11 => "lift",
        12 => "stage standby \u{2014} waiting",
        13 => "above stage",
        14 => "on stage seat",
        15 => "grip puck",
        16 => "lift",
        17 => "stage standby",
        18 => "holder standby",
        19 => "above holder",
        20 => "at holder seat",
        21 => "release",
        22 => "lift",
        23 => "holder standby",
        _ => "",
    }
}


/// The other of the two finger actions: a grip read as a release and a
/// release as a grip, every other step name as it is.
pub open spec fn exchanged(label: Seq<char>) -> Seq<char> {
    if label == "grip puck"@ {
        "release"@
    } else if label == "release"@ {
        "grip puck"@
    } else {
        label
    }
}

/// The sequence's two round trips retrace their outward legs with the
/// fingers' action exchanged: the retrieval leg from the stage (steps
/// 13-16) repeats the stage leg of the delivery (steps 8-11) but grips
/// where that released, and the return to the holder (steps 18-22)
/// repeats the pick from it (steps 1-5) but releases where that gripped.
/// The puck is gripped at exactly two steps, 4 and 15, and released at
/// exactly two, 10 and 21, each right after the arm reaches a seat and
/// right before a lift.
pub proof fn law_the_return_legs_retrace_the_delivery(s: int)
    ensures
        8 <= s <= 11 ==> step_label(s + 5) == exchanged(step_label(s)),
        1 <= s <= 5 ==> step_label(s + 17) == exchanged(step_label(s)),
        step_label(s) == "grip puck"@ <==> (s == 4 || s == 15),
        step_label(s) == "release"@ <==> (s == 10 || s == 21),
        (s == 4 || s == 15 || s == 10 || s == 21) ==> step_label(s + 1) == "lift"@,
        (s == 4 || s == 21) ==> step_label(s - 1) == "at holder seat"@,
        (s == 10 || s == 15) ==> step_label(s - 1) == "on stage seat"@,
{
    reveal_strlit("open gripper");
    reveal_strlit("holder standby");
    reveal_strlit("above holder");
    reveal_strlit("at holder seat");
    reveal_strlit("grip puck");
    reveal_strlit("lift");
    reveal_strlit("retreat");
    reveal_strlit("stage standby");
    reveal_strlit("above stage");
    reveal_strlit("on stage seat");
    reveal_strlit("release");
    reveal_strlit("stage standby \u{2014} waiting");
    reveal_strlit("");
    assert("grip puck"@.len() == 9);
    assert("release"@.len() == 7);
    assert("retreat"@[2] == 't' && "release"@[2] == 'l');
    if 0 <= s <= 23 {
        assert(step_label(s) == "grip puck"@ ==> step_label(s).len() == 9);
        assert(step_label(s) == "release"@ ==> step_label(s)[2] == 'l' && step_label(s).len()
            == 7);
    }
}

/// The names the panel gives the daemon's states are the states the
/// daemon's own codes mean: idle at the idle wait, running while it
/// works, the measurement wait, and the calibration hold.
pub proof fn law_the_state_codes_name_their_states()
    ensures
        state_label(crate::daemon::IDLE as int) == "idle"@,
        state_label(crate::daemon::RUNNING as int) == "running"@,
        state_label(crate::daemon::MEASUREMENT_WAIT as int) == "measurement wait"@,
        state_label(crate::daemon::HOLD as int) == "hold"@,
{
}

} // verus!
