//! The operations panel's decisions: what each operator action writes,
//! in what order, what it is called, and when it must be confirmed first.
//! The panel itself only draws these and performs the writes.

use vstd::prelude::*;

use crate::pvs::{mode_label, mode_name, seat_state_label, seat_state_name, step_label, step_name};
use crate::epics::{mode_code, mode_meaning, null_code, CalibMode, NullState};
use crate::text::{cat, dec, decimal};

verus! {

/// What a seat number is called: `Robot:Holder = 0` is the stage bore,
/// 1-10 the rack wells.
pub open spec fn seat_text(n: int) -> Seq<char> {
    if n == 0 {
        "stage"@
    } else {
        "holder "@ + dec(n)
    }
}

/// The name of seat `n`.
pub fn seat_name(n: i64) -> (name: String)
    ensures
        name@ == seat_text(n as int),
{
    if n == 0 {
        String::from_str("stage")
    } else {
        let digits = decimal(n);
        cat("holder ", digits.as_str())
    }
}

/// An action that writes PVs. Everything that starts the sequencer goes
/// through here so the busy confirmation cannot be bypassed.
#[derive(Clone, Debug, PartialEq, Eq, Structural)]
pub enum Action {
    Mount(i64),
    Return(i64),
    GripNull { target: i64, source: i64 },
    Transfer { target: i64, source: i64 },
    /// A calibration hold: pick `holder`'s puck and stand where the jog
    /// can measure a seat -- above that holder (mode 1) or above the
    /// stage bore (mode 2, carrying the puck there).
    Hold { holder: i64, at_stage: bool },
    Advanced { mode: i64, start: i64 },
    Recover,
}

/// The one-line description the confirmation asks about.
pub open spec fn describe_text(a: Action) -> Seq<char> {
    match a {
        Action::Mount(h) => "Mount holder "@ + dec(h as int) + " on the stage"@,
        Action::Return(h) => "Return the sample to holder "@ + dec(h as int),
        Action::GripNull { target, source } => "Null the grip wrench at "@ + seat_text(
            target as int,
        ) + " and write its trims"@ + if source == 0 || source == target {
            Seq::empty()
        } else {
            " (fetching holder "@ + dec(source as int) + "'s puck first)"@
        },
        Action::Transfer { target, source } => "Move the puck from holder "@ + dec(source as int)
            + " to holder "@ + dec(target as int),
        Action::Hold { holder, at_stage } => if at_stage {
            "Carry holder "@ + dec(holder as int)
                + "'s puck to the stage and hold there for jogging"@
        } else {
            "Pick holder "@ + dec(holder as int) + "'s puck and hold above that seat for jogging"@
        },
        Action::Advanced { mode, start } => "Trigger mode "@ + dec(mode as int) + " ("@ + match mode_label(mode as int) {
            Some(name) => name,
            None => "?"@,
        } + ") from step "@ + dec(start as int),
        Action::Recover => "Recover to holder standby"@,
    }
}

impl Action {
    /// What this action does, in one line.
    pub fn describe(&self) -> (line: String)
        ensures
            line@ == describe_text(*self),
    {
        match self {
            Action::Mount(h) => {
                let mut out = String::from_str("Mount holder ");
                out.append(decimal(*h).as_str());
                out.append(" on the stage");
                out
            },
            Action::Return(h) => {
                let mut out = String::from_str("Return the sample to holder ");
                out.append(decimal(*h).as_str());
                out
            },
            Action::GripNull { target, source } => {
                let mut out = String::from_str("Null the grip wrench at ");
                out.append(seat_name(*target).as_str());
                out.append(" and write its trims");
                if !(*source == 0 || *source == *target) {
                    out.append(" (fetching holder ");
                    out.append(decimal(*source).as_str());
                    out.append("'s puck first)");
                    proof {
                        assert(out@ =~= "Null the grip wrench at "@ + seat_text(*target as int)
                            + " and write its trims"@ + (" (fetching holder "@ + dec(
                            *source as int,
                        ) + "'s puck first)"@));
                    }
                } else {
                    assert(out@ =~= out@ + Seq::<char>::empty());
                }
                out
            },
            Action::Transfer { target, source } => {
                let mut out = String::from_str("Move the puck from holder ");
                out.append(decimal(*source).as_str());
                out.append(" to holder ");
                out.append(decimal(*target).as_str());
                out
            },
            Action::Hold { holder, at_stage } => {
                let mut out = if *at_stage {
                    String::from_str("Carry holder ")
                } else {
                    String::from_str("Pick holder ")
                };
                out.append(decimal(*holder).as_str());
                if *at_stage {
                    out.append("'s puck to the stage and hold there for jogging");
                } else {
                    out.append("'s puck and hold above that seat for jogging");
                }
                out
            },
            Action::Advanced { mode, start } => {
                let mut out = String::from_str("Trigger mode ");
                out.append(decimal(*mode).as_str());
                out.append(" (");
                match mode_name(*mode) {
                    Some(name) => out.append(name),
                    None => out.append("?"),
                }
                out.append(") from step ");
                out.append(decimal(*start).as_str());
                out
            },
            Action::Recover => String::from_str("Recover to holder standby"),
        }
    }
}

/// The robot records an action writes.
#[derive(Clone, Copy, Debug, PartialEq, Eq, Structural)]
pub enum OpsPv {
    Holder,
    MapSource,
    CalibMode,
    StartStep,
    PauseStep,
    Wait,
    Trigger,
}

/// The puck source a grip null is asked for: the target itself reads as
/// 0, "the puck already there".
pub open spec fn null_source_value(target: i64, source: i64) -> i64 {
    if source == target {
        0
    } else {
        source
    }
}

/// The writes behind an action, in the order they go out. The daemon
/// resets `Wait` at every run start, so a pre-set Continue would be
/// lost: every trigger writes `Wait = 0` explicitly just before the
/// trigger itself.
pub open spec fn planned_puts(a: Action) -> Seq<(OpsPv, i64)> {
    match a {
        Action::Mount(h) => seq![
            (OpsPv::Holder, h),
            (OpsPv::CalibMode, 0),
            (OpsPv::StartStep, 0),
            (OpsPv::PauseStep, 0),
            (OpsPv::Wait, 0),
            (OpsPv::Trigger, 1),
        ],
        // Step 13 is the first step of the retrieval leg; entering at 7
        // would re-run the place leg on a seat that already has its puck.
        Action::Return(h) => seq![
            (OpsPv::Holder, h),
            (OpsPv::CalibMode, 0),
            (OpsPv::StartStep, 13),
            (OpsPv::PauseStep, 0),
            (OpsPv::Wait, 0),
            (OpsPv::Trigger, 1),
        ],
        Action::GripNull { target, source } => seq![
            (OpsPv::Holder, target),
            (OpsPv::MapSource, null_source_value(target, source)),
            (OpsPv::CalibMode, 6),
            (OpsPv::StartStep, 0),
            (OpsPv::PauseStep, 0),
            (OpsPv::Wait, 0),
            (OpsPv::Trigger, 1),
        ],
        Action::Transfer { target, source } => seq![
            (OpsPv::Holder, target),
            (OpsPv::MapSource, source),
            (OpsPv::CalibMode, 7),
            (OpsPv::StartStep, 0),
            (OpsPv::PauseStep, 0),
            (OpsPv::Wait, 0),
            (OpsPv::Trigger, 1),
        ],
        Action::Hold { holder, at_stage } => seq![
            (OpsPv::Holder, holder),
            (OpsPv::CalibMode, if at_stage { 2 } else { 1 }),
            (OpsPv::StartStep, 0),
            (OpsPv::PauseStep, 0),
            (OpsPv::Wait, 0),
            (OpsPv::Trigger, 1),
        ],
        Action::Advanced { mode, start } => seq![
            (OpsPv::CalibMode, mode),
            (OpsPv::StartStep, start),
            (OpsPv::Wait, 0),
            (OpsPv::Trigger, 1),
        ],
        Action::Recover => seq![(OpsPv::CalibMode, 4), (OpsPv::Wait, 0), (OpsPv::Trigger, 1)],
    }
}

/// Whether the action also resets the panel's own pause-step field,
/// which is exactly when it resets `Robot:PauseStep`.
pub open spec fn plan_resets_pause_input(a: Action) -> bool {
    match a {
        Action::Advanced { .. } | Action::Recover => false,
        _ => true,
    }
}

/// The line the panel shows once the writes went out.
pub open spec fn plan_note_text(a: Action) -> Seq<char> {
    match a {
        Action::Mount(h) => "Mounting holder "@ + dec(h as int) + " on the stage..."@,
        Action::Return(h) => "Retrieving the sample from the stage back to holder "@ + dec(
            h as int,
        ) + "..."@,
        Action::GripNull { target, source } => if source == 0 || source == target {
            "Nulling "@ + seat_text(target as int)
                + " \u{2014} it picks and reseats that seat's own puck once per iteration and writes the trims to taught_waypoints.yaml"@
        } else {
            "Fetching holder "@ + dec(source as int) + "'s puck into "@ + seat_text(target as int)
                + ", then nulling there \u{2014} the puck is left in "@ + seat_text(target as int)
        },
        Action::Transfer { target, source } => "Moving the puck from holder "@ + dec(
            source as int,
        ) + " to holder "@ + dec(target as int)
            + " \u{2014} straight across, no stage leg and no probe"@,
        Action::Hold { holder, at_stage } => if at_stage {
            "Carrying holder "@ + dec(holder as int) + "'s puck to the stage \u{2014} jog there, Apply,                          then end the hold to put it back"@
        } else {
            "Picking holder "@ + dec(holder as int) + "'s puck \u{2014} jog above that seat, Apply,                          then end the hold to put it back"@
        },
        Action::Advanced { mode, start } => "Triggered mode "@ + dec(mode as int)
            + " from step "@ + dec(start as int),
        Action::Recover => "Recovering to holder standby..."@,
    }
}

/// What an action does to the robot records and to the panel.
pub struct Plan {
    /// The writes, in order.
    pub puts: Vec<(OpsPv, i64)>,
    /// Whether the panel's pause-step field goes back to 0.
    pub resets_pause_input: bool,
    /// The line the panel shows afterwards.
    pub note: String,
}

/// Appends one write to a plan under construction.
fn put(puts: &mut Vec<(OpsPv, i64)>, pv: OpsPv, value: i64)
    ensures
        final(puts)@ == old(puts)@.push((pv, value)),
{
    puts.push((pv, value));
}

/// The writes behind `action` and what the panel says about them.
pub fn plan_for(action: &Action) -> (plan: Plan)
    ensures
        plan.puts@ == planned_puts(*action),
        plan.resets_pause_input == plan_resets_pause_input(*action),
        plan.note@ == plan_note_text(*action),
{
    let mut puts: Vec<(OpsPv, i64)> = Vec::new();
    match action {
        Action::Mount(h) => {
            put(&mut puts, OpsPv::Holder, *h);
            put(&mut puts, OpsPv::CalibMode, 0);
            put(&mut puts, OpsPv::StartStep, 0);
            put(&mut puts, OpsPv::PauseStep, 0);
            put(&mut puts, OpsPv::Wait, 0);
            put(&mut puts, OpsPv::Trigger, 1);
            let mut note = String::from_str("Mounting holder ");
            note.append(decimal(*h).as_str());
            note.append(" on the stage...");
            assert(puts@ =~= planned_puts(*action));
            Plan { puts, resets_pause_input: true, note }
        },
        Action::Return(h) => {
            put(&mut puts, OpsPv::Holder, *h);
            put(&mut puts, OpsPv::CalibMode, 0);
            put(&mut puts, OpsPv::StartStep, 13);
            put(&mut puts, OpsPv::PauseStep, 0);
            put(&mut puts, OpsPv::Wait, 0);
            put(&mut puts, OpsPv::Trigger, 1);
            let mut note = String::from_str("Retrieving the sample from the stage back to holder ");
            note.append(decimal(*h).as_str());
            note.append("...");
            assert(puts@ =~= planned_puts(*action));
            Plan { puts, resets_pause_input: true, note }
        },
        Action::GripNull { target, source } => {
            put(&mut puts, OpsPv::Holder, *target);
            put(&mut puts, OpsPv::MapSource, if *source == *target { 0 } else { *source });
            put(&mut puts, OpsPv::CalibMode, 6);
            put(&mut puts, OpsPv::StartStep, 0);
            put(&mut puts, OpsPv::PauseStep, 0);
            put(&mut puts, OpsPv::Wait, 0);
            put(&mut puts, OpsPv::Trigger, 1);
            let seat = seat_name(*target);
            let note = if *source == 0 || *source == *target {
                let mut note = String::from_str("Nulling ");
                note.append(seat.as_str());
                note.append(" \u{2014} it picks and reseats that seat's own puck once per iteration and writes the trims to taught_waypoints.yaml");
                note
            } else {
                let mut note = String::from_str("Fetching holder ");
                note.append(decimal(*source).as_str());
                note.append("'s puck into ");
                note.append(seat.as_str());
                note.append(", then nulling there \u{2014} the puck is left in ");
                note.append(seat.as_str());
                note
            };
            assert(puts@ =~= planned_puts(*action));
            Plan { puts, resets_pause_input: true, note }
        },
        Action::Transfer { target, source } => {
            put(&mut puts, OpsPv::Holder, *target);
            put(&mut puts, OpsPv::MapSource, *source);
            put(&mut puts, OpsPv::CalibMode, 7);
            put(&mut puts, OpsPv::StartStep, 0);
            put(&mut puts, OpsPv::PauseStep, 0);
            put(&mut puts, OpsPv::Wait, 0);
            put(&mut puts, OpsPv::Trigger, 1);
            let mut note = String::from_str("Moving the puck from holder ");
            note.append(decimal(*source).as_str());
            note.append(" to holder ");
            note.append(decimal(*target).as_str());
            note.append(" \u{2014} straight across, no stage leg and no probe");
            assert(puts@ =~= planned_puts(*action));
            Plan { puts, resets_pause_input: true, note }
        },
        Action::Hold { holder, at_stage } => {
            put(&mut puts, OpsPv::Holder, *holder);
            put(&mut puts, OpsPv::CalibMode, if *at_stage { 2 } else { 1 });
            put(&mut puts, OpsPv::StartStep, 0);
            put(&mut puts, OpsPv::PauseStep, 0);
            put(&mut puts, OpsPv::Wait, 0);
            put(&mut puts, OpsPv::Trigger, 1);
            let note = if *at_stage {
                let mut note = String::from_str("Carrying holder ");
                note.append(decimal(*holder).as_str());
                note.append("'s puck to the stage \u{2014} jog there, Apply,                          then end the hold to put it back");
                note
            } else {
                let mut note = String::from_str("Picking holder ");
                note.append(decimal(*holder).as_str());
                note.append("'s puck \u{2014} jog above that seat, Apply,                          then end the hold to put it back");
                note
            };
            assert(puts@ =~= planned_puts(*action));
            Plan { puts, resets_pause_input: true, note }
        },
        Action::Advanced { mode, start } => {
            put(&mut puts, OpsPv::CalibMode, *mode);
            put(&mut puts, OpsPv::StartStep, *start);
            put(&mut puts, OpsPv::Wait, 0);
            put(&mut puts, OpsPv::Trigger, 1);
            let mut note = String::from_str("Triggered mode ");
            note.append(decimal(*mode).as_str());
            note.append(" from step ");
            note.append(decimal(*start).as_str());
            assert(puts@ =~= planned_puts(*action));
            Plan { puts, resets_pause_input: false, note }
        },
        Action::Recover => {
            put(&mut puts, OpsPv::CalibMode, 4);
            put(&mut puts, OpsPv::Wait, 0);
            put(&mut puts, OpsPv::Trigger, 1);
            assert(puts@ =~= planned_puts(*action));
            Plan {
                puts,
                resets_pause_input: false,
                note: String::from_str("Recovering to holder standby..."),
            }
        },
    }
}

/// Whether an action must be confirmed before it goes out: a trigger
/// while `CurrentStep > 0` either interleaves with a live run or
/// restarts an interrupted one, and Recover always moves the arm.
pub open spec fn confirm_first(current_step: Option<i64>, action: Action) -> bool {
    (match current_step {
        Some(s) => s > 0,
        None => false,
    }) || action is Recover
}

/// [`confirm_first`], computed; an unreadable `CurrentStep` counts as 0.
pub fn needs_confirmation(current_step: Option<i64>, action: &Action) -> (r: bool)
    ensures
        r == confirm_first(current_step, *action),
{
    let step = match current_step {
        Some(s) => s,
        None => 0,
    };
    let busy = step > 0;
    busy || matches!(action, Action::Recover)
}

/// Every action ends in exactly one trigger, written last: nothing the
/// daemon would read for the new run is still on its way when the run
/// starts.
pub proof fn law_every_plan_ends_in_its_only_trigger(a: Action)
    ensures
        planned_puts(a).len() >= 3,
        planned_puts(a).last() == (OpsPv::Trigger, 1i64),
        forall|i: int|
            0 <= i < planned_puts(a).len() - 1 ==> (#[trigger] planned_puts(a)[i]).0
                != OpsPv::Trigger,
{
}

/// Every trigger clears `Wait` just before it, so a Continue left over
/// from an earlier run is not read by this one, and `Wait` is written
/// nowhere else in the plan.
pub proof fn law_wait_is_cleared_right_before_the_trigger(a: Action)
    ensures
        planned_puts(a)[planned_puts(a).len() - 2] == (OpsPv::Wait, 0i64),
        forall|i: int|
            0 <= i < planned_puts(a).len() - 2 ==> (#[trigger] planned_puts(a)[i]).0
                != OpsPv::Wait,
        forall|i: int|
            0 <= i < planned_puts(a).len() && (#[trigger] planned_puts(a)[i]).0 == OpsPv::Wait
                ==> planned_puts(a)[i].1 == 0,
{
}

/// The mode each errand runs in.
pub open spec fn errand_mode(a: Action) -> Option<CalibMode> {
    match a {
        Action::Mount(_) | Action::Return(_) => Some(CalibMode::Normal),
        Action::GripNull { .. } => Some(CalibMode::GripNull),
        Action::Transfer { .. } => Some(CalibMode::HolderTransfer),
        Action::Hold { at_stage, .. } => Some(
            if at_stage {
                CalibMode::SampleHolder
            } else {
                CalibMode::Holder
            },
        ),
        Action::Recover => Some(CalibMode::Recover),
        Action::Advanced { .. } => None,
    }
}

/// What the panel writes to `Robot:CalibMode` is what the daemon decodes
/// as the errand's own mode: the button and the sequence agree on the
/// numbering.
pub proof fn law_the_mode_written_is_the_mode_decoded(a: Action)
    requires
        errand_mode(a) is Some,
    ensures
        exists|i: int|
            0 <= i < planned_puts(a).len() && (#[trigger] planned_puts(a)[i]).0 == OpsPv::CalibMode
                && mode_meaning(Some(planned_puts(a)[i].1 as i32)) == errand_mode(a)->0
                && planned_puts(a)[i].1 == mode_code(errand_mode(a)->0) as i64,
{
    match a {
        Action::Recover => {
            assert(planned_puts(a)[0].0 == OpsPv::CalibMode);
        },
        Action::GripNull { .. } | Action::Transfer { .. } => {
            assert(planned_puts(a)[2].0 == OpsPv::CalibMode);
        },
        _ => {
            assert(planned_puts(a)[1].0 == OpsPv::CalibMode);
        },
    }
}

/// Every errand starts its run from the top and clears the pause step --
/// a value left over from a resume would skip the pick and run with an
/// empty gripper -- except a return, which enters at the retrieval leg
/// (step 13), and the advanced trigger, which says where it starts.
pub proof fn law_errands_start_from_the_top(a: Action)
    requires
        !(a is Advanced),
        !(a is Recover),
    ensures
        exists|i: int|
            0 <= i < planned_puts(a).len() && #[trigger] planned_puts(a)[i] == (
                OpsPv::StartStep,
                if a is Return {
                    13i64
                } else {
                    0i64
                },
            ),
        exists|j: int|
            0 <= j < planned_puts(a).len() && #[trigger] planned_puts(a)[j] == (
                OpsPv::PauseStep,
                0i64,
            ),
        plan_resets_pause_input(a),
{
    match a {
        Action::GripNull { .. } | Action::Transfer { .. } => {
            assert(planned_puts(a)[3] == (OpsPv::StartStep, 0i64));
            assert(planned_puts(a)[4] == (OpsPv::PauseStep, 0i64));
        },
        _ => {
            assert(planned_puts(a)[2].0 == OpsPv::StartStep);
            assert(planned_puts(a)[3] == (OpsPv::PauseStep, 0i64));
        },
    }
}

/// A grip null asked to fetch from its own seat is a grip null on the
/// puck already there: the source it writes is 0.
pub proof fn law_a_grip_null_from_its_own_seat_fetches_nothing(target: i64)
    ensures
        planned_puts(Action::GripNull { target, source: target })[1] == (OpsPv::MapSource, 0i64),
{
}

/// Recover always asks first, whatever the run state; any other action
/// goes straight out exactly when no step is recorded.
pub proof fn law_only_an_idle_panel_skips_the_confirmation(
    current_step: Option<i64>,
    action: Action,
)
    ensures
        action is Recover ==> confirm_first(current_step, action),
        !(action is Recover) ==> (!confirm_first(current_step, action) <==> match current_step {
            Some(s) => s <= 0,
            None => true,
        }),
{
}

/// The grip null's source field after the seat changed: a source equal
/// to the new target means "the puck already there" and reads as 0.
pub fn normalized_null_source(target: i64, source: i64) -> (r: i64)
    ensures
        r == null_source_value(target, source),
{
    if source == target {
        0
    } else {
        source
    }
}

/// Whether two holders make a transfer: the same one twice does not.
pub fn transfer_allowed(source: i64, target: i64) -> (r: bool)
    ensures
        r <==> source != target,
{
    source != target
}

/// The confirmation's first line, when a step is recorded.
pub open spec fn busy_line_text(step: i64) -> Seq<char> {
    "CurrentStep is "@ + dec(step as int) + " ("@ + step_label(step as int)
        + "): a sequence is running or was interrupted there."@
}

/// The lines the confirmation shows for `action` with `CurrentStep` at
/// `step`, in order: the busy line when a step is recorded, the recover
/// warning for a recover, and the question.
pub open spec fn confirm_lines_text(step: i64, action: Action) -> Seq<Seq<char>> {
    (if step > 0 {
        seq![busy_line_text(step)]
    } else {
        Seq::empty()
    }) + (if action is Recover {
        seq![RECOVER_WARNING@]
    } else {
        Seq::empty()
    }) + seq![describe_text(action) + "?"@]
}

/// What a recover does, said before it is confirmed.
pub const RECOVER_WARNING: &'static str = "Unlock a protective stop if any, resend the robot program, and walk the arm back to holder standby. The gripper is not touched.";

/// The confirmation's text, line by line.
pub fn confirm_lines(step: i64, action: &Action) -> (lines: Vec<String>)
    ensures
        lines@.len() == confirm_lines_text(step, *action).len(),
        forall|i: int|
            0 <= i < lines@.len() ==> (#[trigger] lines@[i])@ == confirm_lines_text(
                step,
                *action,
            )[i],
{
    let mut lines: Vec<String> = Vec::new();
    let ghost mut want: Seq<Seq<char>> = Seq::empty();
    if step > 0 {
        let mut line = String::from_str("CurrentStep is ");
        line.append(decimal(step).as_str());
        line.append(" (");
        line.append(step_name(step));
        line.append("): a sequence is running or was interrupted there.");
        lines.push(line);
        proof {
            want = want.push(busy_line_text(step));
        }
    }
    if matches!(action, Action::Recover) {
        lines.push(String::from_str(RECOVER_WARNING));
        proof {
            want = want.push(RECOVER_WARNING@);
        }
    }
    let question = cat(action.describe().as_str(), "?");
    lines.push(question);
    proof {
        want = want.push(describe_text(*action) + "?"@);
        assert(want =~= confirm_lines_text(step, *action));
    }
    lines
}

/// The result row of the grip null, from `Robot:Null:State`: the inverse
/// of the daemon's [`NullState`] numbering, idle for anything else.
pub open spec fn null_label_text(value: i64) -> Seq<char> {
    if value == 1 {
        "running"@
    } else if value == 2 {
        "SETTLED"@
    } else if value == 3 {
        "FAILED"@
    } else {
        "idle"@
    }
}

/// The grip null's result label for a `Robot:Null:State` value.
pub fn null_state_label(value: i64) -> (label: &'static str)
    ensures
        label@ == null_label_text(value),
{
    match value {
        1 => "running",
        2 => "SETTLED",
        3 => "FAILED",
        _ => "idle",
    }
}

/// The state the daemon publishes is the state the panel names.
pub proof fn law_the_null_state_reads_back_as_published(state: NullState)
    ensures
        null_label_text(null_code(state) as i64) == match state {
            NullState::Idle => "idle"@,
            NullState::Running => "running"@,
            NullState::Settled => "SETTLED"@,
            NullState::Failed => "FAILED"@,
        },
{
}

/// How a seat chip is drawn.
#[derive(Clone, Copy, Debug, PartialEq, Eq, Structural)]
pub enum Chip {
    /// A puck has been seen there.
    Puck,
    /// Looked at, and empty.
    Empty,
    /// Nothing has looked, or the record is missing.
    Unknown,
}

/// The chip for a `Robot:Seat:*` value: only a connected record says
/// anything, and only its two observed values are a puck or an empty.
pub open spec fn chip_of(value: i64, live: bool) -> Chip {
    if live && value == 2 {
        Chip::Puck
    } else if live && value == 1 {
        Chip::Empty
    } else {
        Chip::Unknown
    }
}

/// The text under a seat chip: the label when the record is connected,
/// or what to do about a record that is not there.
pub open spec fn chip_tip_text(value: i64, live: bool) -> Seq<char> {
    if live {
        seat_state_label(value as int)
    } else {
        "no Robot:Seat: record \u{2014} restart the IOC"@
    }
}

/// The name on seat chip `index`: the stage first, then the holders by
/// number.
pub open spec fn chip_name_text(index: int) -> Seq<char> {
    if index == 0 {
        "stage"@
    } else {
        dec(index)
    }
}

/// One seat chip: its name, how it is drawn, and its tooltip.
pub fn seat_chip(index: i64, value: i64, live: bool) -> (chip: (String, Chip, &'static str))
    ensures
        chip.0@ == chip_name_text(index as int),
        chip.1 == chip_of(value, live),
        chip.2@ == chip_tip_text(value, live),
{
    let name = if index == 0 {
        String::from_str("stage")
    } else {
        decimal(index)
    };
    let look = if live && value == 2 {
        Chip::Puck
    } else if live && value == 1 {
        Chip::Empty
    } else {
        Chip::Unknown
    };
    let tip = if live {
        seat_state_name(value)
    } else {
        "no Robot:Seat: record \u{2014} restart the IOC"
    };
    (name, look, tip)
}

/// The hold card's status line: where the daemon is holding, or why
/// there is no hold to end. `note` is the daemon watch's own line.
pub open spec fn hold_line_text(holding: bool, target: Seq<char>, note: Seq<char>) -> Seq<char> {
    if holding {
        if target.len() == 0 {
            "Holding \u{2014} jog, then Apply"@
        } else {
            "Holding at "@ + target + " \u{2014} jog, then Apply"@
        }
    } else {
        "No hold standing ("@ + note + ")."@
    }
}

/// [`hold_line_text`], built.
pub fn hold_line(holding: bool, target: &str, note: &str) -> (line: String)
    ensures
        line@ == hold_line_text(holding, target@, note@),
{
    if holding {
        if target.is_empty() {
            String::from_str("Holding \u{2014} jog, then Apply")
        } else {
            let mut line = String::from_str("Holding at ");
            line.append(target);
            line.append(" \u{2014} jog, then Apply");
            line
        }
    } else {
        let mut line = String::from_str("No hold standing (");
        line.append(note);
        line.append(").");
        line
    }
}

/// The jog card's Apply button label: the seat an apply lands on, or why
/// it has nowhere to land. `note` is the daemon watch's own line.
pub open spec fn apply_label_text(holding: bool, target: Seq<char>, note: Seq<char>) -> Seq<char> {
    if holding {
        if target.len() == 0 {
            "Apply to this seat"@
        } else {
            "Apply to "@ + target
        }
    } else {
        "Apply to seat trims ("@ + note + ")"@
    }
}

/// [`apply_label_text`], built.
pub fn apply_label(holding: bool, target: &str, note: &str) -> (label: String)
    ensures
        label@ == apply_label_text(holding, target@, note@),
{
    if holding {
        if target.is_empty() {
            String::from_str("Apply to this seat")
        } else {
            cat("Apply to ", target)
        }
    } else {
        let mut label = String::from_str("Apply to seat trims (");
        label.append(note);
        label.append(")");
        label
    }
}


/// A transfer carries its puck from the source holder to the target:
/// the plan names the target in `Robot:Holder` and the source in
/// `Robot:MapSource`, once each, and nothing else in either record.
pub proof fn law_a_transfer_carries_from_source_to_target(target: i64, source: i64)
    ensures
        ({
            let p = planned_puts(Action::Transfer { target, source });
            &&& exists|i: int| 0 <= i < p.len() && #[trigger] p[i] == (OpsPv::Holder, target)
            &&& exists|j: int| 0 <= j < p.len() && #[trigger] p[j] == (OpsPv::MapSource, source)
            &&& forall|k: int|
                0 <= k < p.len() && (#[trigger] p[k]).0 == OpsPv::Holder ==> p[k].1 == target
            &&& forall|k: int|
                0 <= k < p.len() && (#[trigger] p[k]).0 == OpsPv::MapSource ==> p[k].1 == source
        }),
{
    let p = planned_puts(Action::Transfer { target, source });
    assert(p[0] == (OpsPv::Holder, target));
    assert(p[1] == (OpsPv::MapSource, source));
}

/// A grip null runs at the seat it targets, whatever its puck source:
/// `Robot:Holder` carries the target, and `Robot:MapSource` carries the
/// holder to fetch from -- 0, "the puck already there", when there is
/// none to fetch or the source is the target itself.
pub proof fn law_a_grip_null_runs_at_its_target(target: i64, source: i64)
    ensures
        ({
            let p = planned_puts(Action::GripNull { target, source });
            &&& exists|i: int| 0 <= i < p.len() && #[trigger] p[i] == (OpsPv::Holder, target)
            &&& forall|k: int|
                0 <= k < p.len() && (#[trigger] p[k]).0 == OpsPv::Holder ==> p[k].1 == target
            &&& exists|j: int| 0 <= j < p.len() && (#[trigger] p[j]).0 == OpsPv::MapSource
            &&& forall|k: int|
                0 <= k < p.len() && (#[trigger] p[k]).0 == OpsPv::MapSource ==> (p[k].1 == 0
                    <==> (source == 0 || source == target)) && (source != target ==> p[k].1
                    == source)
        }),
{
    let p = planned_puts(Action::GripNull { target, source });
    assert(p[0] == (OpsPv::Holder, target));
    assert(p[1].0 == OpsPv::MapSource);
}

/// The errands on one holder name it: a mount, a return and a hold
/// write that holder to `Robot:Holder`, once, and fetch from nowhere
/// else (no `Robot:MapSource` write).
pub proof fn law_an_errand_names_its_holder(h: i64, at_stage: bool)
    ensures
        forall|a: Action|
            (a == Action::Mount(h) || a == Action::Return(h) || a == (Action::Hold {
                holder: h,
                at_stage,
            })) ==> {
                let p = #[trigger] planned_puts(a);
                &&& p[0] == (OpsPv::Holder, h)
                &&& forall|k: int|
                    0 < k < p.len() ==> (#[trigger] p[k]).0 != OpsPv::Holder && p[k].0
                        != OpsPv::MapSource
            },
{
}

/// The recover warning is shown whenever recover is asked for, whatever
/// step is recorded; the busy line leads exactly when a step is
/// recorded, and the question about the action always closes the list.
pub proof fn law_recover_always_warns(step: i64, action: Action)
    ensures
        ({
            let lines = confirm_lines_text(step, action);
            &&& lines.len() == (if step > 0 {
                1int
            } else {
                0
            }) + (if action is Recover {
                1int
            } else {
                0
            }) + 1
            &&& action is Recover ==> lines[lines.len() - 2] == RECOVER_WARNING@
            &&& action is Recover ==> exists|i: int|
                0 <= i < lines.len() && #[trigger] lines[i] == RECOVER_WARNING@
            &&& step > 0 ==> lines[0] == busy_line_text(step)
            &&& lines.last() == describe_text(action) + "?"@
        }),
{
    let lines = confirm_lines_text(step, action);
    if action is Recover {
        assert(lines[lines.len() - 2] == RECOVER_WARNING@);
    }
}


/// A seat chip draws what its record's label says, and only while the
/// record is connected: a puck where the label is "occupied", an empty
/// seat where it is "empty", and unknown otherwise.
pub proof fn law_a_chip_shows_its_seat_label(value: i64, live: bool)
    ensures
        chip_of(value, live) == Chip::Puck <==> live && seat_state_label(value as int)
            == "occupied"@,
        chip_of(value, live) == Chip::Empty <==> live && seat_state_label(value as int)
            == "empty"@,
        !live ==> chip_of(value, live) == Chip::Unknown,
{
    reveal_strlit("occupied");
    reveal_strlit("empty");
    reveal_strlit("nothing has looked there since the IOC started");
    assert("occupied"@.len() != "empty"@.len());
}

} // verus!
