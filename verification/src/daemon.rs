//! What the daemon says it is doing, and whether it is still saying it.
//!
//! Every control on the operator panel that needs the sequencer to be
//! listening asks here, and none of them infers it from a run value. The
//! difference matters because the run values outlive the daemon:
//! `Robot:CurrentStep` is the resume-after-crash marker and autosave
//! restores it, `Robot:Jog:Target` keeps the last hold's seat, so a
//! button drawn from either is offered over the wreckage of a run.
//!
//! `Robot:State` names the loop the daemon is in and `Robot:Alive`
//! counts its service passes. Neither alone is enough: a state that is
//! not being re-stamped is exactly the stale reading this replaces.

use vstd::prelude::*;

use crate::pvs::{state_label, state_name};
use crate::text::{cat, cat3};

verus! {

/// How long `Robot:Alive` may stand still, in milliseconds, before a
/// daemon that promised beats is treated as gone. It beats every service
/// pass -- 10 Hz in every standing loop -- so this is twenty missed beats.
pub const BEAT_STALE_MS: u64 = 2000;

/// `Robot:State` codes the panel acts on. The daemon owns the numbering.
pub const IDLE: i64 = 0;
pub const RUNNING: i64 = 1;
pub const MEASUREMENT_WAIT: i64 = 2;
pub const HOLD: i64 = 4;

/// What the two records together say about the daemon right now.
#[derive(Clone, Copy, PartialEq, Eq, Debug, Structural)]
pub enum Presence {
    /// Standing in this state and reading operator commands this
    /// instant. The only presence in which a command control is honest.
    Listening(i64),
    /// Working: moving the arm or driving the gripper. The beat is quiet
    /// because a working daemon does not service commands -- so this is
    /// neither listening nor evidence of death.
    Working,
    /// Promised a beat and stopped, or never said anything. Dead,
    /// disconnected, or wedged; from here they are one thing.
    Silent(Option<i64>),
}

/// How a status line should read: the panels own the palette, this
/// module owns which of the three a reading deserves.
#[derive(Clone, Copy, PartialEq, Eq, Debug, Structural)]
pub enum Tone {
    Good,
    Busy,
    Bad,
}

/// The whole reading, as a function of the two records. `Working` is
/// decided by the state alone: the daemon publishes it around every
/// blocking piece of work precisely so that the quiet which follows is
/// accounted for. Otherwise a beating daemon with a state is listening in
/// it, and anything else is silent with whatever state it last showed.
pub open spec fn presence_of(state: Option<i64>, beating: bool) -> Presence {
    if state == Some(RUNNING) {
        Presence::Working
    } else if beating && state is Some {
        Presence::Listening(state->0)
    } else {
        Presence::Silent(state)
    }
}

/// [`presence_of`], computed.
pub fn presence(state: Option<i64>, beating: bool) -> (p: Presence)
    ensures
        p == presence_of(state, beating),
{
    if state == Some(RUNNING) {
        return Presence::Working;
    }
    match (beating, state) {
        (true, Some(s)) => Presence::Listening(s),
        (true, None) => Presence::Silent(None),
        (false, s) => Presence::Silent(s),
    }
}

/// The line the panel greys a control with.
pub open spec fn note_text(p: Presence) -> Seq<char> {
    match p {
        Presence::Listening(s) => "daemon is "@ + state_label(s as int),
        Presence::Working => "daemon is working \u{2014} it reads no commands while it moves"@,
        Presence::Silent(Some(s)) => "daemon not responding \u{2014} last said "@ + state_label(
            s as int,
        ),
        Presence::Silent(None) => "daemon not responding"@,
    }
}

/// The status row's text.
pub open spec fn status_text(p: Presence) -> Seq<char> {
    match p {
        Presence::Listening(s) => state_label(s as int),
        Presence::Working => state_label(RUNNING as int) + " \u{2014} no commands read"@,
        Presence::Silent(Some(s)) => "NOT RESPONDING (was "@ + state_label(s as int) + ")"@,
        Presence::Silent(None) => "NOT RESPONDING"@,
    }
}

/// The status row's tone.
pub open spec fn status_tone(p: Presence) -> Tone {
    match p {
        Presence::Listening(_) => Tone::Good,
        Presence::Working => Tone::Busy,
        Presence::Silent(_) => Tone::Bad,
    }
}

/// Why a trigger cannot start a run from this presence, or `None` when
/// it can: only a daemon listening at the idle trigger wait reads
/// `Robot:Trigger`.
pub open spec fn not_ready_text(p: Presence) -> Option<Seq<char>> {
    match p {
        Presence::Listening(s) => if s == IDLE {
            None
        } else {
            Some(
                "a run starts at the idle wait \u{2014} the daemon is in the "@ + state_label(
                    s as int,
                ),
            )
        },
        _ => Some(note_text(p)),
    }
}

impl Presence {
    /// Whether the daemon is in a loop that reads operator commands.
    pub fn servicing(self) -> (r: bool)
        ensures
            r <==> self is Listening,
    {
        match self {
            Presence::Listening(_) => true,
            _ => false,
        }
    }

    /// True when the daemon is standing in `code` and servicing it.
    pub fn is(self, code: i64) -> (r: bool)
        ensures
            r <==> self == Presence::Listening(code),
    {
        match self {
            Presence::Listening(s) => s == code,
            _ => false,
        }
    }

    /// Why a control is greyed, in the words the status row uses.
    pub fn note(self) -> (line: String)
        ensures
            line@ == note_text(self),
    {
        match self {
            Presence::Listening(s) => cat("daemon is ", state_name(s)),
            Presence::Working => String::from_str(
                "daemon is working \u{2014} it reads no commands while it moves",
            ),
            Presence::Silent(Some(s)) => cat(
                "daemon not responding \u{2014} last said ",
                state_name(s),
            ),
            Presence::Silent(None) => String::from_str("daemon not responding"),
        }
    }

    /// The status row: what to print, and how loudly.
    pub fn status(self) -> (row: (String, Tone))
        ensures
            row.0@ == status_text(self),
            row.1 == status_tone(self),
    {
        match self {
            Presence::Listening(s) => (String::from_str(state_name(s)), Tone::Good),
            Presence::Working => (cat(state_name(RUNNING), " \u{2014} no commands read"), Tone::Busy),
            Presence::Silent(Some(s)) => (
                cat3("NOT RESPONDING (was ", state_name(s), ")"),
                Tone::Bad,
            ),
            Presence::Silent(None) => (String::from_str("NOT RESPONDING"), Tone::Bad),
        }
    }

    /// Why a trigger cannot start a run right now, or `None` when it can.
    ///
    /// A run begins at the idle trigger wait and nowhere else; the
    /// daemon drops whatever it finds in `Robot:Trigger` when any other
    /// wait opens.
    pub fn not_ready_for_a_run(self) -> (why: Option<String>)
        ensures
            match why {
                Some(w) => not_ready_text(self) == Some(w@),
                None => not_ready_text(self) is None,
            },
    {
        match self {
            Presence::Listening(s) => if s == IDLE {
                None
            } else {
                Some(
                    cat(
                        "a run starts at the idle wait \u{2014} the daemon is in the ",
                        state_name(s),
                    ),
                )
            },
            _ => Some(self.note()),
        }
    }
}

/// One look at the two records: `Robot:State`'s value if it has one,
/// `Robot:Alive`'s update stamp and connection, and the panel's clock in
/// milliseconds.
#[derive(Clone, Copy, Debug)]
pub struct Records {
    pub state: Option<i64>,
    pub alive_stamp: u64,
    pub alive_connected: bool,
    pub now_ms: u64,
}

/// The beat bookkeeping after seeing `stamp` at `now_ms`: kept when the
/// stamp is the one already seen, restarted at `now_ms` when it moved.
pub open spec fn seen_after(seen: Option<(u64, u64)>, stamp: u64, now_ms: u64) -> (u64, u64) {
    match seen {
        Some(s) if s.0 == stamp => s,
        _ => (stamp, now_ms),
    }
}

/// Time since the stamp last moved, not below zero.
pub open spec fn quiet_ms(seen: (u64, u64), now_ms: u64) -> int {
    if now_ms >= seen.1 {
        now_ms - seen.1
    } else {
        0
    }
}

/// Whether `Robot:Alive` counts as beating: connected, and moved within
/// [`BEAT_STALE_MS`].
pub open spec fn beat_fresh(seen: (u64, u64), connected: bool, now_ms: u64) -> bool {
    connected && quiet_ms(seen, now_ms) < BEAT_STALE_MS
}

/// The panel's memory of the daemon's heartbeat: the last `Alive` stamp
/// seen and when this panel saw it.
pub struct DaemonWatch {
    seen: Option<(u64, u64)>,
}

impl DaemonWatch {
    /// The last stamp seen and the time it was first seen, if any.
    pub closed spec fn last_seen(self) -> Option<(u64, u64)> {
        self.seen
    }

    /// A watch that has seen nothing yet.
    pub fn new() -> (w: Self)
        ensures
            w.last_seen() is None,
    {
        DaemonWatch { seen: None }
    }

    /// Whether `Robot:Alive` has moved recently enough to count. Reading
    /// it is what keeps it current.
    pub fn beating(&mut self, records: &Records) -> (r: bool)
        ensures
            final(self).last_seen() == Some(
                seen_after(old(self).last_seen(), records.alive_stamp, records.now_ms),
            ),
            r == beat_fresh(
                seen_after(old(self).last_seen(), records.alive_stamp, records.now_ms),
                records.alive_connected,
                records.now_ms,
            ),
    {
        let seen = match self.seen {
            Some(seen) if seen.0 == records.alive_stamp => seen,
            _ => (records.alive_stamp, records.now_ms),
        };
        self.seen = Some(seen);
        let quiet = if records.now_ms >= seen.1 {
            records.now_ms - seen.1
        } else {
            0
        };
        records.alive_connected && quiet < BEAT_STALE_MS
    }

    /// The whole reading, in one place.
    pub fn read(&mut self, records: &Records) -> (p: Presence)
        ensures
            final(self).last_seen() == Some(
                seen_after(old(self).last_seen(), records.alive_stamp, records.now_ms),
            ),
            p == presence_of(
                records.state,
                beat_fresh(
                    seen_after(old(self).last_seen(), records.alive_stamp, records.now_ms),
                    records.alive_connected,
                    records.now_ms,
                ),
            ),
    {
        let beating = self.beating(records);
        presence(records.state, beating)
    }

    /// Whether the daemon is in a loop that reads operator commands
    /// right now. False while it works: the gripper command, the jog and
    /// `Wait` are not read there either.
    pub fn servicing(&mut self, records: &Records) -> (r: bool)
        ensures
            final(self).last_seen() == Some(
                seen_after(old(self).last_seen(), records.alive_stamp, records.now_ms),
            ),
            r <==> presence_of(
                records.state,
                beat_fresh(
                    seen_after(old(self).last_seen(), records.alive_stamp, records.now_ms),
                    records.alive_connected,
                    records.now_ms,
                ),
            ) is Listening,
    {
        self.read(records).servicing()
    }

    /// True when the daemon is standing in `code` and servicing it.
    pub fn is(&mut self, records: &Records, code: i64) -> (r: bool)
        ensures
            final(self).last_seen() == Some(
                seen_after(old(self).last_seen(), records.alive_stamp, records.now_ms),
            ),
            r <==> presence_of(
                records.state,
                beat_fresh(
                    seen_after(old(self).last_seen(), records.alive_stamp, records.now_ms),
                    records.alive_connected,
                    records.now_ms,
                ),
            ) == Presence::Listening(code),
    {
        self.read(records).is(code)
    }

    /// Why a trigger cannot start a run right now, or `None` when it can.
    pub fn not_ready_for_a_run(&mut self, records: &Records) -> (why: Option<String>)
        ensures
            final(self).last_seen() == Some(
                seen_after(old(self).last_seen(), records.alive_stamp, records.now_ms),
            ),
            ({
                let p = presence_of(
                    records.state,
                    beat_fresh(
                        seen_after(old(self).last_seen(), records.alive_stamp, records.now_ms),
                        records.alive_connected,
                        records.now_ms,
                    ),
                );
                match why {
                    Some(w) => not_ready_text(p) == Some(w@),
                    None => not_ready_text(p) is None,
                }
            }),
    {
        self.read(records).not_ready_for_a_run()
    }

    /// Why a control is greyed, in the words the status row uses.
    pub fn note(&mut self, records: &Records) -> (line: String)
        ensures
            final(self).last_seen() == Some(
                seen_after(old(self).last_seen(), records.alive_stamp, records.now_ms),
            ),
            line@ == note_text(
                presence_of(
                    records.state,
                    beat_fresh(
                        seen_after(old(self).last_seen(), records.alive_stamp, records.now_ms),
                        records.alive_connected,
                        records.now_ms,
                    ),
                ),
            ),
    {
        self.read(records).note()
    }

    /// The status row: what to print, and how loudly.
    pub fn status(&mut self, records: &Records) -> (row: (String, Tone))
        ensures
            final(self).last_seen() == Some(
                seen_after(old(self).last_seen(), records.alive_stamp, records.now_ms),
            ),
            ({
                let p = presence_of(
                    records.state,
                    beat_fresh(
                        seen_after(old(self).last_seen(), records.alive_stamp, records.now_ms),
                        records.alive_connected,
                        records.now_ms,
                    ),
                );
                row.0@ == status_text(p) && row.1 == status_tone(p)
            }),
    {
        self.read(records).status()
    }
}

/// A working daemon is never listening and never silent, whatever its
/// heartbeat says: the beat left over from the moment it started moving
/// is not a promise that it is reading.
pub proof fn law_working_is_decided_by_the_state_alone(beating: bool)
    ensures
        presence_of(Some(RUNNING), beating) == Presence::Working,
{
}

/// Only a beating daemon standing in a state other than running is
/// listening, and it is listening in exactly that state.
pub proof fn law_listening_needs_a_beat_and_a_standing_state(
    state: Option<i64>,
    beating: bool,
    code: i64,
)
    ensures
        presence_of(state, beating) == Presence::Listening(code) <==> (beating && state == Some(
            code,
        ) && code != RUNNING),
{
}

/// A state that is not being re-stamped goes silent: once `Robot:Alive`
/// has kept the same stamp for [`BEAT_STALE_MS`], the reading is silent
/// with the state it last showed, however current that state looks.
pub proof fn law_an_unstamped_state_goes_silent(
    seen: Option<(u64, u64)>,
    stamp: u64,
    first_ms: u64,
    later_ms: u64,
    state: Option<i64>,
    connected: bool,
)
    requires
        seen matches Some(s) ==> s.1 <= first_ms,
        later_ms >= first_ms + BEAT_STALE_MS,
        state != Some(RUNNING),
    ensures
        ({
            let at_first = seen_after(seen, stamp, first_ms);
            let at_later = seen_after(Some(at_first), stamp, later_ms);
            presence_of(state, beat_fresh(at_later, connected, later_ms)) == Presence::Silent(
                state,
            )
        }),
{
}

/// A stamp that moved since the last look is a beat: a connected daemon
/// whose `Alive` changed is beating, whatever the time.
pub proof fn law_a_moved_stamp_is_a_beat(seen: Option<(u64, u64)>, stamp: u64, now_ms: u64)
    requires
        !(seen matches Some(s) && s.0 == stamp),
    ensures
        beat_fresh(seen_after(seen, stamp, now_ms), true, now_ms),
        !beat_fresh(seen_after(seen, stamp, now_ms), false, now_ms),
{
}

/// Only a daemon listening at the idle wait can start a run; anywhere
/// else the trigger would write a record nobody reads.
pub proof fn law_a_run_starts_only_at_the_idle_wait(p: Presence)
    ensures
        not_ready_text(p) is None <==> p == Presence::Listening(IDLE),
{
}

} // verus!
