//! The daemon's Channel Access vocabulary: the enum-like records it
//! reads and writes, and how a raw read (or a failed one) is decoded.
//!
//! Every decoder here gives each PV its own meaning for a failed read: a
//! failed read degrades to a fixed default per record, so an IOC hiccup
//! does not change what a sequence does.

use vstd::prelude::*;

use crate::text::chars_of;
use crate::text::string_from_chars;

verus! {

/// `Robot:Wait` states (mbbo: 0=Wait, 1=Continue, 2=Abort).
#[derive(Debug, Clone, Copy, PartialEq, Eq, Structural)]
pub enum WaitStatus {
    Waiting,
    Continue,
    Skip,
}

/// What a `Robot:Wait` read means: 0 waits, 2 skips, and 1, any other
/// value or a failed read continues.
pub open spec fn wait_meaning(value: Option<i32>) -> WaitStatus {
    match value {
        Some(v) => if v == 0 {
            WaitStatus::Waiting
        } else if v == 2 {
            WaitStatus::Skip
        } else {
            WaitStatus::Continue
        },
        None => WaitStatus::Continue,
    }
}

/// Decodes a `Robot:Wait` read.
pub fn decode_wait(value: Option<i32>) -> (w: WaitStatus)
    ensures
        w == wait_meaning(value),
{
    match value {
        Some(0) => WaitStatus::Waiting,
        Some(2) => WaitStatus::Skip,
        _ => WaitStatus::Continue,
    }
}

/// `Robot:CalibMode` states, one per value 0 through 7.
#[derive(Debug, Clone, Copy, PartialEq, Eq, Structural)]
pub enum CalibMode {
    Normal,
    Holder,
    SampleHolder,
    /// Eye-in-hand camera calibration capture. Touches no holder and no
    /// gripper -- it rotates the tool in place.
    HandEye,
    /// Put the arm back at the holder standby after a run stopped part
    /// way. Not a calibration; it shares the PV because "pick a mode,
    /// then trigger" is the entry every non-Normal behavior uses.
    Recover,
    /// Feel for the walls and floor of the seat the arm is standing in.
    SeatProbe,
    /// Drive a holder's taught seat pose to where the fingers close on
    /// its puck without loading it.
    GripNull,
    /// Carry one puck from `MapSource` to `Holder` and leave it there.
    HolderTransfer,
}

/// The PV value of each mode.
pub open spec fn mode_code(mode: CalibMode) -> i32 {
    match mode {
        CalibMode::Normal => 0,
        CalibMode::Holder => 1,
        CalibMode::SampleHolder => 2,
        CalibMode::HandEye => 3,
        CalibMode::Recover => 4,
        CalibMode::SeatProbe => 5,
        CalibMode::GripNull => 6,
        CalibMode::HolderTransfer => 7,
    }
}

/// What a `Robot:CalibMode` read means: 1 through 7 name their mode, and
/// anything else -- 0, an unknown value, a failed read -- is Normal.
pub open spec fn mode_meaning(value: Option<i32>) -> CalibMode {
    match value {
        Some(v) => if v == 1 {
            CalibMode::Holder
        } else if v == 2 {
            CalibMode::SampleHolder
        } else if v == 3 {
            CalibMode::HandEye
        } else if v == 4 {
            CalibMode::Recover
        } else if v == 5 {
            CalibMode::SeatProbe
        } else if v == 6 {
            CalibMode::GripNull
        } else if v == 7 {
            CalibMode::HolderTransfer
        } else {
            CalibMode::Normal
        },
        None => CalibMode::Normal,
    }
}

/// Whether a mode drives the fingers into a seat: every mode but the
/// three an operator reaches for when nothing is being carried or a run
/// has already gone wrong.
pub open spec fn mode_enters_a_seat(mode: CalibMode) -> bool {
    !(mode == CalibMode::Recover || mode == CalibMode::HandEye || mode == CalibMode::SeatProbe)
}

impl CalibMode {
    /// Whether this mode drives the fingers into a seat.
    ///
    /// [`CalibMode::Recover`] returns to standby without entering
    /// anything and leaves the fingers as it found them,
    /// [`CalibMode::HandEye`] rotates the camera in place, and
    /// [`CalibMode::SeatProbe`] probes the seat the arm already stands in.
    pub fn enters_a_seat(self) -> (r: bool)
        ensures
            r == mode_enters_a_seat(self),
    {
        match self {
            Self::Normal | Self::Holder | Self::SampleHolder | Self::GripNull
            | Self::HolderTransfer => true,
            Self::Recover | Self::HandEye | Self::SeatProbe => false,
        }
    }

    /// The PV value of this mode.
    pub fn code(self) -> (v: i32)
        ensures
            v == mode_code(self),
    {
        match self {
            Self::Normal => 0,
            Self::Holder => 1,
            Self::SampleHolder => 2,
            Self::HandEye => 3,
            Self::Recover => 4,
            Self::SeatProbe => 5,
            Self::GripNull => 6,
            Self::HolderTransfer => 7,
        }
    }
}

/// Decodes a `Robot:CalibMode` read.
pub fn decode_calib_mode(value: Option<i32>) -> (m: CalibMode)
    ensures
        m == mode_meaning(value),
{
    match value {
        Some(1) => CalibMode::Holder,
        Some(2) => CalibMode::SampleHolder,
        Some(3) => CalibMode::HandEye,
        Some(4) => CalibMode::Recover,
        Some(5) => CalibMode::SeatProbe,
        Some(6) => CalibMode::GripNull,
        Some(7) => CalibMode::HolderTransfer,
        _ => CalibMode::Normal,
    }
}

/// Every mode survives the round trip through its PV value.
pub proof fn law_a_mode_reads_back_as_itself(mode: CalibMode)
    ensures
        mode_meaning(Some(mode_code(mode))) == mode,
        0 <= mode_code(mode) < 8,
{
}

/// `Robot:Vision:Kind` request codes (mbbo).
#[derive(Debug, Clone, Copy, PartialEq, Eq, Structural)]
pub enum VisionKind {
    /// Empty gripper above a puck: correction to center the grip.
    PickAlign,
    /// Puck in gripper at the above pose: extra correction the grip
    /// deviation adds to the next place.
    GripOffset,
    /// Puck in gripper above a slot: correction to center the slot.
    PlaceAlign,
    /// Puck released, gripper back at above: seated / tilt verdict.
    Seating,
}

/// The request code of each kind.
pub open spec fn vision_code(kind: VisionKind) -> i32 {
    match kind {
        VisionKind::PickAlign => 1,
        VisionKind::GripOffset => 2,
        VisionKind::PlaceAlign => 3,
        VisionKind::Seating => 4,
    }
}

impl VisionKind {
    /// The value written to `Robot:Vision:Kind` for this request.
    pub fn code(self) -> (v: i32)
        ensures
            v == vision_code(self),
    {
        match self {
            Self::PickAlign => 1,
            Self::GripOffset => 2,
            Self::PlaceAlign => 3,
            Self::Seating => 4,
        }
    }
}

/// The name a vision request is logged under.
pub open spec fn vision_label(kind: VisionKind) -> Seq<char> {
    match kind {
        VisionKind::PickAlign => "PickAlign"@,
        VisionKind::GripOffset => "GripOffset"@,
        VisionKind::PlaceAlign => "PlaceAlign"@,
        VisionKind::Seating => "Seating"@,
    }
}

impl VisionKind {
    /// The request's name.
    pub fn label(self) -> (s: &'static str)
        ensures
            s@ == vision_label(self),
    {
        match self {
            Self::PickAlign => "PickAlign",
            Self::GripOffset => "GripOffset",
            Self::PlaceAlign => "PlaceAlign",
            Self::Seating => "Seating",
        }
    }
}

/// What a `Robot:Vision:Kind` value asks for: the kind whose code it is,
/// nothing for any other value.
pub fn decode_vision_kind(value: i32) -> (k: Option<VisionKind>)
    ensures
        match k {
            Some(kind) => vision_code(kind) == value,
            None => forall|kind: VisionKind| vision_code(kind) != value,
        },
{
    match value {
        1 => Some(VisionKind::PickAlign),
        2 => Some(VisionKind::GripOffset),
        3 => Some(VisionKind::PlaceAlign),
        4 => Some(VisionKind::Seating),
        _ => None,
    }
}

/// A request written as a kind's code is read back as that kind: the
/// codes are distinct.
pub proof fn law_a_vision_request_reads_back_as_its_kind(a: VisionKind, b: VisionKind)
    ensures
        vision_code(a) == vision_code(b) <==> a == b,
{
}

/// What `Robot:Null:State` means. The labels live with the panel, next
/// to the step names, so the record stays a plain longin.
#[derive(Debug, Clone, Copy, PartialEq, Eq, Structural)]
pub enum NullState {
    Idle,
    Running,
    Settled,
    Failed,
}

/// The value `Robot:Null:State` carries for each state.
pub open spec fn null_code(state: NullState) -> i32 {
    match state {
        NullState::Idle => 0,
        NullState::Running => 1,
        NullState::Settled => 2,
        NullState::Failed => 3,
    }
}

impl NullState {
    /// The value published for this state.
    pub fn code(self) -> (v: i32)
        ensures
            v == null_code(self),
    {
        match self {
            Self::Idle => 0,
            Self::Running => 1,
            Self::Settled => 2,
            Self::Failed => 3,
        }
    }
}

/// `Robot:Trigger`, or the sentinel `-1` when it cannot be read.
pub fn decode_trigger(value: Option<i32>) -> (v: i32)
    ensures
        v == match value {
            Some(x) => x,
            None => -1i32,
        },
{
    match value {
        Some(x) => x,
        None => -1,
    }
}

/// A record whose failed read means zero: `StartStep`, `Stop`,
/// `PauseStep`, and the vision node's last `Done`.
pub fn decode_or_zero(value: Option<i32>) -> (v: i32)
    ensures
        v == match value {
            Some(x) => x,
            None => 0,
        },
{
    match value {
        Some(x) => x,
        None => 0,
    }
}

/// The seat number as the PV has it, 1 if it cannot be read.
///
/// Not clamped to the rack: what a seat number means belongs to the mode
/// that acts on it, and 0 is the stage.
pub fn decode_holder(value: Option<i32>) -> (v: i32)
    ensures
        v == match value {
            Some(x) => x,
            None => 1,
        },
{
    match value {
        Some(x) => x,
        None => 1,
    }
}

/// Map-mode puck source holder: 0 through 10 as read, and 0 -- the
/// target holder itself -- for a missing PV, a bad read, or a value out
/// of that range.
pub fn decode_map_source(value: Option<i32>) -> (v: i32)
    ensures
        v == match value {
            Some(x) => if 0 <= x <= 10 {
                x
            } else {
                0
            },
            None => 0,
        },
        0 <= v <= 10,
{
    let v = match value {
        Some(x) => x,
        None => 0,
    };
    if 0 <= v && v <= 10 {
        v
    } else {
        0
    }
}

/// Gripper command (0=close, 1=open), `-1` on read error.
pub fn decode_gripper_cmd(value: Option<i32>) -> (v: i32)
    ensures
        v == match value {
            Some(x) => x,
            None => -1i32,
        },
{
    match value {
        Some(x) => x,
        None => -1,
    }
}

/// One jog PV read (-1/0/+1): the request it carries, 0 when it could
/// not be read, and whether the record must be reset to 0 -- which is
/// exactly when it carried a request.
pub fn decode_jog(value: Option<i32>) -> (r: (i32, bool))
    ensures
        r.0 == match value {
            Some(x) => x,
            None => 0,
        },
        r.1 <==> r.0 != 0,
{
    match value {
        Some(x) => (x, x != 0),
        None => (0, false),
    }
}

/// The number of bytes `c` takes in UTF-8.
pub open spec fn utf8_width(c: char) -> nat {
    let v = c as u32;
    if v < 0x80 {
        1
    } else if v < 0x800 {
        2
    } else if v < 0x10000 {
        3
    } else {
        4
    }
}

/// The number of bytes `s` takes in UTF-8.
pub open spec fn utf8_len(s: Seq<char>) -> nat
    decreases s.len(),
{
    if s.len() == 0 {
        0
    } else {
        utf8_len(s.drop_last()) + utf8_width(s.last())
    }
}

/// The longest room a `stringin` record has for text: 40 bytes including
/// the terminator.
pub const STRINGIN_BYTES: usize = 39;

/// The longest leading part of `message` that fits a `stringin` record
/// ([`STRINGIN_BYTES`] of UTF-8), cut on a character boundary so the put
/// stays valid text.
pub fn stringin_text(message: &str) -> (out: String)
    ensures
        out@.len() <= message@.len(),
        out@ == message@.subrange(0, out@.len() as int),
        utf8_len(out@) <= STRINGIN_BYTES,
        out@.len() < message@.len() ==> utf8_len(message@.subrange(0, out@.len() + 1int))
            > STRINGIN_BYTES,
{
    let chars = chars_of(message);
    let mut kept: Vec<char> = Vec::new();
    let mut bytes: usize = 0;
    let mut i: usize = 0;
    while i < chars.len()
        invariant
            i <= chars@.len(),
            chars@ == message@,
            kept@ == chars@.subrange(0, i as int),
            bytes == utf8_len(kept@),
            bytes <= STRINGIN_BYTES,
        ensures
            kept@ == chars@.subrange(0, i as int),
            utf8_len(kept@) <= STRINGIN_BYTES,
            i < chars@.len() ==> utf8_len(chars@.subrange(0, i + 1)) > STRINGIN_BYTES,
        decreases chars@.len() - i,
    {
        let c = chars[i];
        let v = c as u32;
        let w: usize = if v < 0x80 {
            1
        } else if v < 0x800 {
            2
        } else if v < 0x10000 {
            3
        } else {
            4
        };
        assert(w == utf8_width(c));
        assert(chars@.subrange(0, i + 1).drop_last() =~= chars@.subrange(0, i as int));
        assert(chars@.subrange(0, i + 1).last() == c);
        if bytes + w > STRINGIN_BYTES {
            break;
        }
        let ghost before = kept@;
        kept.push(c);
        proof {
            assert(kept@.drop_last() =~= before);
            assert(kept@.last() == c);
            assert(utf8_len(kept@) == utf8_len(before) + utf8_width(c));
        }
        bytes = bytes + w;
        i = i + 1;
    }
    string_from_chars(&kept)
}


/// The request codes are the `Robot:Vision:Kind` mbbo numbering, one
/// after another from 1 in the order a run asks for them: align to pick,
/// the grip's offset, align to place, then the seating check. A value
/// read back names the kind with that number and no other.
pub proof fn law_the_vision_codes_follow_the_record(v: i32)
    ensures
        vision_code(VisionKind::PickAlign) == 1,
        vision_code(VisionKind::GripOffset) == 2,
        vision_code(VisionKind::PlaceAlign) == 3,
        vision_code(VisionKind::Seating) == 4,
        forall|k: VisionKind| #[trigger] vision_code(k) == v ==> 1 <= v <= 4,
{
}

/// The calibration modes are the `Robot:CalibMode` mbbo numbering, 0
/// through 7, and a read decodes each number to its own mode.
pub proof fn law_the_calib_codes_follow_the_record()
    ensures
        mode_code(CalibMode::Normal) == 0,
        mode_code(CalibMode::Holder) == 1,
        mode_code(CalibMode::SampleHolder) == 2,
        mode_code(CalibMode::HandEye) == 3,
        mode_code(CalibMode::Recover) == 4,
        mode_code(CalibMode::SeatProbe) == 5,
        mode_code(CalibMode::GripNull) == 6,
        mode_code(CalibMode::HolderTransfer) == 7,
        mode_meaning(Some(6)) == CalibMode::GripNull,
        mode_meaning(Some(7)) == CalibMode::HolderTransfer,
        mode_meaning(Some(4)) == CalibMode::Recover,
        mode_meaning(Some(0)) == CalibMode::Normal,
{
}

/// `Robot:Wait` is read as its mbbo says: 0 waits, 1 continues, 2
/// skips, and a value the record cannot hold, or no value, continues.
pub proof fn law_the_wait_record_reads_as_its_numbering(v: i32)
    ensures
        wait_meaning(Some(0)) == WaitStatus::Waiting,
        wait_meaning(Some(1)) == WaitStatus::Continue,
        wait_meaning(Some(2)) == WaitStatus::Skip,
        (v < 0 || v > 2) ==> wait_meaning(Some(v)) == WaitStatus::Continue,
        wait_meaning(None) == WaitStatus::Continue,
{
}

/// The grip null's published states are numbered 0 idle, 1 running, 2
/// settled, 3 failed.
pub proof fn law_the_null_codes_follow_the_record()
    ensures
        null_code(NullState::Idle) == 0,
        null_code(NullState::Running) == 1,
        null_code(NullState::Settled) == 2,
        null_code(NullState::Failed) == 3,
{
}

} // verus!
