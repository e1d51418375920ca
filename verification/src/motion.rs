//! How the daemon reads the robot driver's answers.

use vstd::prelude::*;

use crate::error::SequencerError;

verus! {

/// Why a write the robot did not take failed: the external-control
/// program is gone, and what brings it back.
pub const NOT_ACCEPTED: &'static str = " was not accepted \u{2014} the external-control program is not running. Freedrive and a pendant stop both end it; the next trigger resends it (a protective stop needs CalibMode=4 Recover first).";

/// What a driver write's answer means: taken, refused because the
/// robot-side program is gone, or failed outright with `error`'s text.
pub open spec fn acceptance(
    written: Result<bool, Seq<char>>,
    label: Seq<char>,
    what: Seq<char>,
) -> Result<(), Seq<char>> {
    match written {
        Err(e) => Err(label + ": "@ + what + ": "@ + e),
        Ok(false) => Err(label + ": "@ + what + NOT_ACCEPTED@),
        Ok(true) => Ok(()),
    }
}

/// Turns a driver write's acceptance flag into a `Result`.
///
/// Every writer answers `Ok(false)` when the robot-side client is gone,
/// which is what freedrive or a pendant stop does to it. Dropping that
/// flag would keep the daemon talking into a dead socket.
pub fn accepted(written: Result<bool, String>, label: &str, what: &str) -> (r: Result<
    (),
    SequencerError,
>)
    ensures
        match r {
            Ok(()) => acceptance(
                match written {
                    Ok(b) => Ok(b),
                    Err(e) => Err(e@),
                },
                label@,
                what@,
            ) is Ok,
            Err(e) => acceptance(
                match written {
                    Ok(b) => Ok(b),
                    Err(e) => Err(e@),
                },
                label@,
                what@,
            ) == Err::<(), Seq<char>>(e.0@),
        },
{
    match written {
        Err(e) => {
            let mut m = String::from_str(label);
            m.append(": ");
            m.append(what);
            m.append(": ");
            m.append(e.as_str());
            Err(SequencerError(m))
        },
        Ok(false) => {
            let mut m = String::from_str(label);
            m.append(": ");
            m.append(what);
            m.append(NOT_ACCEPTED);
            Err(SequencerError(m))
        },
        Ok(true) => Ok(()),
    }
}

} // verus!
