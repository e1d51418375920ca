//! The daemon's one error: a message. Every failure either aborts the
//! current sequence (preserving `CurrentStep` for resume) or is logged
//! and degraded, so a taxonomy buys nothing.

use vstd::prelude::*;

verus! {

/// A failure, said in one line.
pub struct SequencerError(pub String);

impl SequencerError {
    /// The error's text.
    pub fn message(&self) -> (m: &str)
        ensures
            m@ == self.0@,
    {
        self.0.as_str()
    }
}

} // verus!
