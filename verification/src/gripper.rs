//! `Gripper_RBV` bookkeeping: the readback is written only when the
//! fingers cross the open threshold, so a steady gripper writes nothing.

use vstd::prelude::*;

verus! {

/// Where the gripper posts `Gripper_RBV` transitions while the fingers
/// move: the write [`RbvLatch::update_rbv`] asks for goes here. The
/// daemon passes its Channel Access facade; tests pass a sink that
/// records or ignores the writes.
pub trait RbvSink {
    fn write_gripper_rbv(&self, value: i32);
}

/// The readback value a finger position deserves: 1 at or above the
/// open threshold, 0 below it.
pub open spec fn rbv_value(at_or_above_open_threshold: bool) -> i32 {
    if at_or_above_open_threshold {
        1
    } else {
        0
    }
}

/// The last readback written, so that a steady gripper writes nothing.
pub struct RbvLatch {
    last: Option<i32>,
}

impl RbvLatch {
    /// The value last written, if any.
    pub closed spec fn last(self) -> Option<i32> {
        self.last
    }

    /// A latch that has written nothing yet.
    pub fn new() -> (latch: Self)
        ensures
            latch.last() is None,
    {
        RbvLatch { last: None }
    }

    /// The `Gripper_RBV` write the fingers' current side of the open
    /// threshold asks for: the readback value when it differs from the
    /// last one written, nothing otherwise. The latch records the value
    /// as written; the caller performs the write on its [`RbvSink`].
    pub fn update_rbv(&mut self, at_or_above_open_threshold: bool) -> (write: Option<i32>)
        ensures
            final(self).last() == Some(rbv_value(at_or_above_open_threshold)),
            write == (if rbv_writes(old(self).last(), at_or_above_open_threshold) {
                Some(rbv_value(at_or_above_open_threshold))
            } else {
                None::<i32>
            }),
    {
        let state: i32 = if at_or_above_open_threshold {
            1
        } else {
            0
        };
        if self.last != Some(state) {
            self.last = Some(state);
            Some(state)
        } else {
            None
        }
    }
}

/// Whether a latch holding `last` writes when the fingers report `side`
/// of the open threshold.
pub open spec fn rbv_writes(last: Option<i32>, side: bool) -> bool {
    last != Some(rbv_value(side))
}

/// A steady gripper writes its readback once: the report right after a
/// write finds the value already latched, and only crossing the
/// threshold writes again.
pub proof fn law_only_a_crossing_writes_again(last: Option<i32>, side: bool)
    ensures
        !rbv_writes(Some(rbv_value(side)), side),
        rbv_writes(Some(rbv_value(side)), !side),
{
}

} // verus!
