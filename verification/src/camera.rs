//! Frame geometry of the D405 streams.

use vstd::prelude::*;

verus! {

/// The stream modes the camera offers, in the order they are tried.
pub open spec fn stream_modes() -> Seq<(usize, usize)> {
    seq![(640, 480), (1280, 720), (848, 480), (424, 240), (320, 240)]
}

/// Sizes a frame by its pixel count, for a frame whose array dimensions
/// the subfield addressing cannot reach: the first stream mode whose
/// width times height is `pixels`, or `None` when no mode has that many.
pub fn infer_dims(pixels: usize) -> (dims: Option<(usize, usize)>)
    ensures
        match dims {
            Some(d) => exists|i: int|
                0 <= i < stream_modes().len() && #[trigger] stream_modes()[i] == d
                    && d.0 * d.1 == pixels && forall|j: int|
                    0 <= j < i ==> #[trigger] (stream_modes()[j].0 * stream_modes()[j].1) != pixels,
            None => forall|i: int|
                0 <= i < stream_modes().len() ==> #[trigger] (stream_modes()[i].0
                    * stream_modes()[i].1) != pixels,
        },
{
    let modes: [(usize, usize); 5] = [(640, 480), (1280, 720), (848, 480), (424, 240), (320, 240)];
    assert(modes@ =~= stream_modes());
    let mut i: usize = 0;
    while i < 5
        invariant
            i <= 5,
            modes@ == stream_modes(),
            forall|j: int| 0 <= j < i ==> #[trigger] (stream_modes()[j].0 * stream_modes()[j].1) != pixels,
        decreases 5 - i,
    {
        let (w, h) = modes[i];
        if w * h == pixels {
            assert(stream_modes()[i as int] == (w, h));
            return Some((w, h));
        }
        i = i + 1;
    }
    None
}

} // verus!
