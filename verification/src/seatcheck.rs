//! Seat occupancy from a depth frame, the part that is counting: which
//! pixels of the seat's projected window carry a range, whether enough
//! of them do to be a measurement, and the median of their raw counts.
//! Projecting the window and comparing the median's range with the grasp
//! point's are metres and stay with the caller.

use vstd::prelude::*;
use vstd::relations::{sorted_by, total_ordering};

verus! {

broadcast use vstd::seq_lib::group_to_multiset_ensures;

/// What the seat looks like.
#[derive(Clone, Copy, Debug, PartialEq, Eq, Structural)]
pub enum Verdict {
    /// Something is standing where a puck in this seat would stand.
    Occupied,
    /// The window sees past the seat, into the well.
    Empty,
    /// Too few pixels carried a range to say either way.
    Unreadable,
}

/// The word a verdict is logged and shown as.
pub open spec fn verdict_text(v: Verdict) -> Seq<char> {
    match v {
        Verdict::Occupied => "occupied"@,
        Verdict::Empty => "empty"@,
        Verdict::Unreadable => "unreadable"@,
    }
}

impl Verdict {
    /// The verdict's name.
    pub fn label(self) -> (s: &'static str)
        ensures
            s@ == verdict_text(self),
    {
        match self {
            Verdict::Occupied => "occupied",
            Verdict::Empty => "empty",
            Verdict::Unreadable => "unreadable",
        }
    }
}

/// One depth frame, raw counts, row-major, `width * height` of them.
pub struct DepthFrame {
    pub counts: Vec<u16>,
}

/// The pixel rectangle the seat's own sampling window projects to,
/// inclusive of both bounds.
#[derive(Debug, Clone, Copy, PartialEq, Eq)]
pub struct Window {
    pub c0: usize,
    pub c1: usize,
    pub r0: usize,
    pub r1: usize,
}

/// The range a pixel carries, as a sequence of at most one count: none
/// where the index falls off the frame or the count is zero, the
/// driver's "no range here".
pub open spec fn sample_at(counts: Seq<u16>, width: int, row: int, col: int) -> Seq<u16> {
    let i = row * width + col;
    if 0 <= i < counts.len() && counts[i] != 0 {
        seq![counts[i]]
    } else {
        Seq::empty()
    }
}

/// The ranges of columns `c0 .. c_end` of one row, left to right.
pub open spec fn row_samples(counts: Seq<u16>, width: int, row: int, c0: int, c_end: int) -> Seq<u16>
    decreases c_end - c0,
{
    if c_end <= c0 {
        Seq::empty()
    } else {
        row_samples(counts, width, row, c0, c_end - 1) + sample_at(counts, width, row, c_end - 1)
    }
}

/// The ranges of rows `r0 .. r_end` between columns `c0` and `c1`
/// inclusive, row after row.
pub open spec fn rows_samples(
    counts: Seq<u16>,
    width: int,
    c0: int,
    c1: int,
    r0: int,
    r_end: int,
) -> Seq<u16>
    decreases r_end - r0,
{
    if r_end <= r0 {
        Seq::empty()
    } else {
        rows_samples(counts, width, c0, c1, r0, r_end - 1) + row_samples(
            counts,
            width,
            r_end - 1,
            c0,
            c1 + 1,
        )
    }
}

/// Every range inside the window, in row-major order.
pub open spec fn window_samples(counts: Seq<u16>, width: int, w: Window) -> Seq<u16> {
    rows_samples(counts, width, w.c0 as int, w.c1 as int, w.r0 as int, w.r1 + 1)
}

/// How many pixels the window covers.
pub open spec fn window_cells(w: Window) -> int {
    (w.r1 - w.r0 + 1) * (w.c1 - w.c0 + 1)
}

/// A window is a measurement when at least a tenth of its pixels carry
/// a range.
pub open spec fn readable(total: int, valid: int) -> bool {
    10 * valid >= total
}

/// The order the counts are ranked in.
pub open spec fn by_count() -> spec_fn(u16, u16) -> bool {
    |a: u16, b: u16| a <= b
}

/// The middle count: the one at half the length of the ranked counts,
/// the upper of the two middles for an even number.
pub open spec fn median_of(ranges: Seq<u16>) -> u16 {
    ranges.sort_by(by_count())[(ranges.len() / 2) as int]
}

/// The pixels a window covers and the ranges found there.
pub struct WindowSample {
    pub total: usize,
    pub ranges: Vec<u16>,
}

/// Walks the window row by row and keeps every count that is a range.
pub fn sample_window(frame: &DepthFrame, width: usize, window: Window) -> (s: WindowSample)
    requires
        window.c0 <= window.c1,
        window.r0 <= window.r1,
        window.r1 * width + window.c1 <= usize::MAX,
        window_cells(window) <= usize::MAX,
    ensures
        s.total == window_cells(window),
        s.ranges@ == window_samples(frame.counts@, width as int, window),
{
    let ghost counts = frame.counts@;
    assert(window.r1 - window.r0 + 1 <= usize::MAX && window.c1 - window.c0 + 1 <= usize::MAX)
        by (nonlinear_arith)
        requires
            window.r0 <= window.r1,
            window.c0 <= window.c1,
            (window.r1 - window.r0 + 1) * (window.c1 - window.c0 + 1) <= usize::MAX,
    ;
    let rows: usize = window.r1 - window.r0 + 1;
    let cols: usize = window.c1 - window.c0 + 1;
    let total: usize = rows * cols;
    let mut ranges: Vec<u16> = Vec::new();
    let mut k: usize = 0;
    while k < rows
        invariant
            k <= rows,
            rows == window.r1 - window.r0 + 1,
            cols == window.c1 - window.c0 + 1,
            window.c0 <= window.c1,
            window.r0 <= window.r1,
            window.r1 * width + window.c1 <= usize::MAX,
            counts == frame.counts@,
            ranges@ == rows_samples(
                counts,
                width as int,
                window.c0 as int,
                window.c1 as int,
                window.r0 as int,
                window.r0 + k,
            ),
        decreases rows - k,
    {
        let row: usize = window.r0 + k;
        let ghost before = ranges@;
        assert(row * width <= window.r1 * width) by (nonlinear_arith)
            requires
                row <= window.r1,
        ;
        let mut j: usize = 0;
        while j < cols
            invariant
                j <= cols,
                cols == window.c1 - window.c0 + 1,
                row <= window.r1,
                row * width <= window.r1 * width,
                window.r1 * width + window.c1 <= usize::MAX,
                counts == frame.counts@,
                ranges@ == before + row_samples(
                    counts,
                    width as int,
                    row as int,
                    window.c0 as int,
                    window.c0 + j,
                ),
            decreases cols - j,
        {
            let col: usize = window.c0 + j;
            let at: usize = row * width + col;
            let ghost mid = ranges@;
            if at < frame.counts.len() {
                let count: u16 = frame.counts[at];
                if count != 0 {
                    ranges.push(count);
                }
            }
            assert(ranges@ == mid + sample_at(counts, width as int, row as int, col as int));
            assert(ranges@ == before + row_samples(
                counts,
                width as int,
                row as int,
                window.c0 as int,
                window.c0 + j + 1,
            ));
            j = j + 1;
        }
        assert(window.c0 + cols == window.c1 + 1);
        k = k + 1;
    }
    WindowSample { total, ranges }
}

/// Whether a counted window is a measurement at all.
pub fn is_readable(sample: &WindowSample) -> (r: bool)
    ensures
        r == readable(sample.total as int, sample.ranges.len() as int),
{
    let valid: u128 = sample.ranges.len() as u128;
    10 * valid >= sample.total as u128
}

/// The counts in ascending order.
fn ranked(v: &Vec<u16>) -> (s: Vec<u16>)
    ensures
        s@.to_multiset() == v@.to_multiset(),
        forall|i: int, j: int| 0 <= i < j < s.len() ==> s@[i] <= s@[j],
{
    let mut s: Vec<u16> = Vec::new();
    let mut i: usize = 0;
    while i < v.len()
        invariant
            i <= v.len(),
            s@.to_multiset() == v@.take(i as int).to_multiset(),
            forall|a: int, b: int| 0 <= a < b < s.len() ==> s@[a] <= s@[b],
        decreases v.len() - i,
    {
        let x: u16 = v[i];
        let mut p: usize = 0;
        while p < s.len() && s[p] <= x
            invariant
                p <= s.len(),
                forall|q: int| 0 <= q < p ==> s@[q] <= x,
            decreases s.len() - p,
        {
            p = p + 1;
        }
        let ghost old_s = s@;
        assert forall|q: int| p <= q < old_s.len() implies x < old_s[q] by {
            assert(x < old_s[p as int]);
            assert(old_s[p as int] <= old_s[q]);
        }
        s.insert(p, x);
        proof {
            old_s.insert_ensures(p as int, x);
            assert forall|a: int, b: int| 0 <= a < b < s.len() implies s@[a] <= s@[b] by {
                if a < p && b < p {
                    assert(s@[a] == old_s[a] && s@[b] == old_s[b]);
                } else if a < p && b == p {
                    assert(s@[a] == old_s[a]);
                } else if a < p {
                    assert(s@[a] == old_s[a] && s@[b] == old_s[b - 1]);
                } else if a == p {
                    assert(s@[b] == old_s[b - 1]);
                } else {
                    assert(s@[a] == old_s[a - 1] && s@[b] == old_s[b - 1]);
                }
            }
            assert(v@.take(i + 1) =~= v@.take(i as int).push(x));
        }
        i = i + 1;
    }
    assert(v@.take(v.len() as int) =~= v@);
    s
}

/// The median raw count of a window's ranges.
pub fn median_count(ranges: &Vec<u16>) -> (m: u16)
    requires
        ranges.len() > 0,
    ensures
        m == median_of(ranges@),
{
    let s = ranked(ranges);
    proof {
        let leq = by_count();
        assert(total_ordering(leq));
        ranges@.lemma_sort_by_ensures(leq);
        assert(sorted_by(s@, leq)) by {
            assert forall|i: int, j: int| 0 <= i < j < s@.len() implies #[trigger] leq(
                s@[i],
                s@[j],
            ) by {}
        }
        vstd::seq_lib::lemma_sorted_unique(s@, ranges@.sort_by(leq), leq);
        assert(s@.len() == ranges@.len()) by {
            vstd::seq_lib::to_multiset_len(s@);
            vstd::seq_lib::to_multiset_len(ranges@);
        }
    }
    s[ranges.len() / 2]
}

/// What `read_seat` takes from a counted window: the median count when
/// the window is a measurement, nothing when it is not.
pub fn median_if_readable(sample: &WindowSample) -> (m: Option<u16>)
    ensures
        m == (if readable(sample.total as int, sample.ranges.len() as int) && sample.ranges.len()
            > 0 {
            Some(median_of(sample.ranges@))
        } else {
            None
        }),
{
    if is_readable(sample) && sample.ranges.len() > 0 {
        Some(median_count(&sample.ranges))
    } else {
        None
    }
}

/// Over a frame with no range anywhere, a row of the window holds no
/// samples.
proof fn lemma_blank_row(counts: Seq<u16>, width: int, row: int, c0: int, c_end: int)
    requires
        forall|i: int| 0 <= i < counts.len() ==> counts[i] == 0,
    ensures
        row_samples(counts, width, row, c0, c_end) == Seq::<u16>::empty(),
    decreases c_end - c0,
{
    if c_end > c0 {
        lemma_blank_row(counts, width, row, c0, c_end - 1);
        assert(sample_at(counts, width, row, c_end - 1) =~= Seq::<u16>::empty());
        assert(row_samples(counts, width, row, c0, c_end) =~= Seq::<u16>::empty());
    }
}

proof fn lemma_blank_rows(counts: Seq<u16>, width: int, c0: int, c1: int, r0: int, r_end: int)
    requires
        forall|i: int| 0 <= i < counts.len() ==> counts[i] == 0,
    ensures
        rows_samples(counts, width, c0, c1, r0, r_end) == Seq::<u16>::empty(),
    decreases r_end - r0,
{
    if r_end > r0 {
        lemma_blank_rows(counts, width, c0, c1, r0, r_end - 1);
        lemma_blank_row(counts, width, r_end - 1, c0, c1 + 1);
        assert(rows_samples(counts, width, c0, c1, r0, r_end) =~= Seq::<u16>::empty());
    }
}

/// A frame that carries no range anywhere is no measurement: its
/// window is unreadable, never occupied or empty by default.
pub proof fn law_a_blank_frame_is_unreadable(counts: Seq<u16>, width: int, w: Window)
    requires
        w.c0 <= w.c1,
        w.r0 <= w.r1,
        forall|i: int| 0 <= i < counts.len() ==> counts[i] == 0,
    ensures
        window_samples(counts, width, w).len() == 0,
        !readable(window_cells(w), window_samples(counts, width, w).len() as int),
{
    lemma_blank_rows(counts, width, w.c0 as int, w.c1 as int, w.r0 as int, w.r1 + 1);
    assert(window_cells(w) >= 1) by (nonlinear_arith)
        requires
            w.c0 <= w.c1,
            w.r0 <= w.r1,
    ;
}

/// Over a frame reading `v` everywhere, each pixel of a row inside the
/// frame gives one sample, and it is `v`.
proof fn lemma_flat_row(counts: Seq<u16>, width: int, row: int, c0: int, c_end: int, v: u16)
    requires
        v != 0,
        forall|i: int| 0 <= i < counts.len() ==> counts[i] == v,
        0 <= row,
        0 <= width,
        0 <= c0,
        c_end <= c0 || row * width + c_end - 1 < counts.len(),
    ensures
        row_samples(counts, width, row, c0, c_end).len() == if c_end <= c0 {
            0
        } else {
            c_end - c0
        },
        forall|k: int|
            0 <= k < row_samples(counts, width, row, c0, c_end).len() ==> #[trigger] row_samples(
                counts,
                width,
                row,
                c0,
                c_end,
            )[k] == v,
    decreases c_end - c0,
{
    if c_end > c0 {
        assert(row * width >= 0) by (nonlinear_arith)
            requires
                0 <= row,
                0 <= width,
        ;
        lemma_flat_row(counts, width, row, c0, c_end - 1, v);
        assert(sample_at(counts, width, row, c_end - 1) =~= seq![v]);
    }
}

proof fn lemma_flat_rows(
    counts: Seq<u16>,
    width: int,
    c0: int,
    c1: int,
    r0: int,
    r_end: int,
    v: u16,
)
    requires
        v != 0,
        forall|i: int| 0 <= i < counts.len() ==> counts[i] == v,
        0 <= width,
        0 <= c0 <= c1,
        0 <= r0,
        r_end <= r0 || (r_end - 1) * width + c1 < counts.len(),
    ensures
        rows_samples(counts, width, c0, c1, r0, r_end).len() == if r_end <= r0 {
            0
        } else {
            (r_end - r0) * (c1 - c0 + 1)
        },
        forall|k: int|
            0 <= k < rows_samples(counts, width, c0, c1, r0, r_end).len() ==> #[trigger] rows_samples(
                counts,
                width,
                c0,
                c1,
                r0,
                r_end,
            )[k] == v,
    decreases r_end - r0,
{
    if r_end > r0 {
        if r_end - 1 > r0 {
            assert((r_end - 2) * width + c1 < counts.len()) by (nonlinear_arith)
                requires
                    (r_end - 1) * width + c1 < counts.len(),
                    0 <= width,
            ;
        }
        lemma_flat_rows(counts, width, c0, c1, r0, r_end - 1, v);
        lemma_flat_row(counts, width, r_end - 1, c0, c1 + 1, v);
        assert((r_end - r0) * (c1 - c0 + 1) == (r_end - 1 - r0) * (c1 - c0 + 1) + (c1 - c0 + 1))
            by (nonlinear_arith);
    }
}

/// A frame that reads the same count `v` over the whole window is
/// sampled at every pixel, and its median is that count: the verdict
/// reads one median, so a flat frame stands for any frame with it.
pub proof fn law_a_flat_frame_reads_its_own_count(counts: Seq<u16>, width: int, w: Window, v: u16)
    requires
        v != 0,
        forall|i: int| 0 <= i < counts.len() ==> counts[i] == v,
        w.c0 <= w.c1,
        w.r0 <= w.r1,
        w.r1 * width + w.c1 < counts.len(),
        0 <= width,
    ensures
        window_samples(counts, width, w).len() == window_cells(w),
        median_of(window_samples(counts, width, w)) == v,
{
    let s = window_samples(counts, width, w);
    lemma_flat_rows(counts, width, w.c0 as int, w.c1 as int, w.r0 as int, w.r1 + 1, v);
    let leq = by_count();
    assert(total_ordering(leq));
    s.lemma_sort_by_ensures(leq);
    let sorted = s.sort_by(leq);
    assert(sorted.len() == s.len()) by {
        vstd::seq_lib::to_multiset_len(s);
        vstd::seq_lib::to_multiset_len(sorted);
    }
    assert(window_cells(w) >= 1) by (nonlinear_arith)
        requires
            w.c0 <= w.c1,
            w.r0 <= w.r1,
    ;
    let m = s.len() / 2;
    assert(sorted.contains(sorted[m as int]));
    if sorted[m as int] != v {
        assert(!s.contains(sorted[m as int]));
    }
}

} // verus!
