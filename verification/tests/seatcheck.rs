use sample_changer::seatcheck::{
    is_readable, median_count, median_if_readable, sample_window, DepthFrame, Verdict, Window,
    WindowSample,
};

fn flat(count: u16, width: usize, height: usize) -> DepthFrame {
    DepthFrame {
        counts: vec![count; width * height],
    }
}

#[test]
fn verdicts_are_named() {
    assert_eq!(Verdict::Occupied.label(), "occupied");
    assert_eq!(Verdict::Empty.label(), "empty");
    assert_eq!(Verdict::Unreadable.label(), "unreadable");
}

#[test]
fn a_flat_frame_reads_its_own_count_everywhere() {
    // 131.6 mm in 0.1 mm counts, the loaded holder 2 of the archived A/B.
    let frame = flat(1316, 640, 480);
    let window = Window { c0: 290, c1: 320, r0: 302, r1: 325 };
    let sample = sample_window(&frame, 640, window);
    assert_eq!(sample.total, 31 * 24);
    assert_eq!(sample.ranges.len(), 31 * 24);
    assert_eq!(median_if_readable(&sample), Some(1316));
}

/// A frame carrying no ranges is neither, and must not read as the
/// class whose side of the threshold zero happens to fall on.
#[test]
fn a_blank_frame_is_unreadable() {
    let frame = flat(0, 640, 480);
    let window = Window { c0: 290, c1: 320, r0: 302, r1: 325 };
    let sample = sample_window(&frame, 640, window);
    assert_eq!(sample.ranges.len(), 0);
    assert!(!is_readable(&sample));
    assert_eq!(median_if_readable(&sample), None);
}

#[test]
fn zero_counts_and_pixels_off_the_frame_are_not_ranges() {
    // A 4x3 frame; the window reaches one row past its end.
    let frame = DepthFrame {
        counts: vec![
            5, 0, 7, 9, //
            0, 3, 0, 4, //
            8, 0, 2, 0,
        ],
    };
    let window = Window { c0: 1, c1: 2, r0: 1, r1: 3 };
    let sample = sample_window(&frame, 4, window);
    assert_eq!(sample.total, 6);
    assert_eq!(sample.ranges, vec![3, 2]);
    assert_eq!(median_if_readable(&sample), Some(3));
}

#[test]
fn a_tenth_of_the_window_is_enough() {
    let mut counts = vec![0u16; 100];
    for c in counts.iter_mut().take(10) {
        *c = 1500;
    }
    let frame = DepthFrame { counts };
    let window = Window { c0: 0, c1: 9, r0: 0, r1: 9 };
    let sample = sample_window(&frame, 10, window);
    assert_eq!(sample.ranges.len(), 10);
    assert!(is_readable(&sample));
    let short = WindowSample { total: 100, ranges: vec![1500; 9] };
    assert!(!is_readable(&short));
    assert_eq!(median_if_readable(&short), None);
}

#[test]
fn the_median_is_the_upper_middle_of_the_ranked_counts() {
    assert_eq!(median_count(&vec![1775]), 1775);
    assert_eq!(median_count(&vec![9, 1, 5]), 5);
    assert_eq!(median_count(&vec![4, 1, 3, 2]), 3);
    assert_eq!(median_count(&vec![1529, 1316, 1316, 1775, 1529]), 1529);
}
