use gradient_gif::gradient::{
    generate_gradient_frame, interpolate_color, schedule_frame, window_offset, Ratio,
};

fn ratio(num: u32, den: u32) -> Ratio {
    Ratio::new(num, den).unwrap()
}

#[test]
fn ratio_must_lie_between_zero_and_one() {
    assert!(Ratio::new(0, 1).is_some());
    assert!(Ratio::new(5, 5).is_some());
    assert!(Ratio::new(6, 5).is_none());
    assert!(Ratio::new(0, 0).is_none());
    let r = ratio(3, 7);
    assert_eq!((r.num, r.den), (3, 7));
}

#[test]
fn interpolation_ends_at_the_two_colours() {
    let c1 = [12, 200, 255];
    let c2 = [240, 3, 0];
    for den in [1u32, 2, 3, 20, 1000, u32::MAX] {
        assert_eq!(interpolate_color(c1, c2, ratio(0, den)), c1);
        assert_eq!(interpolate_color(c1, c2, ratio(den, den)), c2);
    }
}

#[test]
fn interpolation_rounds_to_nearest_half_up() {
    assert_eq!(interpolate_color([0, 0, 0], [255, 255, 255], ratio(1, 2)), [128, 128, 128]);
    assert_eq!(interpolate_color([0, 0, 0], [255, 255, 255], ratio(1, 20)), [13, 13, 13]);
    assert_eq!(interpolate_color([0, 100, 200], [200, 100, 0], ratio(1, 4)), [50, 100, 150]);
    assert_eq!(interpolate_color([0, 1, 3], [1, 0, 0], ratio(1, 2)), [1, 1, 2]);
    assert_eq!(interpolate_color([0, 0, 0], [1, 2, 4], ratio(1, 3)), [0, 1, 1]);
    assert_eq!(
        interpolate_color([255, 255, 255], [255, 255, 255], ratio(u32::MAX - 1, u32::MAX)),
        [255, 255, 255]
    );
}

#[test]
fn interpolation_agrees_with_floating_point_away_from_ties() {
    let c1 = [10u8, 250, 77];
    let c2 = [200u8, 5, 78];
    for x in 0..=41u32 {
        let got = interpolate_color(c1, c2, ratio(x, 41));
        for ch in 0..3 {
            let r = x as f64 / 41.0;
            let exact = (1.0 - r) * c1[ch] as f64 + r * c2[ch] as f64;
            assert_eq!(got[ch], (exact + 0.5).floor() as u8, "x {} channel {}", x, ch);
        }
    }
}

#[test]
fn schedule_starts_at_zero_and_peaks_in_the_middle() {
    let p0 = schedule_frame(0, 60);
    assert_eq!((p0.num, p0.den), (0, 60));
    let mid = schedule_frame(30, 60);
    assert_eq!((mid.num, mid.den), (60, 60));
    let quarter = schedule_frame(15, 60);
    assert_eq!((quarter.num, quarter.den), (30, 60));
    let late = schedule_frame(59, 60);
    assert_eq!((late.num, late.den), (2, 60));
    let odd = schedule_frame(2, 5);
    assert_eq!((odd.num, odd.den), (4, 5));
    let odd_down = schedule_frame(3, 5);
    assert_eq!((odd_down.num, odd_down.den), (4, 5));
    let big = schedule_frame(u32::MAX - 1, u32::MAX);
    assert_eq!((big.num, big.den), (2, u32::MAX));
}

#[test]
fn schedule_reads_the_same_from_either_end() {
    for total in [1u32, 2, 5, 60, 61] {
        for k in 0..=total {
            let up = schedule_frame(k, total);
            let down = schedule_frame(total - k, total);
            assert_eq!((up.num, up.den), (down.num, down.den));
            assert!(up.num <= up.den);
        }
    }
}

#[test]
fn window_offset_is_the_whole_part_of_progress_times_width() {
    assert_eq!(window_offset(ratio(0, 60), 10), 0);
    assert_eq!(window_offset(ratio(60, 60), 10), 10);
    assert_eq!(window_offset(ratio(1, 2), 10), 5);
    assert_eq!(window_offset(ratio(1, 3), 10), 3);
    assert_eq!(window_offset(ratio(2, 60), 10), 0);
    assert_eq!(window_offset(ratio(58, 60), 10), 9);
    assert_eq!(window_offset(ratio(u32::MAX, u32::MAX), u32::MAX), u32::MAX);
}

#[test]
fn frame_has_the_size_asked_for() {
    for (w, h) in [(10u32, 5u32), (1, 1), (3, 7), (64, 2)] {
        for num in 0..=4u32 {
            let frame = generate_gradient_frame(w, h, ratio(num, 4), [0, 0, 0], [255, 255, 255]);
            assert_eq!(frame.width(), w);
            assert_eq!(frame.height(), h);
            assert_eq!(frame.to_rgb_bytes().len(), (3 * w * h) as usize);
            assert!(frame.pixel(w - 1, h - 1).is_some());
            assert!(frame.pixel(w, 0).is_none());
            assert!(frame.pixel(0, h).is_none());
        }
    }
}

#[test]
fn empty_frames_are_drawn_without_fault() {
    let no_columns = generate_gradient_frame(0, 5, ratio(1, 2), [1, 2, 3], [4, 5, 6]);
    assert_eq!((no_columns.width(), no_columns.height()), (0, 5));
    assert!(no_columns.to_rgb_bytes().is_empty());
    assert!(no_columns.pixel(0, 0).is_none());
    let no_rows = generate_gradient_frame(5, 0, ratio(1, 2), [1, 2, 3], [4, 5, 6]);
    assert_eq!((no_rows.width(), no_rows.height()), (5, 0));
    assert!(no_rows.to_rgb_bytes().is_empty());
}

#[test]
fn frame_at_progress_zero_shows_the_left_half() {
    let frame = generate_gradient_frame(10, 5, ratio(0, 60), [0, 0, 0], [255, 255, 255]);
    let expected: [u8; 10] = [0, 13, 26, 38, 51, 64, 77, 89, 102, 115];
    for y in 0..5 {
        for x in 0..10u32 {
            let v = expected[x as usize];
            assert_eq!(frame.pixel(x, y), Some([v, v, v]));
        }
    }
}

#[test]
fn frame_at_progress_one_shows_the_right_half() {
    let frame = generate_gradient_frame(10, 5, ratio(60, 60), [0, 0, 0], [255, 255, 255]);
    let expected: [u8; 10] = [128, 140, 153, 166, 179, 191, 204, 217, 230, 242];
    for y in 0..5 {
        for x in 0..10u32 {
            let v = expected[x as usize];
            assert_eq!(frame.pixel(x, y), Some([v, v, v]));
        }
    }
}

#[test]
fn every_pixel_is_the_blend_for_its_column_of_the_wide_canvas() {
    let c1 = [200, 30, 0];
    let c2 = [10, 90, 255];
    for num in 0..=7u32 {
        let progress = ratio(num, 7);
        let offset = window_offset(progress, 9);
        let frame = generate_gradient_frame(9, 4, progress, c1, c2);
        for y in 0..4 {
            for x in 0..9u32 {
                let expected = interpolate_color(c1, c2, ratio(x + offset, 18));
                assert_eq!(frame.pixel(x, y), Some(expected));
            }
        }
    }
}

#[test]
fn bytes_run_row_by_row_three_to_a_pixel() {
    let frame = generate_gradient_frame(4, 3, ratio(1, 4), [0, 100, 200], [80, 20, 40]);
    let bytes = frame.to_rgb_bytes();
    assert_eq!(bytes.len(), 36);
    for y in 0..3u32 {
        for x in 0..4u32 {
            let p = frame.pixel(x, y).unwrap();
            let at = (3 * (y * 4 + x)) as usize;
            assert_eq!(&bytes[at..at + 3], &p[..]);
        }
    }
    assert_ne!(frame.pixel(0, 0), frame.pixel(3, 0));
}
