use gradient_gif::animation::{frame_delay, frame_with_delay, Animation, InputError, SinkError, FRAME_RATE};
use gradient_gif::color::parse_rgb;
use gradient_gif::gradient::{generate_gradient_frame, Ratio};
use gradient_gif::naming::{decimal_string, output_name};

#[test]
fn frame_rate_is_thirty() {
    assert_eq!(FRAME_RATE, 30);
}

#[test]
fn delay_is_a_hundred_over_the_rate_rounded() {
    assert_eq!(frame_delay(30), 3);
    assert_eq!(frame_delay(25), 4);
    assert_eq!(frame_delay(40), 3);
    assert_eq!(frame_delay(100), 1);
    assert_eq!(frame_delay(1), 100);
    assert_eq!(frame_delay(200), 1);
    assert_eq!(frame_delay(201), 0);
    assert_eq!(frame_delay(u32::MAX), 0);
}

#[test]
fn parameters_give_frame_count_and_delay() {
    let a = Animation::new(10, 5, 2).unwrap();
    assert_eq!((a.width, a.height, a.total_frames, a.delay), (10, 5, 60, 3));
    let b = Animation::with_frame_rate(10, 5, 2, 10).unwrap();
    assert_eq!((b.total_frames, b.delay), (20, 10));
    let c = Animation::new(65535, 1, 1).unwrap();
    assert_eq!((c.width, c.total_frames), (65535, 30));
}

#[test]
fn zero_width_height_or_duration_is_rejected() {
    assert_eq!(Animation::new(0, 5, 2).unwrap_err(), InputError::ZeroWidth);
    assert_eq!(Animation::new(10, 0, 2).unwrap_err(), InputError::ZeroHeight);
    assert_eq!(Animation::new(10, 5, 0).unwrap_err(), InputError::ZeroDuration);
    assert_eq!(Animation::new(0, 0, 0).unwrap_err(), InputError::ZeroWidth);
    assert_eq!(Animation::new(1, 0, 0).unwrap_err(), InputError::ZeroHeight);
    assert_eq!(Animation::with_frame_rate(10, 5, 2, 0).unwrap_err(), InputError::ZeroFrameRate);
}

#[test]
fn what_a_gif_cannot_hold_is_rejected() {
    assert_eq!(Animation::new(65536, 5, 2).unwrap_err(), InputError::CanvasTooLarge);
    assert_eq!(Animation::new(5, 70000, 2).unwrap_err(), InputError::CanvasTooLarge);
    assert_eq!(Animation::new(10, 5, u32::MAX).unwrap_err(), InputError::TooManyFrames);
    assert_eq!(Animation::new(10, 5, 143_165_577).unwrap_err(), InputError::TooManyFrames);
    assert_eq!(Animation::new(10, 5, 143_165_576).unwrap().total_frames, 4_294_967_280);
}

#[test]
fn progress_follows_the_schedule_and_stops_at_the_last_frame() {
    let a = Animation::new(10, 5, 2).unwrap();
    let first = a.progress(0).unwrap();
    assert_eq!((first.num, first.den), (0, 60));
    let middle = a.progress(30).unwrap();
    assert_eq!((middle.num, middle.den), (60, 60));
    let last = a.progress(59).unwrap();
    assert_eq!((last.num, last.den), (2, 60));
    assert!(a.progress(60).is_none());
    assert!(a.render(60, [0, 0, 0], [1, 1, 1]).is_none());
}

#[test]
fn black_to_white_two_seconds_end_to_end() {
    let start = parse_rgb("#000000").unwrap();
    let end = parse_rgb("#FFFFFF").unwrap();
    let animation = Animation::new(10, 5, 2).unwrap();
    assert_eq!(animation.total_frames, 60);
    let mut count = 0;
    for i in 0..animation.total_frames {
        let frame = animation.render(i, start, end).unwrap();
        assert_eq!((frame.width(), frame.height()), (10, 5));
        let progress = animation.progress(i).unwrap();
        let same = generate_gradient_frame(10, 5, progress, start, end);
        assert_eq!(frame.to_rgb_bytes(), same.to_rgb_bytes());
        let encoded = animation.encode(&frame).unwrap();
        assert_eq!((encoded.width, encoded.height, encoded.delay), (10, 5, 3));
        assert_eq!(encoded.indices.len(), 50);
        count += 1;
    }
    assert_eq!(count, 60);
    let first = animation.render(0, start, end).unwrap();
    assert_eq!(first.pixel(0, 0), Some([0, 0, 0]));
    assert_eq!(first.pixel(9, 4), Some([115, 115, 115]));
    let halfway = animation.render(30, start, end).unwrap();
    assert_eq!(halfway.pixel(0, 0), Some([128, 128, 128]));
    assert_eq!(halfway.pixel(9, 0), Some([242, 242, 242]));
}

#[test]
fn encoded_frame_indexes_a_palette_of_the_frame_colours() {
    let animation = Animation::new(6, 2, 1).unwrap();
    let frame = animation.render(7, [255, 0, 0], [0, 0, 255]).unwrap();
    let encoded = animation.encode(&frame).unwrap();
    let palette = encoded.palette.expect("a frame of few colours has its own palette");
    assert_eq!(encoded.indices.len(), 12);
    for y in 0..2u32 {
        for x in 0..6u32 {
            let index = encoded.indices[(y * 6 + x) as usize] as usize;
            let colour = [palette[3 * index], palette[3 * index + 1], palette[3 * index + 2]];
            assert_eq!(Some(colour), frame.pixel(x, y));
        }
    }
}

#[test]
fn encoded_frame_is_what_the_gif_crate_makes_of_the_bytes() {
    let animation = Animation::new(8, 3, 1).unwrap();
    let frame = animation.render(3, [9, 80, 200], [250, 150, 0]).unwrap();
    let encoded = animation.encode(&frame).unwrap();
    let direct = gif::Frame::from_rgb(8, 3, &frame.to_rgb_bytes());
    assert_eq!(encoded.palette, direct.palette);
    assert_eq!(encoded.indices, direct.buffer.into_owned());
}

#[test]
fn frame_of_another_size_is_refused() {
    let animation = Animation::new(10, 5, 2).unwrap();
    let other = generate_gradient_frame(4, 4, Ratio::new(0, 1).unwrap(), [0, 0, 0], [9, 9, 9]);
    assert_eq!(animation.encode(&other).unwrap_err(), SinkError::FrameSizeMismatch);
    let swapped = generate_gradient_frame(5, 10, Ratio::new(0, 1).unwrap(), [0, 0, 0], [9, 9, 9]);
    assert_eq!(animation.encode(&swapped).unwrap_err(), SinkError::FrameSizeMismatch);
}

#[test]
fn frame_with_delay_keeps_what_it_is_given() {
    let f = frame_with_delay(2, 1, 7, Some(vec![1, 2, 3]), vec![0, 0]);
    assert_eq!((f.width, f.height, f.delay), (2, 1, 7));
    assert_eq!(f.palette, Some(vec![1, 2, 3]));
    assert_eq!(f.indices, vec![0, 0]);
}

#[test]
fn written_stream_loops_forever_and_holds_every_frame() {
    let start = parse_rgb("#000000").unwrap();
    let end = parse_rgb("255, 255, 255").unwrap();
    let animation = Animation::new(10, 5, 2).unwrap();
    let mut out: Vec<u8> = Vec::new();
    {
        let mut encoder = gif::Encoder::new(&mut out, 10, 5, &[]).unwrap();
        encoder.set_repeat(gif::Repeat::Infinite).unwrap();
        for i in 0..animation.total_frames {
            let frame = animation.render(i, start, end).unwrap();
            let encoded = animation.encode(&frame).unwrap();
            let mut gif_frame = gif::Frame::default();
            gif_frame.width = encoded.width;
            gif_frame.height = encoded.height;
            gif_frame.delay = encoded.delay;
            gif_frame.palette = encoded.palette;
            gif_frame.buffer = std::borrow::Cow::Owned(encoded.indices);
            encoder.write_frame(&gif_frame).unwrap();
        }
    }
    let mut decoder = gif::DecodeOptions::new().read_info(&out[..]).unwrap();
    assert_eq!((decoder.width(), decoder.height()), (10, 5));
    let mut frames = 0;
    while let Some(frame) = decoder.read_next_frame().unwrap() {
        assert_eq!((frame.width, frame.height, frame.delay), (10, 5, 3));
        frames += 1;
    }
    assert_eq!(frames, 60);
    assert_eq!(decoder.repeat(), gif::Repeat::Infinite);
}

#[test]
fn output_name_embeds_width_height_and_duration() {
    assert_eq!(output_name(10, 5, 2), "gradient_10x5_2s.gif");
    assert_eq!(output_name(640, 480, 12), "gradient_640x480_12s.gif");
    assert_eq!(output_name(0, 0, 0), "gradient_0x0_0s.gif");
    assert_eq!(
        output_name(u32::MAX, 1, 100),
        "gradient_4294967295x1_100s.gif"
    );
    assert_ne!(output_name(11, 1, 1), output_name(1, 11, 1));
    for n in [0u32, 9, 10, 99, 100, 1234567890, u32::MAX] {
        assert_eq!(decimal_string(n), n.to_string());
    }
}
