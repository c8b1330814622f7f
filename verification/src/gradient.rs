//! The gradient itself: blending two colours, the ping-pong schedule of the
//! scroll, and the frame drawn at each point of it.

use crate::canvas::{crop_image, grid, image_pixels, image_size, new_image, put_pixel, FrameBuffer};
use vstd::prelude::*;

verus! {

/// A fraction between 0 and 1, both included: `num / den`.
#[derive(Clone, Copy, Debug, PartialEq, Eq, Structural)]
pub struct Ratio {
    pub num: u32,
    pub den: u32,
}

impl Ratio {
    /// The denominator is positive and the fraction is at most 1.
    pub open spec fn wf(&self) -> bool {
        0 < self.den && self.num <= self.den
    }

    /// `num / den`, or `None` where that is no fraction between 0 and 1.
    pub fn new(num: u32, den: u32) -> (r: Option<Ratio>)
        ensures
            r is Some <==> 0 < den && num <= den,
            r is Some ==> r->Some_0.num == num && r->Some_0.den == den && r->Some_0.wf(),
    {
        if 0 < den && num <= den {
            Some(Ratio { num, den })
        } else {
            None
        }
    }
}

/// One channel of the blend of `a` and `b` at `num / den` of the way from
/// `a` to `b`: `((den - num) * a + num * b) / den`, rounded to the nearest
/// integer, a half rounded up.
pub open spec fn blend_channel(a: int, b: int, num: int, den: int) -> int {
    (2 * (a * (den - num) + b * num) + den) / (2 * den)
}

/// The blend of two colours, channel by channel.
pub open spec fn interpolate_spec(color1: Seq<u8>, color2: Seq<u8>, num: int, den: int) -> Seq<u8> {
    seq![
        blend_channel(color1[0] as int, color2[0] as int, num, den) as u8,
        blend_channel(color1[1] as int, color2[1] as int, num, den) as u8,
        blend_channel(color1[2] as int, color2[2] as int, num, den) as u8,
    ]
}

/// A blend of two bytes lies between 0 and 255.
pub proof fn lemma_blend_channel_is_byte(a: int, b: int, num: int, den: int)
    requires
        0 <= a <= 255,
        0 <= b <= 255,
        0 <= num <= den,
        0 < den,
    ensures
        0 <= blend_channel(a, b, num, den) <= 255,
        0 <= a * (den - num) + b * num <= 255 * den,
{
    let x = a * (den - num) + b * num;
    assert(0 <= x <= 255 * den) by (nonlinear_arith)
        requires
            x == a * (den - num) + b * num,
            0 <= a <= 255,
            0 <= b <= 255,
            0 <= num <= den,
    ;
    assert(0 <= (2 * x + den) / (2 * den) <= 255) by (nonlinear_arith)
        requires
            0 <= x <= 255 * den,
            0 < den,
    ;
}

/// One channel at the two ends: at ratio 0 the blend is `a`, at ratio 1 `b`.
pub proof fn lemma_blend_channel_endpoints(a: int, b: int, den: int)
    requires
        0 <= a,
        0 <= b,
        0 < den,
    ensures
        blend_channel(a, b, 0, den) == a,
        blend_channel(a, b, den, den) == b,
{
    assert((2 * (a * (den - 0) + b * 0) + den) / (2 * den) == a) by (nonlinear_arith)
        requires
            0 < den,
            0 <= a,
    ;
    assert((2 * (a * (den - den) + b * den) + den) / (2 * den) == b) by (nonlinear_arith)
        requires
            0 < den,
            0 <= b,
    ;
}

/// At ratio 0 the blend is the first colour, at ratio 1 the second.
pub proof fn lemma_interpolate_endpoints(color1: Seq<u8>, color2: Seq<u8>, den: int)
    requires
        color1.len() == 3,
        color2.len() == 3,
        0 < den,
    ensures
        interpolate_spec(color1, color2, 0, den) == color1,
        interpolate_spec(color1, color2, den, den) == color2,
{
    lemma_blend_channel_endpoints(color1[0] as int, color2[0] as int, den);
    lemma_blend_channel_endpoints(color1[1] as int, color2[1] as int, den);
    lemma_blend_channel_endpoints(color1[2] as int, color2[2] as int, den);
    assert(interpolate_spec(color1, color2, 0, den) =~= color1);
    assert(interpolate_spec(color1, color2, den, den) =~= color2);
}

fn blend(a: u8, b: u8, ratio: Ratio) -> (c: u8)
    requires
        ratio.wf(),
    ensures
        c == blend_channel(a as int, b as int, ratio.num as int, ratio.den as int),
{
    let num: u64 = ratio.num as u64;
    let den: u64 = ratio.den as u64;
    proof {
        lemma_blend_channel_is_byte(a as int, b as int, num as int, den as int);
        assert(a * (den - num) <= 255 * den && b * num <= 255 * den) by (nonlinear_arith)
            requires
                0 <= a <= 255,
                0 <= b <= 255,
                0 <= num <= den,
        ;
    }
    let weighted: u64 = (a as u64) * (den - num) + (b as u64) * num;
    let rounded: u64 = (2 * weighted + den) / (2 * den);
    rounded as u8
}

/// The colour `ratio` of the way from `color1` to `color2`. Each channel is
/// blended by itself and rounded to the nearest integer, a half rounded up.
pub fn interpolate_color(color1: [u8; 3], color2: [u8; 3], ratio: Ratio) -> (color: [u8; 3])
    requires
        ratio.wf(),
    ensures
        color@ == interpolate_spec(color1@, color2@, ratio.num as int, ratio.den as int),
        ratio.num == 0 ==> color@ == color1@,
        ratio.num == ratio.den ==> color@ == color2@,
{
    let color: [u8; 3] = [
        blend(color1[0], color2[0], ratio),
        blend(color1[1], color2[1], ratio),
        blend(color1[2], color2[2], ratio),
    ];
    proof {
        lemma_interpolate_endpoints(color1@, color2@, ratio.den as int);
        assert(color@ =~= interpolate_spec(
            color1@,
            color2@,
            ratio.num as int,
            ratio.den as int,
        ));
    }
    color
}

/// The numerator of the scroll progress at frame `frame_index` of
/// `total_frames`: twice the index on the way up, and as much below twice
/// the total on the way down.
pub open spec fn progress_num(frame_index: int, total_frames: int) -> int {
    if 2 * frame_index <= total_frames {
        2 * frame_index
    } else {
        2 * total_frames - 2 * frame_index
    }
}

/// The scroll progress at frame `frame_index` of `total_frames`, as a
/// fraction of `total_frames`.
pub open spec fn schedule_spec(frame_index: u32, total_frames: u32) -> Ratio {
    Ratio {
        num: progress_num(frame_index as int, total_frames as int) as u32,
        den: total_frames,
    }
}

/// The scroll progress at frame `frame_index` of `total_frames`: a triangle
/// wave that climbs from 0 to 1 over the first half of the frames and falls
/// back to 0 over the second.
pub fn schedule_frame(frame_index: u32, total_frames: u32) -> (progress: Ratio)
    requires
        0 < total_frames,
        frame_index <= total_frames,
    ensures
        progress == schedule_spec(frame_index, total_frames),
        progress.wf(),
        progress.num == progress_num(frame_index as int, total_frames as int),
{
    let twice: u64 = 2 * (frame_index as u64);
    let total: u64 = total_frames as u64;
    let num: u64 = if twice <= total {
        twice
    } else {
        2 * total - twice
    };
    Ratio { num: num as u32, den: total_frames }
}

/// The schedule starts at 0, is within one step of 1 at the middle frame
/// (and is 1 there when the number of frames is even), and reads the same
/// from either end.
pub proof fn lemma_schedule_symmetry(k: int, total_frames: int)
    requires
        0 < total_frames,
        0 <= k <= total_frames,
    ensures
        progress_num(0, total_frames) == 0,
        total_frames - 1 <= progress_num(total_frames / 2, total_frames) <= total_frames,
        total_frames % 2 == 0 ==> progress_num(total_frames / 2, total_frames) == total_frames,
        progress_num(k, total_frames) == progress_num(total_frames - k, total_frames),
        0 <= progress_num(k, total_frames) <= total_frames,
{
}

/// How many columns the window has moved at `progress`: the whole part of
/// `progress * width`.
pub open spec fn window_offset_spec(progress: Ratio, width: int) -> int {
    (progress.num * width) / (progress.den as int)
}

/// The window never leaves a canvas twice as wide as itself.
pub proof fn lemma_window_in_canvas(progress: Ratio, width: int)
    requires
        progress.wf(),
        0 <= width,
    ensures
        0 <= window_offset_spec(progress, width) <= width,
        window_offset_spec(progress, width) + width <= 2 * width,
        progress.num == 0 ==> window_offset_spec(progress, width) == 0,
        progress.num == progress.den ==> window_offset_spec(progress, width) == width,
{
    let n = progress.num as int;
    let d = progress.den as int;
    assert(0 <= (n * width) / d <= width) by (nonlinear_arith)
        requires
            0 <= n <= d,
            0 < d,
            0 <= width,
    ;
    assert(n == 0 ==> (n * width) / d == 0) by (nonlinear_arith)
        requires
            0 < d,
    ;
    assert(n == d ==> (n * width) / d == width) by (nonlinear_arith)
        requires
            0 < d,
    ;
}

/// The column of the wide canvas at which the window starts.
pub fn window_offset(progress: Ratio, width: u32) -> (offset: u32)
    requires
        progress.wf(),
    ensures
        offset == window_offset_spec(progress, width as int),
        offset <= width,
{
    proof {
        lemma_window_in_canvas(progress, width as int);
        assert(progress.num * width <= 0xFFFF_FFFF * 0xFFFF_FFFF) by (nonlinear_arith)
            requires
                progress.num <= 0xFFFF_FFFF,
                width <= 0xFFFF_FFFF,
        ;
    }
    let scaled: u64 = (progress.num as u64) * (width as u64);
    (scaled / (progress.den as u64)) as u32
}

/// Whether `frame` is the frame of the given dimensions at `progress` of a
/// gradient from `color1` to `color2`: each pixel has the blend that
/// belongs to its column of a canvas twice as wide, the window's offset
/// added to the column.
pub open spec fn is_gradient_frame(
    frame: FrameBuffer,
    width: u32,
    height: u32,
    progress: Ratio,
    color1: Seq<u8>,
    color2: Seq<u8>,
) -> bool {
    &&& image_size(frame) == (width as nat, height as nat)
    &&& image_pixels(frame).dom() == grid(width as nat, height as nat)
    &&& forall|x: int, y: int|
        0 <= x < width && 0 <= y < height ==> (#[trigger] image_pixels(frame)[(x, y)])@
            == interpolate_spec(
            color1,
            color2,
            x + window_offset_spec(progress, width as int),
            2 * width,
        )
}

/// Draws one frame. A gradient from `color1` to `color2` is laid out over a
/// canvas twice as wide as the frame, each column in the one colour that
/// belongs to its place; the frame is the window of that canvas that starts
/// `progress` of a frame's width from the left edge.
pub fn generate_gradient_frame(
    width: u32,
    height: u32,
    progress: Ratio,
    color1: [u8; 3],
    color2: [u8; 3],
) -> (frame: FrameBuffer)
    requires
        progress.wf(),
        2 * width <= u32::MAX,
        3 * (2 * width) * height <= isize::MAX,
    ensures
        is_gradient_frame(frame, width, height, progress, color1@, color2@),
{
    let extended_width: u32 = width * 2;
    let mut img: FrameBuffer = new_image(extended_width, height);
    let mut x: u32 = 0;
    while x < extended_width
        invariant
            x <= extended_width,
            extended_width == 2 * width,
            image_size(img) == (extended_width as nat, height as nat),
            forall|a: int, b: int|
                0 <= a < x && 0 <= b < height ==> (#[trigger] image_pixels(img)[(a, b)])@
                    == interpolate_spec(color1@, color2@, a, extended_width as int),
        decreases extended_width - x,
    {
        let color: [u8; 3] = interpolate_color(color1, color2, Ratio { num: x, den: extended_width });
        let mut y: u32 = 0;
        while y < height
            invariant
                y <= height,
                x < extended_width,
                image_size(img) == (extended_width as nat, height as nat),
                color@ == interpolate_spec(color1@, color2@, x as int, extended_width as int),
                forall|a: int, b: int|
                    0 <= a < x && 0 <= b < height ==> (#[trigger] image_pixels(img)[(a, b)])@
                        == interpolate_spec(color1@, color2@, a, extended_width as int),
                forall|b: int|
                    0 <= b < y ==> (#[trigger] image_pixels(img)[(x as int, b)])@ == color@,
            decreases height - y,
        {
            put_pixel(&mut img, x, y, color);
            y += 1;
        }
        x += 1;
    }
    let offset: u32 = window_offset(progress, width);
    let frame: FrameBuffer = crop_image(&mut img, offset, 0, width, height);
    assert forall|x: int, y: int| 0 <= x < width && 0 <= y < height implies (#[trigger] image_pixels(
        frame,
    )[(x, y)])@ == interpolate_spec(color1@, color2@, x + offset, 2 * width) by {
        assert(grid(width as nat, height as nat).contains((x, y)));
    }
    frame
}

} // verus!
