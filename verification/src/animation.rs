//! The animation as a whole: its validated parameters, the frame drawn at
//! each index, and each frame in the palette form that a GIF stream takes.

use crate::canvas::{image_dimensions, image_size, is_rgb_bytes, raw_bytes, FrameBuffer};
use crate::gradient::{
    generate_gradient_frame,
    is_gradient_frame,
    schedule_frame,
    schedule_spec,
    Ratio,
};
use vstd::prelude::*;

verus! {

/// Frames per second of every animation made with [`Animation::new`].
pub const FRAME_RATE: u32 = 30;

/// Why a set of animation parameters was rejected.
#[derive(Clone, Copy, Debug, PartialEq, Eq, Structural)]
pub enum InputError {
    /// The width is zero.
    ZeroWidth,
    /// The height is zero.
    ZeroHeight,
    /// The duration is zero.
    ZeroDuration,
    /// The frame rate is zero.
    ZeroFrameRate,
    /// A side is longer than the 65535 pixels a GIF canvas can have, or the
    /// canvas holds more bytes than this machine can address.
    CanvasTooLarge,
    /// The number of frames does not fit in 32 bits.
    TooManyFrames,
}

/// Why a frame could not be handed to the output stream.
#[derive(Clone, Copy, Debug, PartialEq, Eq, Structural)]
pub enum SinkError {
    /// The output could not be created.
    OutputCreateFailed,
    /// A frame could not be written.
    FrameWriteFailed,
    /// A frame does not have the dimensions of the animation.
    FrameSizeMismatch,
}

/// The parameters of an animation, validated.
#[derive(Clone, Copy, Debug)]
pub struct Animation {
    /// Width of every frame, in pixels.
    pub width: u32,
    /// Height of every frame, in pixels.
    pub height: u32,
    /// Number of frames in one loop.
    pub total_frames: u32,
    /// How long each frame is shown, in hundredths of a second.
    pub delay: u16,
}

/// One frame as a GIF stream takes it: a palette and, for each pixel, an
/// index into it.
#[derive(Debug)]
pub struct EncodedFrame {
    /// Width of the frame, in pixels.
    pub width: u16,
    /// Height of the frame, in pixels.
    pub height: u16,
    /// How long the frame is shown, in hundredths of a second.
    pub delay: u16,
    /// The colours of the frame, three bytes each, if the frame has its own.
    pub palette: Option<Vec<u8>>,
    /// One palette index per pixel, row after row.
    pub indices: Vec<u8>,
}

/// The palette and the palette indices that `gif::Frame::from_rgb` computes
/// for an image of the given dimensions and bytes.
pub uninterp spec fn quantized(width: u16, height: u16, pixels: Seq<u8>) -> (
    Option<Seq<u8>>,
    Seq<u8>,
);

/// The view of an optional byte vector.
pub open spec fn option_view(v: Option<Vec<u8>>) -> Option<Seq<u8>> {
    match v {
        Some(bytes) => Some(bytes@),
        None => None,
    }
}

/// Calls `gif::Frame::from_rgb`, which panics unless there are three bytes
/// for each pixel and it can reserve a fourth for each, and hands back the
/// palette and the index buffer of the frame it makes. The buffer holds one
/// index per pixel.
#[verifier::external_body]
fn quantize_rgb(width: u16, height: u16, pixels: &Vec<u8>) -> (out: (Option<Vec<u8>>, Vec<u8>))
    requires
        pixels@.len() == width * height * 3,
        width * height * 4 <= isize::MAX,
    ensures
        (option_view(out.0), out.1@) == quantized(width, height, pixels@),
        out.1@.len() == width * height,
{
    let frame = gif::Frame::from_rgb(width, height, pixels);
    (frame.palette, frame.buffer.into_owned())
}

/// The display time of one frame at `frame_rate` frames per second, in
/// hundredths of a second: `100 / frame_rate` rounded to the nearest
/// integer, a half rounded up.
pub open spec fn frame_delay_spec(frame_rate: int) -> int {
    (200 + frame_rate) / (2 * frame_rate)
}

/// The display time of one frame, in hundredths of a second.
pub fn frame_delay(frame_rate: u32) -> (delay: u16)
    requires
        0 < frame_rate,
    ensures
        delay == frame_delay_spec(frame_rate as int),
        delay <= 100,
{
    let rate: u64 = frame_rate as u64;
    let delay: u64 = (200 + rate) / (2 * rate);
    assert(delay <= 100) by (nonlinear_arith)
        requires
            delay == (200 + rate) / (2 * rate),
            0 < rate,
    ;
    delay as u16
}

/// What [`Animation::with_frame_rate`] answers to the given parameters: the
/// first of the faults listed here that they have, or none.
pub open spec fn input_fault(width: u32, height: u32, duration: u32, frame_rate: u32) -> Option<
    InputError,
> {
    if width == 0 {
        Some(InputError::ZeroWidth)
    } else if height == 0 {
        Some(InputError::ZeroHeight)
    } else if duration == 0 {
        Some(InputError::ZeroDuration)
    } else if frame_rate == 0 {
        Some(InputError::ZeroFrameRate)
    } else if width > u16::MAX || height > u16::MAX || 6 * width * height > isize::MAX {
        Some(InputError::CanvasTooLarge)
    } else if duration * frame_rate > u32::MAX {
        Some(InputError::TooManyFrames)
    } else {
        None
    }
}

impl Animation {
    /// The animation can be drawn: no side and no frame count is zero, the
    /// sides fit a GIF canvas, and the canvas fits in memory.
    pub open spec fn wf(&self) -> bool {
        &&& 0 < self.width <= u16::MAX
        &&& 0 < self.height <= u16::MAX
        &&& 6 * self.width * self.height <= isize::MAX
        &&& 0 < self.total_frames
    }

    /// An animation of `duration` seconds at [`FRAME_RATE`] frames per
    /// second. Zero for the width, the height or the duration is refused.
    pub fn new(width: u32, height: u32, duration: u32) -> (out: Result<Animation, InputError>)
        ensures
            out is Err <==> input_fault(width, height, duration, FRAME_RATE) is Some,
            out is Err ==> Some(out->Err_0) == input_fault(width, height, duration, FRAME_RATE),
            out is Ok ==> {
                &&& out->Ok_0.wf()
                &&& out->Ok_0.width == width
                &&& out->Ok_0.height == height
                &&& out->Ok_0.total_frames == duration * FRAME_RATE
                &&& out->Ok_0.delay == frame_delay_spec(FRAME_RATE as int)
            },
    {
        Animation::with_frame_rate(width, height, duration, FRAME_RATE)
    }

    /// An animation of `duration` seconds at `frame_rate` frames per second.
    pub fn with_frame_rate(width: u32, height: u32, duration: u32, frame_rate: u32) -> (out: Result<
        Animation,
        InputError,
    >)
        ensures
            out is Err <==> input_fault(width, height, duration, frame_rate) is Some,
            out is Err ==> Some(out->Err_0) == input_fault(width, height, duration, frame_rate),
            out is Ok ==> {
                &&& out->Ok_0.wf()
                &&& out->Ok_0.width == width
                &&& out->Ok_0.height == height
                &&& out->Ok_0.total_frames == duration * frame_rate
                &&& out->Ok_0.delay == frame_delay_spec(frame_rate as int)
            },
    {
        if width == 0 {
            return Err(InputError::ZeroWidth);
        }
        if height == 0 {
            return Err(InputError::ZeroHeight);
        }
        if duration == 0 {
            return Err(InputError::ZeroDuration);
        }
        if frame_rate == 0 {
            return Err(InputError::ZeroFrameRate);
        }
        if width > 0xFFFF || height > 0xFFFF {
            return Err(InputError::CanvasTooLarge);
        }
        assert(6 * width * height <= 6 * 0xFFFF * 0xFFFF) by (nonlinear_arith)
            requires
                width <= 0xFFFF,
                height <= 0xFFFF,
        ;
        let bytes: u64 = 6 * (width as u64) * (height as u64);
        if bytes > isize::MAX as u64 {
            return Err(InputError::CanvasTooLarge);
        }
        assert(duration * frame_rate <= 0xFFFF_FFFF * 0xFFFF_FFFF) by (nonlinear_arith)
            requires
                duration <= 0xFFFF_FFFF,
                frame_rate <= 0xFFFF_FFFF,
        ;
        let frames: u64 = (duration as u64) * (frame_rate as u64);
        if frames > 0xFFFF_FFFF {
            return Err(InputError::TooManyFrames);
        }
        assert(frames > 0) by (nonlinear_arith)
            requires
                frames == duration * frame_rate,
                duration > 0,
                frame_rate > 0,
        ;
        Ok(Animation { width, height, total_frames: frames as u32, delay: frame_delay(frame_rate) })
    }

    /// The scroll progress at frame `index`, or `None` past the last frame.
    pub fn progress(&self, index: u32) -> (p: Option<Ratio>)
        requires
            self.wf(),
        ensures
            p is Some <==> index < self.total_frames,
            p is Some ==> p->Some_0 == schedule_spec(index, self.total_frames) && p->Some_0.wf(),
    {
        if index < self.total_frames {
            Some(schedule_frame(index, self.total_frames))
        } else {
            None
        }
    }

    /// The frame at `index` of a gradient from `color1` to `color2`, or
    /// `None` past the last frame.
    pub fn render(&self, index: u32, color1: [u8; 3], color2: [u8; 3]) -> (out: Option<FrameBuffer>)
        requires
            self.wf(),
        ensures
            out is Some <==> index < self.total_frames,
            out is Some ==> is_gradient_frame(
                out->Some_0,
                self.width,
                self.height,
                schedule_spec(index, self.total_frames),
                color1@,
                color2@,
            ),
    {
        if index >= self.total_frames {
            return None;
        }
        let progress: Ratio = schedule_frame(index, self.total_frames);
        assert(3 * (2 * self.width) * self.height == 6 * self.width * self.height)
            by (nonlinear_arith);
        Some(generate_gradient_frame(self.width, self.height, progress, color1, color2))
    }

    /// Puts a frame in the form a GIF stream takes, with this animation's
    /// delay. A frame of other dimensions than the animation's is refused.
    pub fn encode(&self, frame: &FrameBuffer) -> (out: Result<EncodedFrame, SinkError>)
        requires
            self.wf(),
        ensures
            out is Ok <==> image_size(*frame) == (self.width as nat, self.height as nat),
            out is Err ==> out->Err_0 == SinkError::FrameSizeMismatch,
            out is Ok ==> {
                let f = out->Ok_0;
                &&& f.width == self.width
                &&& f.height == self.height
                &&& f.delay == self.delay
                &&& f.indices@.len() == self.width * self.height
                &&& exists|bytes: Seq<u8>|
                    {
                        &&& is_rgb_bytes(*frame, bytes)
                        &&& (option_view(f.palette), f.indices@) == #[trigger] quantized(
                            f.width,
                            f.height,
                            bytes,
                        )
                    }
            },
    {
        let (w, h) = image_dimensions(frame);
        if w != self.width || h != self.height {
            return Err(SinkError::FrameSizeMismatch);
        }
        let bytes: Vec<u8> = raw_bytes(frame);
        let width: u16 = w as u16;
        let height: u16 = h as u16;
        assert(3 * w * h == width * height * 3 && width * height * 4 <= 6 * w * h)
            by (nonlinear_arith)
            requires
                w == width,
                h == height,
        ;
        let (palette, indices) = quantize_rgb(width, height, &bytes);
        Ok(frame_with_delay(width, height, self.delay, palette, indices))
    }
}

/// A frame of the given dimensions, palette and indices, shown for `delay`
/// hundredths of a second.
pub fn frame_with_delay(
    width: u16,
    height: u16,
    delay: u16,
    palette: Option<Vec<u8>>,
    indices: Vec<u8>,
) -> (frame: EncodedFrame)
    ensures
        frame.width == width,
        frame.height == height,
        frame.delay == delay,
        frame.palette == palette,
        frame.indices == indices,
{
    EncodedFrame { width, height, delay, palette, indices }
}

} // verus!
