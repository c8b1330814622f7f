//! Animated two-colour gradients: colour parsing, the ping-pong frame
//! schedule, and per-frame rasterisation of a sliding horizontal gradient.

pub mod animation;
pub mod canvas;
pub mod color;
pub mod color_lemmas;
pub mod gradient;
pub mod naming;
