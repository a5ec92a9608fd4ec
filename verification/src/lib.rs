//! Typed, shape-aware views over the raw byte regions of audio buffers.
//!
//! An audio callback hands out a region of bytes together with a sample
//! format, a channel count and a frame count. The types of this crate present
//! such a region as a grid of samples, without copying it, whatever the layout
//! (interleaved or one region per channel), the width and the byte order.
use vstd::prelude::*;

pub mod buffers;
pub mod codec;
pub mod samples;
pub mod samples_formats;
pub mod types;

verus! {

/// Number of channels of a buffer.
pub type ChannelCount = u16;

/// Number of frames of a buffer.
pub type FrameCount = u32;

} // verus!
