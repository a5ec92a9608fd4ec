//! The sample formats that a stream can be asked for: a primitive together
//! with one of its encodings.
use crate::buffers::grid::Grid;
use crate::buffers::interleaved::interleaved_shape;
use crate::buffers::{SampleBuffer, SampleBufferMut};
use crate::types;
use crate::types::Encoding;
use crate::{ChannelCount, FrameCount};
use vstd::prelude::*;

verus! {

/// Format that each sample type has in memory.
#[derive(Clone, Copy, Debug, PartialEq, Eq)]
#[non_exhaustive]
pub enum RawSampleFormat {
    /// `i8` with `0` being the origin
    I8(types::i8::RawFormat),

    /// `i16` with `0` being the origin
    I16(types::i16::RawFormat),

    /// `I24` with a valid range of `-(1 << 23)..(1 << 23)` and `0` being the origin
    I24(types::i24::RawFormat),

    /// `i32` with `0` being the origin
    I32(types::i32::RawFormat),

    /// `i64` with `0` being the origin
    I64(types::i64::RawFormat),

    /// `u8` with `1 << 7 == 128` being the origin
    U8(types::u8::RawFormat),

    /// `u16` with `1 << 15 == 32768` being the origin
    U16(types::u16::RawFormat),

    /// `U24` with a valid range of `0..(1 << 24)` and `1 << 23 == 8388608` being the origin
    U24(types::u24::RawFormat),

    /// `u32` with `1 << 31` being the origin
    U32(types::u32::RawFormat),

    /// `u64` with `1 << 63` being the origin
    U64(types::u64::RawFormat),

    /// 32-bit float with a valid range of `-1.0..1.0` and `0.0` being the origin
    F32(types::float32::RawFormat),

    /// 64-bit float with a valid range of `-1.0..1.0` and `0.0` being the origin
    F64(types::float64::RawFormat),
}

impl Encoding for RawSampleFormat {
    open spec fn spec_sample_size(self) -> nat {
        match self {
            Self::I8(format) => format.spec_sample_size(),
            Self::I16(format) => format.spec_sample_size(),
            Self::I24(format) => format.spec_sample_size(),
            Self::I32(format) => format.spec_sample_size(),
            Self::I64(format) => format.spec_sample_size(),
            Self::U8(format) => format.spec_sample_size(),
            Self::U16(format) => format.spec_sample_size(),
            Self::U24(format) => format.spec_sample_size(),
            Self::U32(format) => format.spec_sample_size(),
            Self::U64(format) => format.spec_sample_size(),
            Self::F32(format) => format.spec_sample_size(),
            Self::F64(format) => format.spec_sample_size(),
        }
    }

    open spec fn spec_is_le(self) -> bool {
        match self {
            Self::I8(format) => format.spec_is_le(),
            Self::I16(format) => format.spec_is_le(),
            Self::I24(format) => format.spec_is_le(),
            Self::I32(format) => format.spec_is_le(),
            Self::I64(format) => format.spec_is_le(),
            Self::U8(format) => format.spec_is_le(),
            Self::U16(format) => format.spec_is_le(),
            Self::U24(format) => format.spec_is_le(),
            Self::U32(format) => format.spec_is_le(),
            Self::U64(format) => format.spec_is_le(),
            Self::F32(format) => format.spec_is_le(),
            Self::F64(format) => format.spec_is_le(),
        }
    }

    open spec fn spec_is_be(self) -> bool {
        match self {
            Self::I8(format) => format.spec_is_be(),
            Self::I16(format) => format.spec_is_be(),
            Self::I24(format) => format.spec_is_be(),
            Self::I32(format) => format.spec_is_be(),
            Self::I64(format) => format.spec_is_be(),
            Self::U8(format) => format.spec_is_be(),
            Self::U16(format) => format.spec_is_be(),
            Self::U24(format) => format.spec_is_be(),
            Self::U32(format) => format.spec_is_be(),
            Self::U64(format) => format.spec_is_be(),
            Self::F32(format) => format.spec_is_be(),
            Self::F64(format) => format.spec_is_be(),
        }
    }

    /// Returns the size in bytes of a sample of this format.
    fn sample_size(self) -> (n: usize) {
        match self {
            Self::I8(format) => format.sample_size(),
            Self::I16(format) => format.sample_size(),
            Self::I24(format) => format.sample_size(),
            Self::I32(format) => format.sample_size(),
            Self::I64(format) => format.sample_size(),
            Self::U8(format) => format.sample_size(),
            Self::U16(format) => format.sample_size(),
            Self::U24(format) => format.sample_size(),
            Self::U32(format) => format.sample_size(),
            Self::U64(format) => format.sample_size(),
            Self::F32(format) => format.sample_size(),
            Self::F64(format) => format.sample_size(),
        }
    }

    fn is_le(self) -> (r: bool) {
        match self {
            Self::I8(format) => format.is_le(),
            Self::I16(format) => format.is_le(),
            Self::I24(format) => format.is_le(),
            Self::I32(format) => format.is_le(),
            Self::I64(format) => format.is_le(),
            Self::U8(format) => format.is_le(),
            Self::U16(format) => format.is_le(),
            Self::U24(format) => format.is_le(),
            Self::U32(format) => format.is_le(),
            Self::U64(format) => format.is_le(),
            Self::F32(format) => format.is_le(),
            Self::F64(format) => format.is_le(),
        }
    }

    fn is_be(self) -> (r: bool) {
        match self {
            Self::I8(format) => format.is_be(),
            Self::I16(format) => format.is_be(),
            Self::I24(format) => format.is_be(),
            Self::I32(format) => format.is_be(),
            Self::I64(format) => format.is_be(),
            Self::U8(format) => format.is_be(),
            Self::U16(format) => format.is_be(),
            Self::U24(format) => format.is_be(),
            Self::U32(format) => format.is_be(),
            Self::U64(format) => format.is_be(),
            Self::F32(format) => format.is_be(),
            Self::F64(format) => format.is_be(),
        }
    }
}

impl RawSampleFormat {
    /// The name of the format: the name of the primitive, a colon, and the
    /// name of the encoding.
    pub open spec fn spec_name(self) -> Seq<char> {
        match self {
            Self::I8(format) => "i8:"@ + format.spec_name(),
            Self::I16(format) => "i16:"@ + format.spec_name(),
            Self::I24(format) => "i24:"@ + format.spec_name(),
            Self::I32(format) => "i32:"@ + format.spec_name(),
            Self::I64(format) => "i64:"@ + format.spec_name(),
            Self::U8(format) => "u8:"@ + format.spec_name(),
            Self::U16(format) => "u16:"@ + format.spec_name(),
            Self::U24(format) => "u24:"@ + format.spec_name(),
            Self::U32(format) => "u32:"@ + format.spec_name(),
            Self::U64(format) => "u64:"@ + format.spec_name(),
            Self::F32(format) => "f32:"@ + format.spec_name(),
            Self::F64(format) => "f64:"@ + format.spec_name(),
        }
    }

    /// The name of the format, such as `i16:le`.
    pub fn name(self) -> (r: &'static str)
        ensures
            r@ == self.spec_name(),
    {
        match self {
            Self::I8(format) => format.full_name(),
            Self::I16(format) => format.full_name(),
            Self::I24(format) => format.full_name(),
            Self::I32(format) => format.full_name(),
            Self::I64(format) => format.full_name(),
            Self::U8(format) => format.full_name(),
            Self::U16(format) => format.full_name(),
            Self::U24(format) => format.full_name(),
            Self::U32(format) => format.full_name(),
            Self::U64(format) => format.full_name(),
            Self::F32(format) => format.full_name(),
            Self::F64(format) => format.full_name(),
        }
    }
}

/// A primitive that knows its encodings and makes the buffers of its
/// samples: the bridge from a format chosen at run time to the typed views.
pub trait SizedSample: Copy + Sized {
    /// The descriptor of the encodings of this primitive.
    type RawFormat: Encoding;

    /// A buffer of this primitive in any layout and encoding.
    type Buffer<'buffer>: SampleBuffer<Item = Self>;

    /// A writable buffer of this primitive in any layout and encoding.
    type BufferMut<'buffer>: SampleBufferMut<Item = Self>;

    /// The encoding that `format` names, if it is a format of this primitive.
    spec fn encoding_of(format: RawSampleFormat) -> Option<Self::RawFormat>;

    /// The samples that an interleaved region holds under `encoding`.
    spec fn interleaved_samples(
        region: Seq<u8>,
        encoding: Self::RawFormat,
        frames: nat,
        channels: nat,
    ) -> Grid<Self>;

    /// Returns whether `format` is a format of this primitive.
    fn supports_format(format: RawSampleFormat) -> (r: bool)
        ensures
            r == Self::encoding_of(format) is Some,
    ;

    /// Presents `bytes` as an interleaved buffer of `frame_count` frames of
    /// `channel_count` samples in the given format. Returns `None` if the
    /// format is not one of this primitive.
    fn create_interleaved_buffer<'buffer>(
        bytes: &'buffer [u8],
        format: RawSampleFormat,
        channel_count: ChannelCount,
        frame_count: FrameCount,
    ) -> (r: Option<Self::Buffer<'buffer>>)
        requires
            Self::encoding_of(format) matches Some(encoding) ==> interleaved_shape(
                bytes@.len(),
                frame_count as nat,
                channel_count as nat,
                encoding.spec_sample_size(),
            ),
        ensures
            r is Some <==> Self::encoding_of(format) is Some,
            r matches Some(buffer) ==> buffer.wf() && buffer.grid() == Self::interleaved_samples(
                bytes@,
                Self::encoding_of(format).unwrap(),
                frame_count as nat,
                channel_count as nat,
            ),
    ;

    /// Presents `bytes` as a writable interleaved buffer of `frame_count`
    /// frames of `channel_count` samples in the given format. Returns `None`
    /// if the format is not one of this primitive.
    fn create_interleaved_buffer_mut<'buffer>(
        bytes: &'buffer mut [u8],
        format: RawSampleFormat,
        channel_count: ChannelCount,
        frame_count: FrameCount,
    ) -> (r: Option<Self::BufferMut<'buffer>>)
        requires
            Self::encoding_of(format) matches Some(encoding) ==> interleaved_shape(
                old(bytes)@.len(),
                frame_count as nat,
                channel_count as nat,
                encoding.spec_sample_size(),
            ),
        ensures
            r is Some <==> Self::encoding_of(format) is Some,
            r matches Some(buffer) ==> buffer.wf() && buffer.grid() == Self::interleaved_samples(
                old(bytes)@,
                Self::encoding_of(format).unwrap(),
                frame_count as nat,
                channel_count as nat,
            ),
    ;
}

} // verus!
