//! Sample formats described by the primitive and the byte order alone.
//!
//! A `SampleFormat` names a primitive and, through the descriptor it carries,
//! the size and the byte order of its encoding. For the 24-bit primitives the
//! descriptor is that of their raw formats, which also tells the packed
//! encodings from those in a slot of four bytes.
use crate::types;
use crate::types::{Encoding, SimpleEncoding, SimpleLittleBigEncoding};
use vstd::prelude::*;

verus! {

/// Describes all supported sample types and their in-memory representation.
#[derive(Clone, Copy, Debug, PartialEq, Eq)]
#[non_exhaustive]
pub enum SampleFormat {
    /// `i8` with `0` being the origin
    I8(SimpleEncoding<1>),

    /// `i16` with `0` being the origin
    I16(SimpleLittleBigEncoding<2>),

    /// `I24` with a valid range of `-(1 << 23)..(1 << 23)` and `0` being the origin
    I24(types::i24::RawFormat),

    /// `i32` with `0` being the origin
    I32(SimpleLittleBigEncoding<4>),

    /// `i64` with `0` being the origin
    I64(SimpleLittleBigEncoding<8>),

    /// `u8` with `1 << 7 == 128` being the origin
    U8(SimpleEncoding<1>),

    /// `u16` with `1 << 15 == 32768` being the origin
    U16(SimpleLittleBigEncoding<2>),

    /// `U24` with a valid range of `0..(1 << 24)` and `1 << 23 == 8388608` being the origin
    U24(types::u24::RawFormat),

    /// `u32` with `1 << 31` being the origin
    U32(SimpleLittleBigEncoding<4>),

    /// `u64` with `1 << 63` being the origin
    U64(SimpleLittleBigEncoding<8>),

    /// 32-bit float with a valid range of `-1.0..1.0` and `0.0` being the origin
    F32(SimpleLittleBigEncoding<4>),

    /// 64-bit float with a valid range of `-1.0..1.0` and `0.0` being the origin
    F64(SimpleLittleBigEncoding<8>),
}

impl Encoding for SampleFormat {
    open spec fn spec_sample_size(self) -> nat {
        match self {
            Self::I8(format) => format.spec_sample_size(),
            Self::I16(format) => format.spec_sample_size(),
            Self::I24(format) => format.spec_sample_size(),
            Self::I32(format) => format.spec_sample_size(),
            Self::I64(format) => format.spec_sample_size(),
            Self::U8(format) => format.spec_sample_size(),
            Self::U16(format) => format.spec_sample_size(),
            Self::U24(format) => format.spec_sample_size(),
            Self::U32(format) => format.spec_sample_size(),
            Self::U64(format) => format.spec_sample_size(),
            Self::F32(format) => format.spec_sample_size(),
            Self::F64(format) => format.spec_sample_size(),
        }
    }

    open spec fn spec_is_le(self) -> bool {
        match self {
            Self::I8(format) => format.spec_is_le(),
            Self::I16(format) => format.spec_is_le(),
            Self::I24(format) => format.spec_is_le(),
            Self::I32(format) => format.spec_is_le(),
            Self::I64(format) => format.spec_is_le(),
            Self::U8(format) => format.spec_is_le(),
            Self::U16(format) => format.spec_is_le(),
            Self::U24(format) => format.spec_is_le(),
            Self::U32(format) => format.spec_is_le(),
            Self::U64(format) => format.spec_is_le(),
            Self::F32(format) => format.spec_is_le(),
            Self::F64(format) => format.spec_is_le(),
        }
    }

    open spec fn spec_is_be(self) -> bool {
        match self {
            Self::I8(format) => format.spec_is_be(),
            Self::I16(format) => format.spec_is_be(),
            Self::I24(format) => format.spec_is_be(),
            Self::I32(format) => format.spec_is_be(),
            Self::I64(format) => format.spec_is_be(),
            Self::U8(format) => format.spec_is_be(),
            Self::U16(format) => format.spec_is_be(),
            Self::U24(format) => format.spec_is_be(),
            Self::U32(format) => format.spec_is_be(),
            Self::U64(format) => format.spec_is_be(),
            Self::F32(format) => format.spec_is_be(),
            Self::F64(format) => format.spec_is_be(),
        }
    }

    /// Returns the size in bytes of a sample of this format.
    fn sample_size(self) -> (n: usize) {
        match self {
            Self::I8(format) => format.sample_size(),
            Self::I16(format) => format.sample_size(),
            Self::I24(format) => format.sample_size(),
            Self::I32(format) => format.sample_size(),
            Self::I64(format) => format.sample_size(),
            Self::U8(format) => format.sample_size(),
            Self::U16(format) => format.sample_size(),
            Self::U24(format) => format.sample_size(),
            Self::U32(format) => format.sample_size(),
            Self::U64(format) => format.sample_size(),
            Self::F32(format) => format.sample_size(),
            Self::F64(format) => format.sample_size(),
        }
    }

    fn is_le(self) -> (r: bool) {
        match self {
            Self::I8(format) => format.is_le(),
            Self::I16(format) => format.is_le(),
            Self::I24(format) => format.is_le(),
            Self::I32(format) => format.is_le(),
            Self::I64(format) => format.is_le(),
            Self::U8(format) => format.is_le(),
            Self::U16(format) => format.is_le(),
            Self::U24(format) => format.is_le(),
            Self::U32(format) => format.is_le(),
            Self::U64(format) => format.is_le(),
            Self::F32(format) => format.is_le(),
            Self::F64(format) => format.is_le(),
        }
    }

    fn is_be(self) -> (r: bool) {
        match self {
            Self::I8(format) => format.is_be(),
            Self::I16(format) => format.is_be(),
            Self::I24(format) => format.is_be(),
            Self::I32(format) => format.is_be(),
            Self::I64(format) => format.is_be(),
            Self::U8(format) => format.is_be(),
            Self::U16(format) => format.is_be(),
            Self::U24(format) => format.is_be(),
            Self::U32(format) => format.is_be(),
            Self::U64(format) => format.is_be(),
            Self::F32(format) => format.is_be(),
            Self::F64(format) => format.is_be(),
        }
    }
}

impl SampleFormat {
    /// The name of the primitive.
    pub open spec fn spec_primitive_name(self) -> Seq<char> {
        match self {
            Self::I8(_) => "i8"@,
            Self::I16(_) => "i16"@,
            Self::I24(_) => "i24"@,
            Self::I32(_) => "i32"@,
            Self::I64(_) => "i64"@,
            Self::U8(_) => "u8"@,
            Self::U16(_) => "u16"@,
            Self::U24(_) => "u24"@,
            Self::U32(_) => "u32"@,
            Self::U64(_) => "u64"@,
            Self::F32(_) => "f32"@,
            Self::F64(_) => "f64"@,
        }
    }

    /// The name of the encoding.
    pub open spec fn spec_encoding_name(self) -> Seq<char> {
        match self {
            Self::I8(format) => "ne"@,
            Self::I16(format) => (if format is LE { "le"@ } else { "be"@ }),
            Self::I24(format) => format.spec_name(),
            Self::I32(format) => (if format is LE { "le"@ } else { "be"@ }),
            Self::I64(format) => (if format is LE { "le"@ } else { "be"@ }),
            Self::U8(format) => "ne"@,
            Self::U16(format) => (if format is LE { "le"@ } else { "be"@ }),
            Self::U24(format) => format.spec_name(),
            Self::U32(format) => (if format is LE { "le"@ } else { "be"@ }),
            Self::U64(format) => (if format is LE { "le"@ } else { "be"@ }),
            Self::F32(format) => (if format is LE { "le"@ } else { "be"@ }),
            Self::F64(format) => (if format is LE { "le"@ } else { "be"@ }),
        }
    }

    /// The name of the primitive, such as `i16`.
    pub fn primitive_name(self) -> (r: &'static str)
        ensures
            r@ == self.spec_primitive_name(),
    {
        match self {
            Self::I8(_) => "i8",
            Self::I16(_) => "i16",
            Self::I24(_) => "i24",
            Self::I32(_) => "i32",
            Self::I64(_) => "i64",
            Self::U8(_) => "u8",
            Self::U16(_) => "u16",
            Self::U24(_) => "u24",
            Self::U32(_) => "u32",
            Self::U64(_) => "u64",
            Self::F32(_) => "f32",
            Self::F64(_) => "f64",
        }
    }

    /// The name of the encoding, such as `le`.
    pub fn encoding_name(self) -> (r: &'static str)
        ensures
            r@ == self.spec_encoding_name(),
    {
        match self {
            Self::I8(format) => format.name(),
            Self::I16(format) => format.name(),
            Self::I24(format) => format.name(),
            Self::I32(format) => format.name(),
            Self::I64(format) => format.name(),
            Self::U8(format) => format.name(),
            Self::U16(format) => format.name(),
            Self::U24(format) => format.name(),
            Self::U32(format) => format.name(),
            Self::U64(format) => format.name(),
            Self::F32(format) => format.name(),
            Self::F64(format) => format.name(),
        }
    }
}

/// A primitive that can be used as a sample.
pub trait Sample: Copy + Sized {
    /// The available in-memory representations of this primitive.
    type Encoding: Encoding;

    /// Whether `format` is a format of this primitive.
    spec fn targets(format: SampleFormat) -> bool;

    /// Returns whether the given format targets this primitive.
    fn supports_format(format: SampleFormat) -> (r: bool)
        ensures
            r == Self::targets(format),
    ;
}

impl Sample for i8 {
    type Encoding = SimpleEncoding<1>;

    open spec fn targets(format: SampleFormat) -> bool {
        format is I8
    }

    fn supports_format(format: SampleFormat) -> (r: bool) {
        matches!(format, SampleFormat::I8(_))
    }
}

impl Sample for i16 {
    type Encoding = SimpleLittleBigEncoding<2>;

    open spec fn targets(format: SampleFormat) -> bool {
        format is I16
    }

    fn supports_format(format: SampleFormat) -> (r: bool) {
        matches!(format, SampleFormat::I16(_))
    }
}

impl Sample for types::i24::I24 {
    type Encoding = types::i24::RawFormat;

    open spec fn targets(format: SampleFormat) -> bool {
        format is I24
    }

    fn supports_format(format: SampleFormat) -> (r: bool) {
        matches!(format, SampleFormat::I24(_))
    }
}

impl Sample for i32 {
    type Encoding = SimpleLittleBigEncoding<4>;

    open spec fn targets(format: SampleFormat) -> bool {
        format is I32
    }

    fn supports_format(format: SampleFormat) -> (r: bool) {
        matches!(format, SampleFormat::I32(_))
    }
}

impl Sample for i64 {
    type Encoding = SimpleLittleBigEncoding<8>;

    open spec fn targets(format: SampleFormat) -> bool {
        format is I64
    }

    fn supports_format(format: SampleFormat) -> (r: bool) {
        matches!(format, SampleFormat::I64(_))
    }
}

impl Sample for u8 {
    type Encoding = SimpleEncoding<1>;

    open spec fn targets(format: SampleFormat) -> bool {
        format is U8
    }

    fn supports_format(format: SampleFormat) -> (r: bool) {
        matches!(format, SampleFormat::U8(_))
    }
}

impl Sample for u16 {
    type Encoding = SimpleLittleBigEncoding<2>;

    open spec fn targets(format: SampleFormat) -> bool {
        format is U16
    }

    fn supports_format(format: SampleFormat) -> (r: bool) {
        matches!(format, SampleFormat::U16(_))
    }
}

impl Sample for types::u24::U24 {
    type Encoding = types::u24::RawFormat;

    open spec fn targets(format: SampleFormat) -> bool {
        format is U24
    }

    fn supports_format(format: SampleFormat) -> (r: bool) {
        matches!(format, SampleFormat::U24(_))
    }
}

impl Sample for u32 {
    type Encoding = SimpleLittleBigEncoding<4>;

    open spec fn targets(format: SampleFormat) -> bool {
        format is U32
    }

    fn supports_format(format: SampleFormat) -> (r: bool) {
        matches!(format, SampleFormat::U32(_))
    }
}

impl Sample for u64 {
    type Encoding = SimpleLittleBigEncoding<8>;

    open spec fn targets(format: SampleFormat) -> bool {
        format is U64
    }

    fn supports_format(format: SampleFormat) -> (r: bool) {
        matches!(format, SampleFormat::U64(_))
    }
}

} // verus!
