//! Raw samples of 32-bit floating-point samples.
//!
//! Inside this library a floating-point sample is its IEEE 754 bit pattern:
//! the primitive of this module is the pattern as an unsigned integer, and a
//! caller turns it into a number and back with the standard `from_bits` and
//! `to_bits`.
use crate::buffers::{interleaved, separated};
use crate::buffers::dispatch::{Layout, LittleBig};
use crate::buffers::grid::Grid;
use crate::buffers::interleaved::{interleaved_grid, interleaved_shape};
use crate::codec::{
    be_bytes, be_value, decode_be_4, decode_le_4, encode_be_4, encode_le_4, le_bytes, le_value,
    lemma_be_unsigned_round_trip, lemma_le_bytes_len, lemma_le_unsigned_round_trip,
    lemma_radix_pow_values, load_4, store_4,
};
use crate::samples_formats::RawSampleFormat;
use crate::types::{raw_of, Encoding, RawSample};
use crate::{ChannelCount, FrameCount};
use vstd::prelude::*;
use vstd::std_specs::convert::FromSpecImpl;

verus! {

/// The bit pattern of one floating-point sample.
pub type Primitive = u32;

/// The sample value of silence: the bit pattern of positive zero.
pub const DEFAULT: Primitive = 0;

/// The sample value of silence.
pub fn equilibrium() -> (r: Primitive)
    ensures
        r == DEFAULT,
{
    DEFAULT
}

/// The encodings of this module's primitive.
#[derive(Clone, Copy, PartialEq, Eq, Debug)]
pub enum RawFormat {
    LE,
    BE,
}

impl RawFormat {
    /// The name of the encoding.
    pub open spec fn spec_name(self) -> Seq<char> {
        match self {
            Self::LE => "le"@,
            Self::BE => "be"@,
        }
    }

    /// Number of bytes that a sample of this encoding occupies.
    pub fn sample_size(self) -> (n: usize)
        ensures
            n == self.spec_sample_size(),
    {
        match self {
            Self::LE => 4,
            Self::BE => 4,
        }
    }

    /// The name of the encoding, as it is written after the primitive's name.
    pub fn name(self) -> (r: &'static str)
        ensures
            r@ == self.spec_name(),
    {
        match self {
            Self::LE => "le",
            Self::BE => "be",
        }
    }

    /// The name of the primitive and of the encoding, joined by a colon.
    pub fn full_name(self) -> (r: &'static str)
        ensures
            r@ == "f32:"@ + self.spec_name(),
    {
        match self {
            Self::LE => {
                proof {
                    reveal_strlit("f32:");
                    reveal_strlit("le");
                    reveal_strlit("f32:le");
                    assert("f32:le"@ =~= "f32:"@ + "le"@);
                }
                "f32:le"
            },
            Self::BE => {
                proof {
                    reveal_strlit("f32:");
                    reveal_strlit("be");
                    reveal_strlit("f32:be");
                    assert("f32:be"@ =~= "f32:"@ + "be"@);
                }
                "f32:be"
            },
        }
    }
}

impl Encoding for RawFormat {
    open spec fn spec_sample_size(self) -> nat {
        match self {
            Self::LE => 4,
            Self::BE => 4,
        }
    }

    open spec fn spec_is_le(self) -> bool {
        self is LE
    }

    open spec fn spec_is_be(self) -> bool {
        self is BE
    }

    fn sample_size(self) -> (n: usize) {
        RawFormat::sample_size(self)
    }

    fn is_le(self) -> (r: bool) {
        matches!(self, Self::LE)
    }

    fn is_be(self) -> (r: bool) {
        matches!(self, Self::BE)
    }
}

/// Little-endian raw sample. Bit layout of the bytes: `[0..7, 8..15, 16..23, 24..31]`.
#[derive(Clone, Copy, PartialEq, Eq, Debug)]
pub struct LE(pub [u8; 4]);

impl RawSample for LE {
    type Primitive = Primitive;

    open spec fn width() -> nat {
        4
    }

    open spec fn bytes(self) -> Seq<u8> {
        self.0@
    }

    open spec fn decode(bytes: Seq<u8>) -> Primitive {
        le_value(bytes) as Primitive
    }

    open spec fn encode(p: Primitive) -> Seq<u8> {
        le_bytes(p as int, 4)
    }

    open spec fn representable(p: Primitive) -> bool {
        true
    }

    proof fn lemma_round_trip(p: Primitive) {
        lemma_radix_pow_values();
        lemma_le_bytes_len(p as int, 4);
        lemma_le_unsigned_round_trip(p as int, 4);
    }

    proof fn lemma_bytes_len(self) {
    }

    proof fn lemma_width() {
    }

    fn size() -> (n: usize) {
        4
    }

    fn from_primitive(p: Primitive) -> (raw: Self) {
        proof {
            Self::lemma_round_trip(p);
        }
        LE(encode_le_4(p))
    }

    fn to_primitive(self) -> (p: Primitive) {
        decode_le_4(&self.0)
    }

    fn load(bytes: &[u8], at: usize) -> (raw: Self) {
        LE(load_4(bytes, at))
    }

    fn store(self, bytes: &mut [u8], at: usize) {
        store_4(bytes, at, &self.0)
    }
}

impl Default for LE {
    /// The raw sample of silence.
    fn default() -> (raw: Self)
        ensures
            raw.bytes() == Self::encode(DEFAULT),
            Self::decode(raw.bytes()) == DEFAULT,
    {
        Self::from_primitive(equilibrium())
    }
}

impl From<Primitive> for LE {
    fn from(p: Primitive) -> (raw: Self) {
        let raw = Self::from_primitive(p);
        proof {
            let chosen: Self = raw_of(Self::encode(p));
            assert(chosen.0 =~= raw.0);
        }
        raw
    }
}

impl FromSpecImpl<Primitive> for LE {
    open spec fn obeys_from_spec() -> bool {
        true
    }

    open spec fn from_spec(p: Primitive) -> Self {
        raw_of(Self::encode(p))
    }
}

impl From<LE> for Primitive {
    fn from(raw: LE) -> (p: Self) {
        raw.to_primitive()
    }
}

impl FromSpecImpl<LE> for Primitive {
    open spec fn obeys_from_spec() -> bool {
        true
    }

    open spec fn from_spec(raw: LE) -> Self {
        LE::decode(raw.bytes())
    }
}

/// Big-endian raw sample. Bit layout of the bytes: `[24..31, 16..23, 8..15, 0..7]`.
#[derive(Clone, Copy, PartialEq, Eq, Debug)]
pub struct BE(pub [u8; 4]);

impl RawSample for BE {
    type Primitive = Primitive;

    open spec fn width() -> nat {
        4
    }

    open spec fn bytes(self) -> Seq<u8> {
        self.0@
    }

    open spec fn decode(bytes: Seq<u8>) -> Primitive {
        be_value(bytes) as Primitive
    }

    open spec fn encode(p: Primitive) -> Seq<u8> {
        be_bytes(p as int, 4)
    }

    open spec fn representable(p: Primitive) -> bool {
        true
    }

    proof fn lemma_round_trip(p: Primitive) {
        lemma_radix_pow_values();
        lemma_le_bytes_len(p as int, 4);
        lemma_be_unsigned_round_trip(p as int, 4);
    }

    proof fn lemma_bytes_len(self) {
    }

    proof fn lemma_width() {
    }

    fn size() -> (n: usize) {
        4
    }

    fn from_primitive(p: Primitive) -> (raw: Self) {
        proof {
            Self::lemma_round_trip(p);
        }
        BE(encode_be_4(p))
    }

    fn to_primitive(self) -> (p: Primitive) {
        decode_be_4(&self.0)
    }

    fn load(bytes: &[u8], at: usize) -> (raw: Self) {
        BE(load_4(bytes, at))
    }

    fn store(self, bytes: &mut [u8], at: usize) {
        store_4(bytes, at, &self.0)
    }
}

impl Default for BE {
    /// The raw sample of silence.
    fn default() -> (raw: Self)
        ensures
            raw.bytes() == Self::encode(DEFAULT),
            Self::decode(raw.bytes()) == DEFAULT,
    {
        Self::from_primitive(equilibrium())
    }
}

impl From<Primitive> for BE {
    fn from(p: Primitive) -> (raw: Self) {
        let raw = Self::from_primitive(p);
        proof {
            let chosen: Self = raw_of(Self::encode(p));
            assert(chosen.0 =~= raw.0);
        }
        raw
    }
}

impl FromSpecImpl<Primitive> for BE {
    open spec fn obeys_from_spec() -> bool {
        true
    }

    open spec fn from_spec(p: Primitive) -> Self {
        raw_of(Self::encode(p))
    }
}

impl From<BE> for Primitive {
    fn from(raw: BE) -> (p: Self) {
        raw.to_primitive()
    }
}

impl FromSpecImpl<BE> for Primitive {
    open spec fn obeys_from_spec() -> bool {
        true
    }

    open spec fn from_spec(raw: BE) -> Self {
        BE::decode(raw.bytes())
    }
}

/// A buffer of this primitive whose samples are in one region, in any of
/// the encodings.
pub type InterleavedBuffer<'buffer> = LittleBig<
    interleaved::InterleavedBuffer<'buffer, LE>,
    interleaved::InterleavedBuffer<'buffer, BE>,
>;

/// A buffer of this primitive whose channels are in regions of their own, in
/// any of the encodings.
pub type SeparatedBuffer<'buffer> = LittleBig<
    separated::SeparatedBuffer<'buffer, LE>,
    separated::SeparatedBuffer<'buffer, BE>,
>;

/// A buffer of this primitive in any layout and encoding.
pub type SampleBuffer<'buffer> = Layout<InterleavedBuffer<'buffer>, SeparatedBuffer<'buffer>>;

/// A writable buffer of this primitive whose samples are in one region, in
/// any of the encodings.
pub type InterleavedBufferMut<'buffer> = LittleBig<
    interleaved::InterleavedBufferMut<'buffer, LE>,
    interleaved::InterleavedBufferMut<'buffer, BE>,
>;

/// A writable buffer of this primitive whose channels are in regions of
/// their own, in any of the encodings.
pub type SeparatedBufferMut<'buffer> = LittleBig<
    separated::SeparatedBufferMut<'buffer, LE>,
    separated::SeparatedBufferMut<'buffer, BE>,
>;

/// A writable buffer of this primitive in any layout and encoding.
pub type SampleBufferMut<'buffer> = Layout<InterleavedBufferMut<'buffer>, SeparatedBufferMut<'buffer>>;

pub type F32SampleBuffer<'buffer> = SampleBuffer<'buffer>;

pub type F32SampleBufferMut<'buffer> = SampleBufferMut<'buffer>;

/// The encoding that `format` names, if it is a format of this module's
/// primitive.
pub open spec fn encoding_of(format: RawSampleFormat) -> Option<RawFormat> {
    match format {
        RawSampleFormat::F32(encoding) => Some(encoding),
        _ => None,
    }
}

/// The samples that an interleaved region holds under `encoding`.
pub open spec fn interleaved_samples(
    region: Seq<u8>,
    encoding: RawFormat,
    frames: nat,
    channels: nat,
) -> Grid<Primitive> {
    match encoding {
        RawFormat::LE => interleaved_grid::<LE>(region, frames, channels),
        RawFormat::BE => interleaved_grid::<BE>(region, frames, channels),
    }
}

/// Returns whether `format` is a format of this module's primitive.
pub fn supports_format(format: RawSampleFormat) -> (r: bool)
    ensures
        r == encoding_of(format) is Some,
{
    matches!(format, RawSampleFormat::F32(_))
}

/// Presents `bytes` as an interleaved buffer of `frame_count` frames of
/// `channel_count` samples in the given format. Returns `None` if the format
/// is not one of this module's primitive.
pub fn create_interleaved_buffer<'buffer>(
    bytes: &'buffer [u8],
    format: RawSampleFormat,
    channel_count: ChannelCount,
    frame_count: FrameCount,
) -> (r: Option<SampleBuffer<'buffer>>)
    requires
        encoding_of(format) matches Some(encoding) ==> interleaved_shape(
            bytes@.len(),
            frame_count as nat,
            channel_count as nat,
            encoding.spec_sample_size(),
        ),
    ensures
        r is Some <==> encoding_of(format) is Some,
        r matches Some(buffer) ==> buffer is Interleaved && crate::buffers::SampleBuffer::wf(&buffer)
            && crate::buffers::SampleBuffer::grid(&buffer) == interleaved_samples(
            bytes@,
            encoding_of(format).unwrap(),
            frame_count as nat,
            channel_count as nat,
        ),
        r matches Some(Layout::Interleaved(LittleBig::LE(_))) ==> encoding_of(format) == Some(
            RawFormat::LE,
        ),
        r matches Some(Layout::Interleaved(LittleBig::BE(_))) ==> encoding_of(format) == Some(
            RawFormat::BE,
        ),
{
    match format {
        RawSampleFormat::F32(RawFormat::LE) => {
            let buffer = interleaved::InterleavedBuffer::<LE>::new(bytes, frame_count, channel_count);
            Some(Layout::Interleaved(LittleBig::LE(buffer)))
        },
        RawSampleFormat::F32(RawFormat::BE) => {
            let buffer = interleaved::InterleavedBuffer::<BE>::new(bytes, frame_count, channel_count);
            Some(Layout::Interleaved(LittleBig::BE(buffer)))
        },
        _ => None,
    }
}

/// Presents `bytes` as a writable interleaved buffer of `frame_count` frames
/// of `channel_count` samples in the given format. Returns `None` if the
/// format is not one of this module's primitive.
pub fn create_interleaved_buffer_mut<'buffer>(
    bytes: &'buffer mut [u8],
    format: RawSampleFormat,
    channel_count: ChannelCount,
    frame_count: FrameCount,
) -> (r: Option<SampleBufferMut<'buffer>>)
    requires
        encoding_of(format) matches Some(encoding) ==> interleaved_shape(
            old(bytes)@.len(),
            frame_count as nat,
            channel_count as nat,
            encoding.spec_sample_size(),
        ),
    ensures
        r is Some <==> encoding_of(format) is Some,
        r matches Some(buffer) ==> buffer is Interleaved && crate::buffers::SampleBufferMut::wf(
            &buffer,
        ) && crate::buffers::SampleBufferMut::grid(&buffer) == interleaved_samples(
            old(bytes)@,
            encoding_of(format).unwrap(),
            frame_count as nat,
            channel_count as nat,
        ),
        r matches Some(Layout::Interleaved(LittleBig::LE(inner))) ==> encoding_of(format) == Some(
            RawFormat::LE,
        ) && final(inner.borrowed())@ == final(bytes)@,
        r matches Some(Layout::Interleaved(LittleBig::BE(inner))) ==> encoding_of(format) == Some(
            RawFormat::BE,
        ) && final(inner.borrowed())@ == final(bytes)@,
        r is None ==> final(bytes)@ == old(bytes)@,
{
    match format {
        RawSampleFormat::F32(RawFormat::LE) => {
            let buffer = interleaved::InterleavedBufferMut::<LE>::new(bytes, frame_count, channel_count);
            Some(Layout::Interleaved(LittleBig::LE(buffer)))
        },
        RawSampleFormat::F32(RawFormat::BE) => {
            let buffer = interleaved::InterleavedBufferMut::<BE>::new(bytes, frame_count, channel_count);
            Some(Layout::Interleaved(LittleBig::BE(buffer)))
        },
        _ => None,
    }
}

} // verus!
