//! Raw samples of the primitive `i64`.
use crate::buffers::{interleaved, separated};
use crate::buffers::dispatch::{Layout, LittleBig};
use crate::buffers::grid::Grid;
use crate::buffers::interleaved::{interleaved_grid, interleaved_shape};
use crate::codec::{
    be_bytes, be_value, decode_be_8, decode_le_8, encode_be_8, encode_le_8, le_bytes, le_value,
    lemma_be_signed_round_trip, lemma_le_bytes_len, lemma_le_signed_round_trip,
    lemma_radix_pow_values, lemma_unsigned_of, load_8, signed, signed_of_u64, store_8,
    unsigned_of_i64,
};
use crate::samples_formats::{RawSampleFormat, SizedSample};
use crate::types::{raw_of, Encoding, RawSample};
use crate::{ChannelCount, FrameCount};
use vstd::prelude::*;
use vstd::std_specs::convert::FromSpecImpl;

verus! {

/// The application-facing sample type of this module.
pub type Primitive = i64;

/// The sample value of silence.
pub const DEFAULT: Primitive = 0;

/// The value of `dasp_sample::Sample::EQUILIBRIUM` for `i64`, which that crate
/// defines as `0`.
#[verifier::external_body]
fn dasp_equilibrium() -> (r: Primitive)
    ensures
        r == DEFAULT,
{
    <Primitive as dasp_sample::Sample>::EQUILIBRIUM
}

/// The sample value of silence.
pub fn equilibrium() -> (r: Primitive)
    ensures
        r == DEFAULT,
{
    dasp_equilibrium()
}

/// The encodings of this module's primitive.
#[derive(Clone, Copy, PartialEq, Eq, Debug)]
pub enum RawFormat {
    LE,
    BE,
}

impl RawFormat {
    /// The name of the encoding.
    pub open spec fn spec_name(self) -> Seq<char> {
        match self {
            Self::LE => "le"@,
            Self::BE => "be"@,
        }
    }

    /// Number of bytes that a sample of this encoding occupies.
    pub fn sample_size(self) -> (n: usize)
        ensures
            n == self.spec_sample_size(),
    {
        match self {
            Self::LE => 8,
            Self::BE => 8,
        }
    }

    /// The name of the encoding, as it is written after the primitive's name.
    pub fn name(self) -> (r: &'static str)
        ensures
            r@ == self.spec_name(),
    {
        match self {
            Self::LE => "le",
            Self::BE => "be",
        }
    }

    /// The name of the primitive and of the encoding, joined by a colon.
    pub fn full_name(self) -> (r: &'static str)
        ensures
            r@ == "i64:"@ + self.spec_name(),
    {
        match self {
            Self::LE => {
                proof {
                    reveal_strlit("i64:");
                    reveal_strlit("le");
                    reveal_strlit("i64:le");
                    assert("i64:le"@ =~= "i64:"@ + "le"@);
                }
                "i64:le"
            },
            Self::BE => {
                proof {
                    reveal_strlit("i64:");
                    reveal_strlit("be");
                    reveal_strlit("i64:be");
                    assert("i64:be"@ =~= "i64:"@ + "be"@);
                }
                "i64:be"
            },
        }
    }
}

impl Encoding for RawFormat {
    open spec fn spec_sample_size(self) -> nat {
        match self {
            Self::LE => 8,
            Self::BE => 8,
        }
    }

    open spec fn spec_is_le(self) -> bool {
        self is LE
    }

    open spec fn spec_is_be(self) -> bool {
        self is BE
    }

    fn sample_size(self) -> (n: usize) {
        RawFormat::sample_size(self)
    }

    fn is_le(self) -> (r: bool) {
        matches!(self, Self::LE)
    }

    fn is_be(self) -> (r: bool) {
        matches!(self, Self::BE)
    }
}

/// Little-endian raw sample. Bit layout of the bytes: `[0..7, 8..15, .., 56..63]`.
#[derive(Clone, Copy, PartialEq, Eq, Debug)]
pub struct LE(pub [u8; 8]);

impl RawSample for LE {
    type Primitive = Primitive;

    open spec fn width() -> nat {
        8
    }

    open spec fn bytes(self) -> Seq<u8> {
        self.0@
    }

    open spec fn decode(bytes: Seq<u8>) -> Primitive {
        signed(le_value(bytes), 8) as Primitive
    }

    open spec fn encode(p: Primitive) -> Seq<u8> {
        le_bytes(p as int, 8)
    }

    open spec fn representable(p: Primitive) -> bool {
        true
    }

    proof fn lemma_round_trip(p: Primitive) {
        lemma_radix_pow_values();
        lemma_le_bytes_len(p as int, 8);
        lemma_le_signed_round_trip(p as int, 8);
    }

    proof fn lemma_bytes_len(self) {
    }

    proof fn lemma_width() {
    }

    fn size() -> (n: usize) {
        8
    }

    fn from_primitive(p: Primitive) -> (raw: Self) {
        proof {
            lemma_radix_pow_values();
            lemma_unsigned_of(p as int, 8);
            Self::lemma_round_trip(p);
        }
        LE(encode_le_8(unsigned_of_i64(p)))
    }

    fn to_primitive(self) -> (p: Primitive) {
        signed_of_u64(decode_le_8(&self.0))
    }

    fn load(bytes: &[u8], at: usize) -> (raw: Self) {
        LE(load_8(bytes, at))
    }

    fn store(self, bytes: &mut [u8], at: usize) {
        store_8(bytes, at, &self.0)
    }
}

impl Default for LE {
    /// The raw sample of silence.
    fn default() -> (raw: Self)
        ensures
            raw.bytes() == Self::encode(DEFAULT),
            Self::decode(raw.bytes()) == DEFAULT,
    {
        Self::from_primitive(equilibrium())
    }
}

impl From<Primitive> for LE {
    fn from(p: Primitive) -> (raw: Self) {
        let raw = Self::from_primitive(p);
        proof {
            let chosen: Self = raw_of(Self::encode(p));
            assert(chosen.0 =~= raw.0);
        }
        raw
    }
}

impl FromSpecImpl<Primitive> for LE {
    open spec fn obeys_from_spec() -> bool {
        true
    }

    open spec fn from_spec(p: Primitive) -> Self {
        raw_of(Self::encode(p))
    }
}

impl From<LE> for Primitive {
    fn from(raw: LE) -> (p: Self) {
        raw.to_primitive()
    }
}

impl FromSpecImpl<LE> for Primitive {
    open spec fn obeys_from_spec() -> bool {
        true
    }

    open spec fn from_spec(raw: LE) -> Self {
        LE::decode(raw.bytes())
    }
}

/// Big-endian raw sample. Bit layout of the bytes: `[56..63, .., 8..15, 0..7]`.
#[derive(Clone, Copy, PartialEq, Eq, Debug)]
pub struct BE(pub [u8; 8]);

impl RawSample for BE {
    type Primitive = Primitive;

    open spec fn width() -> nat {
        8
    }

    open spec fn bytes(self) -> Seq<u8> {
        self.0@
    }

    open spec fn decode(bytes: Seq<u8>) -> Primitive {
        signed(be_value(bytes), 8) as Primitive
    }

    open spec fn encode(p: Primitive) -> Seq<u8> {
        be_bytes(p as int, 8)
    }

    open spec fn representable(p: Primitive) -> bool {
        true
    }

    proof fn lemma_round_trip(p: Primitive) {
        lemma_radix_pow_values();
        lemma_le_bytes_len(p as int, 8);
        lemma_be_signed_round_trip(p as int, 8);
    }

    proof fn lemma_bytes_len(self) {
    }

    proof fn lemma_width() {
    }

    fn size() -> (n: usize) {
        8
    }

    fn from_primitive(p: Primitive) -> (raw: Self) {
        proof {
            lemma_radix_pow_values();
            lemma_unsigned_of(p as int, 8);
            Self::lemma_round_trip(p);
        }
        BE(encode_be_8(unsigned_of_i64(p)))
    }

    fn to_primitive(self) -> (p: Primitive) {
        signed_of_u64(decode_be_8(&self.0))
    }

    fn load(bytes: &[u8], at: usize) -> (raw: Self) {
        BE(load_8(bytes, at))
    }

    fn store(self, bytes: &mut [u8], at: usize) {
        store_8(bytes, at, &self.0)
    }
}

impl Default for BE {
    /// The raw sample of silence.
    fn default() -> (raw: Self)
        ensures
            raw.bytes() == Self::encode(DEFAULT),
            Self::decode(raw.bytes()) == DEFAULT,
    {
        Self::from_primitive(equilibrium())
    }
}

impl From<Primitive> for BE {
    fn from(p: Primitive) -> (raw: Self) {
        let raw = Self::from_primitive(p);
        proof {
            let chosen: Self = raw_of(Self::encode(p));
            assert(chosen.0 =~= raw.0);
        }
        raw
    }
}

impl FromSpecImpl<Primitive> for BE {
    open spec fn obeys_from_spec() -> bool {
        true
    }

    open spec fn from_spec(p: Primitive) -> Self {
        raw_of(Self::encode(p))
    }
}

impl From<BE> for Primitive {
    fn from(raw: BE) -> (p: Self) {
        raw.to_primitive()
    }
}

impl FromSpecImpl<BE> for Primitive {
    open spec fn obeys_from_spec() -> bool {
        true
    }

    open spec fn from_spec(raw: BE) -> Self {
        BE::decode(raw.bytes())
    }
}

/// A buffer of this primitive whose samples are in one region, in any of
/// the encodings.
pub type InterleavedBuffer<'buffer> = LittleBig<
    interleaved::InterleavedBuffer<'buffer, LE>,
    interleaved::InterleavedBuffer<'buffer, BE>,
>;

/// A buffer of this primitive whose channels are in regions of their own, in
/// any of the encodings.
pub type SeparatedBuffer<'buffer> = LittleBig<
    separated::SeparatedBuffer<'buffer, LE>,
    separated::SeparatedBuffer<'buffer, BE>,
>;

/// A buffer of this primitive in any layout and encoding.
pub type SampleBuffer<'buffer> = Layout<InterleavedBuffer<'buffer>, SeparatedBuffer<'buffer>>;

/// A writable buffer of this primitive whose samples are in one region, in
/// any of the encodings.
pub type InterleavedBufferMut<'buffer> = LittleBig<
    interleaved::InterleavedBufferMut<'buffer, LE>,
    interleaved::InterleavedBufferMut<'buffer, BE>,
>;

/// A writable buffer of this primitive whose channels are in regions of
/// their own, in any of the encodings.
pub type SeparatedBufferMut<'buffer> = LittleBig<
    separated::SeparatedBufferMut<'buffer, LE>,
    separated::SeparatedBufferMut<'buffer, BE>,
>;

/// A writable buffer of this primitive in any layout and encoding.
pub type SampleBufferMut<'buffer> = Layout<InterleavedBufferMut<'buffer>, SeparatedBufferMut<'buffer>>;

pub type I64SampleBuffer<'buffer> = SampleBuffer<'buffer>;

pub type I64SampleBufferMut<'buffer> = SampleBufferMut<'buffer>;

/// The encoding that `format` names, if it is a format of this module's
/// primitive.
pub open spec fn encoding_of(format: RawSampleFormat) -> Option<RawFormat> {
    match format {
        RawSampleFormat::I64(encoding) => Some(encoding),
        _ => None,
    }
}

/// The samples that an interleaved region holds under `encoding`.
pub open spec fn interleaved_samples(
    region: Seq<u8>,
    encoding: RawFormat,
    frames: nat,
    channels: nat,
) -> Grid<Primitive> {
    match encoding {
        RawFormat::LE => interleaved_grid::<LE>(region, frames, channels),
        RawFormat::BE => interleaved_grid::<BE>(region, frames, channels),
    }
}

/// Returns whether `format` is a format of this module's primitive.
pub fn supports_format(format: RawSampleFormat) -> (r: bool)
    ensures
        r == encoding_of(format) is Some,
{
    matches!(format, RawSampleFormat::I64(_))
}

/// Presents `bytes` as an interleaved buffer of `frame_count` frames of
/// `channel_count` samples in the given format. Returns `None` if the format
/// is not one of this module's primitive.
pub fn create_interleaved_buffer<'buffer>(
    bytes: &'buffer [u8],
    format: RawSampleFormat,
    channel_count: ChannelCount,
    frame_count: FrameCount,
) -> (r: Option<SampleBuffer<'buffer>>)
    requires
        encoding_of(format) matches Some(encoding) ==> interleaved_shape(
            bytes@.len(),
            frame_count as nat,
            channel_count as nat,
            encoding.spec_sample_size(),
        ),
    ensures
        r is Some <==> encoding_of(format) is Some,
        r matches Some(buffer) ==> buffer is Interleaved && crate::buffers::SampleBuffer::wf(&buffer)
            && crate::buffers::SampleBuffer::grid(&buffer) == interleaved_samples(
            bytes@,
            encoding_of(format).unwrap(),
            frame_count as nat,
            channel_count as nat,
        ),
        r matches Some(Layout::Interleaved(LittleBig::LE(_))) ==> encoding_of(format) == Some(
            RawFormat::LE,
        ),
        r matches Some(Layout::Interleaved(LittleBig::BE(_))) ==> encoding_of(format) == Some(
            RawFormat::BE,
        ),
{
    match format {
        RawSampleFormat::I64(RawFormat::LE) => {
            let buffer = interleaved::InterleavedBuffer::<LE>::new(bytes, frame_count, channel_count);
            Some(Layout::Interleaved(LittleBig::LE(buffer)))
        },
        RawSampleFormat::I64(RawFormat::BE) => {
            let buffer = interleaved::InterleavedBuffer::<BE>::new(bytes, frame_count, channel_count);
            Some(Layout::Interleaved(LittleBig::BE(buffer)))
        },
        _ => None,
    }
}

/// Presents `bytes` as a writable interleaved buffer of `frame_count` frames
/// of `channel_count` samples in the given format. Returns `None` if the
/// format is not one of this module's primitive.
pub fn create_interleaved_buffer_mut<'buffer>(
    bytes: &'buffer mut [u8],
    format: RawSampleFormat,
    channel_count: ChannelCount,
    frame_count: FrameCount,
) -> (r: Option<SampleBufferMut<'buffer>>)
    requires
        encoding_of(format) matches Some(encoding) ==> interleaved_shape(
            old(bytes)@.len(),
            frame_count as nat,
            channel_count as nat,
            encoding.spec_sample_size(),
        ),
    ensures
        r is Some <==> encoding_of(format) is Some,
        r matches Some(buffer) ==> buffer is Interleaved && crate::buffers::SampleBufferMut::wf(
            &buffer,
        ) && crate::buffers::SampleBufferMut::grid(&buffer) == interleaved_samples(
            old(bytes)@,
            encoding_of(format).unwrap(),
            frame_count as nat,
            channel_count as nat,
        ),
        r matches Some(Layout::Interleaved(LittleBig::LE(inner))) ==> encoding_of(format) == Some(
            RawFormat::LE,
        ) && final(inner.borrowed())@ == final(bytes)@,
        r matches Some(Layout::Interleaved(LittleBig::BE(inner))) ==> encoding_of(format) == Some(
            RawFormat::BE,
        ) && final(inner.borrowed())@ == final(bytes)@,
        r is None ==> final(bytes)@ == old(bytes)@,
{
    match format {
        RawSampleFormat::I64(RawFormat::LE) => {
            let buffer = interleaved::InterleavedBufferMut::<LE>::new(bytes, frame_count, channel_count);
            Some(Layout::Interleaved(LittleBig::LE(buffer)))
        },
        RawSampleFormat::I64(RawFormat::BE) => {
            let buffer = interleaved::InterleavedBufferMut::<BE>::new(bytes, frame_count, channel_count);
            Some(Layout::Interleaved(LittleBig::BE(buffer)))
        },
        _ => None,
    }
}

impl SizedSample for Primitive {
    type RawFormat = RawFormat;

    type Buffer<'buffer> = SampleBuffer<'buffer>;

    type BufferMut<'buffer> = SampleBufferMut<'buffer>;

    open spec fn encoding_of(format: RawSampleFormat) -> Option<RawFormat> {
        encoding_of(format)
    }

    open spec fn interleaved_samples(
        region: Seq<u8>,
        encoding: RawFormat,
        frames: nat,
        channels: nat,
    ) -> Grid<Primitive> {
        interleaved_samples(region, encoding, frames, channels)
    }

    fn supports_format(format: RawSampleFormat) -> (r: bool) {
        supports_format(format)
    }

    fn create_interleaved_buffer<'buffer>(
        bytes: &'buffer [u8],
        format: RawSampleFormat,
        channel_count: ChannelCount,
        frame_count: FrameCount,
    ) -> (r: Option<SampleBuffer<'buffer>>) {
        create_interleaved_buffer(bytes, format, channel_count, frame_count)
    }

    fn create_interleaved_buffer_mut<'buffer>(
        bytes: &'buffer mut [u8],
        format: RawSampleFormat,
        channel_count: ChannelCount,
        frame_count: FrameCount,
    ) -> (r: Option<SampleBufferMut<'buffer>>) {
        create_interleaved_buffer_mut(bytes, format, channel_count, frame_count)
    }
}

} // verus!
