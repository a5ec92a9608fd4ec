//! Raw samples of the 24-bit primitive `U24`.
use crate::buffers::{interleaved, separated};
use crate::buffers::dispatch::{Layout, Packed24};
use crate::buffers::grid::Grid;
use crate::buffers::interleaved::{interleaved_grid, interleaved_shape};
use crate::codec::{
    be_bytes, be_value, decode_be_3, decode_le_3, encode_be_3, encode_be_4, encode_le_3,
    encode_le_4, fits_unsigned, le_bytes, le_value, lemma_be_bytes_suffix,
    lemma_be_unsigned_round_trip, lemma_le_bytes_len, lemma_le_bytes_prefix,
    lemma_le_unsigned_round_trip, lemma_le_value_bound, lemma_radix_pow_values, load_3, load_4,
    store_3, store_4,
};
use crate::samples_formats::{RawSampleFormat, SizedSample};
use crate::types::{raw_of, Encoding, RawSample};
use crate::{ChannelCount, FrameCount};
use vstd::prelude::*;
use vstd::std_specs::cmp::PartialEqSpecImpl;
use vstd::std_specs::convert::FromSpecImpl;

verus! {

/// A 24-bit unsigned sample, held in 32 bits. Every value is within
/// `0..=16_777_215`.
#[derive(Clone, Copy, PartialEq, Eq, Structural, Debug)]
pub struct U24 {
    inner: i32,
}

impl View for U24 {
    type V = int;

    /// The number that the sample holds.
    closed spec fn view(&self) -> int {
        self.inner as int
    }
}

impl U24 {
    #[verifier::type_invariant]
    spec fn in_range(self) -> bool {
        fits_unsigned(self.inner as int, 3)
    }

    /// Whether the sample is within the range of 24 bits.
    pub open spec fn wf(self) -> bool {
        fits_unsigned(self@, 3)
    }

    /// The sample that holds `v`.
    pub closed spec fn of(v: int) -> U24 {
        U24 { inner: v as i32 }
    }

    /// A sample is determined by the number it holds.
    pub proof fn lemma_of_view(self)
        ensures
            Self::of(self@) == self,
    {
    }

    /// `of` holds what it was given, within the range of 24 bits.
    pub proof fn lemma_view_of(v: int)
        requires
            fits_unsigned(v, 3),
        ensures
            Self::of(v)@ == v,
            Self::of(v).wf(),
    {
        lemma_radix_pow_values();
    }

    /// Constructs a sample if `val` is within range, and returns `None`
    /// otherwise.
    pub fn new(val: i32) -> (r: Option<U24>)
        ensures
            r is Some <==> fits_unsigned(val as int, 3),
            r matches Some(s) ==> s@ == val && s.wf(),
    {
        proof {
            lemma_radix_pow_values();
        }
        if val > 0xff_ffff || val < 0 {
            None
        } else {
            Some(U24 { inner: val })
        }
    }

    /// The number that the sample holds.
    pub fn inner(self) -> (v: i32)
        ensures
            v == self@,
            self.wf(),
    {
        proof {
            use_type_invariant(&self);
        }
        self.inner
    }
}

/// The application-facing sample type of this module.
pub type Primitive = U24;

/// The number held by the sample value of silence: the midpoint of the range.
pub const DEFAULT: i32 = 0x80_0000;

/// The number held by `dasp_sample::Sample::EQUILIBRIUM` for that crate's
/// `U24`, which it defines as 8_388_608.
#[verifier::external_body]
fn dasp_equilibrium() -> (r: i32)
    ensures
        r == DEFAULT,
{
    <dasp_sample::U24 as dasp_sample::Sample>::EQUILIBRIUM.inner()
}

/// The sample value of silence.
pub fn equilibrium() -> (r: Primitive)
    ensures
        r@ == DEFAULT,
        r.wf(),
{
    proof {
        lemma_radix_pow_values();
    }
    U24 { inner: dasp_equilibrium() }
}

/// The encodings of this module's primitive: three bytes, or three bytes in a
/// slot of four whose remaining byte carries nothing.
#[derive(Clone, Copy, PartialEq, Eq, Debug)]
pub enum RawFormat {
    LE3B,
    BE3B,
    LE4B,
    BE4B,
}

impl RawFormat {
    /// The name of the encoding.
    pub open spec fn spec_name(self) -> Seq<char> {
        match self {
            Self::LE3B => "le3b"@,
            Self::BE3B => "be3b"@,
            Self::LE4B => "le4b"@,
            Self::BE4B => "be4b"@,
        }
    }

    /// Number of bytes that a sample of this encoding occupies.
    pub fn sample_size(self) -> (n: usize)
        ensures
            n == self.spec_sample_size(),
    {
        match self {
            Self::LE3B => 3,
            Self::BE3B => 3,
            Self::LE4B => 4,
            Self::BE4B => 4,
        }
    }

    /// The name of the encoding, as it is written after the primitive's name.
    pub fn name(self) -> (r: &'static str)
        ensures
            r@ == self.spec_name(),
    {
        match self {
            Self::LE3B => "le3b",
            Self::BE3B => "be3b",
            Self::LE4B => "le4b",
            Self::BE4B => "be4b",
        }
    }

    /// The name of the primitive and of the encoding, joined by a colon.
    pub fn full_name(self) -> (r: &'static str)
        ensures
            r@ == "u24:"@ + self.spec_name(),
    {
        match self {
            Self::LE3B => {
                proof {
                    reveal_strlit("u24:");
                    reveal_strlit("le3b");
                    reveal_strlit("u24:le3b");
                    assert("u24:le3b"@ =~= "u24:"@ + "le3b"@);
                }
                "u24:le3b"
            },
            Self::BE3B => {
                proof {
                    reveal_strlit("u24:");
                    reveal_strlit("be3b");
                    reveal_strlit("u24:be3b");
                    assert("u24:be3b"@ =~= "u24:"@ + "be3b"@);
                }
                "u24:be3b"
            },
            Self::LE4B => {
                proof {
                    reveal_strlit("u24:");
                    reveal_strlit("le4b");
                    reveal_strlit("u24:le4b");
                    assert("u24:le4b"@ =~= "u24:"@ + "le4b"@);
                }
                "u24:le4b"
            },
            Self::BE4B => {
                proof {
                    reveal_strlit("u24:");
                    reveal_strlit("be4b");
                    reveal_strlit("u24:be4b");
                    assert("u24:be4b"@ =~= "u24:"@ + "be4b"@);
                }
                "u24:be4b"
            },
        }
    }
}

impl Encoding for RawFormat {
    open spec fn spec_sample_size(self) -> nat {
        match self {
            Self::LE3B => 3,
            Self::BE3B => 3,
            Self::LE4B => 4,
            Self::BE4B => 4,
        }
    }

    open spec fn spec_is_le(self) -> bool {
        self is LE3B || self is LE4B
    }

    open spec fn spec_is_be(self) -> bool {
        self is BE3B || self is BE4B
    }

    fn sample_size(self) -> (n: usize) {
        RawFormat::sample_size(self)
    }

    fn is_le(self) -> (r: bool) {
        matches!(self, Self::LE3B | Self::LE4B)
    }

    fn is_be(self) -> (r: bool) {
        matches!(self, Self::BE3B | Self::BE4B)
    }
}

/// Little-endian raw sample of three bytes. Bit layout of the bytes:
/// `[0..7, 8..15, 16..23]`.
#[derive(Clone, Copy, PartialEq, Eq, Debug)]
pub struct LE3B(pub [u8; 3]);

impl RawSample for LE3B {
    type Primitive = Primitive;

    open spec fn width() -> nat {
        3
    }

    open spec fn bytes(self) -> Seq<u8> {
        self.0@
    }

    open spec fn decode(bytes: Seq<u8>) -> Primitive {
        U24::of(le_value(bytes) as int)
    }

    open spec fn encode(p: Primitive) -> Seq<u8> {
        le_bytes(p@, 3)
    }

    open spec fn representable(p: Primitive) -> bool {
        p.wf()
    }

    proof fn lemma_round_trip(p: Primitive) {
        lemma_le_bytes_len(p@, 3);
        lemma_le_unsigned_round_trip(p@, 3);
        p.lemma_of_view();
    }

    proof fn lemma_bytes_len(self) {
    }

    proof fn lemma_width() {
    }

    fn size() -> (n: usize) {
        3
    }

    fn from_primitive(p: Primitive) -> (raw: Self) {
        let v = p.inner();
        proof {
            lemma_radix_pow_values();
            Self::lemma_round_trip(p);
        }
        LE3B(encode_le_3(v as u32))
    }

    fn to_primitive(self) -> (p: Primitive) {
        let u = decode_le_3(&self.0);
        proof {
            lemma_radix_pow_values();
            lemma_le_value_bound(self.0@);
            lemma_le_value_bound(self.0@.reverse());
        }
        U24 { inner: u as i32 }
    }

    fn load(bytes: &[u8], at: usize) -> (raw: Self) {
        LE3B(load_3(bytes, at))
    }

    fn store(self, bytes: &mut [u8], at: usize) {
        store_3(bytes, at, &self.0)
    }
}

impl Default for LE3B {
    /// The raw sample of silence.
    fn default() -> (raw: Self)
        ensures
            Self::decode(raw.bytes())@ == DEFAULT,
    {
        Self::from_primitive(equilibrium())
    }
}

impl From<Primitive> for LE3B {
    fn from(p: Primitive) -> (raw: Self) {
        let raw = Self::from_primitive(p);
        proof {
            let chosen: Self = raw_of(Self::encode(p));
            assert(chosen.0 =~= raw.0);
        }
        raw
    }
}

impl FromSpecImpl<Primitive> for LE3B {
    open spec fn obeys_from_spec() -> bool {
        true
    }

    open spec fn from_spec(p: Primitive) -> Self {
        raw_of(Self::encode(p))
    }
}

impl From<LE3B> for Primitive {
    fn from(raw: LE3B) -> (p: Self) {
        raw.to_primitive()
    }
}

impl FromSpecImpl<LE3B> for Primitive {
    open spec fn obeys_from_spec() -> bool {
        true
    }

    open spec fn from_spec(raw: LE3B) -> Self {
        LE3B::decode(raw.bytes())
    }
}

/// Big-endian raw sample of three bytes. Bit layout of the bytes:
/// `[16..23, 8..15, 0..7]`.
#[derive(Clone, Copy, PartialEq, Eq, Debug)]
pub struct BE3B(pub [u8; 3]);

impl RawSample for BE3B {
    type Primitive = Primitive;

    open spec fn width() -> nat {
        3
    }

    open spec fn bytes(self) -> Seq<u8> {
        self.0@
    }

    open spec fn decode(bytes: Seq<u8>) -> Primitive {
        U24::of(be_value(bytes) as int)
    }

    open spec fn encode(p: Primitive) -> Seq<u8> {
        be_bytes(p@, 3)
    }

    open spec fn representable(p: Primitive) -> bool {
        p.wf()
    }

    proof fn lemma_round_trip(p: Primitive) {
        lemma_le_bytes_len(p@, 3);
        lemma_be_unsigned_round_trip(p@, 3);
        p.lemma_of_view();
    }

    proof fn lemma_bytes_len(self) {
    }

    proof fn lemma_width() {
    }

    fn size() -> (n: usize) {
        3
    }

    fn from_primitive(p: Primitive) -> (raw: Self) {
        let v = p.inner();
        proof {
            lemma_radix_pow_values();
            Self::lemma_round_trip(p);
        }
        BE3B(encode_be_3(v as u32))
    }

    fn to_primitive(self) -> (p: Primitive) {
        let u = decode_be_3(&self.0);
        proof {
            lemma_radix_pow_values();
            lemma_le_value_bound(self.0@);
            lemma_le_value_bound(self.0@.reverse());
        }
        U24 { inner: u as i32 }
    }

    fn load(bytes: &[u8], at: usize) -> (raw: Self) {
        BE3B(load_3(bytes, at))
    }

    fn store(self, bytes: &mut [u8], at: usize) {
        store_3(bytes, at, &self.0)
    }
}

impl Default for BE3B {
    /// The raw sample of silence.
    fn default() -> (raw: Self)
        ensures
            Self::decode(raw.bytes())@ == DEFAULT,
    {
        Self::from_primitive(equilibrium())
    }
}

impl From<Primitive> for BE3B {
    fn from(p: Primitive) -> (raw: Self) {
        let raw = Self::from_primitive(p);
        proof {
            let chosen: Self = raw_of(Self::encode(p));
            assert(chosen.0 =~= raw.0);
        }
        raw
    }
}

impl FromSpecImpl<Primitive> for BE3B {
    open spec fn obeys_from_spec() -> bool {
        true
    }

    open spec fn from_spec(p: Primitive) -> Self {
        raw_of(Self::encode(p))
    }
}

impl From<BE3B> for Primitive {
    fn from(raw: BE3B) -> (p: Self) {
        raw.to_primitive()
    }
}

impl FromSpecImpl<BE3B> for Primitive {
    open spec fn obeys_from_spec() -> bool {
        true
    }

    open spec fn from_spec(raw: BE3B) -> Self {
        BE3B::decode(raw.bytes())
    }
}

/// Little-endian raw sample of three bytes in a slot of four. Bit layout of
/// the bytes: `[0..7, 8..15, 16..23, _]`. The last byte carries nothing: decoding and
/// equality ignore it.
#[derive(Clone, Copy, Debug)]
pub struct LE4B(pub [u8; 4]);

impl LE4B {
    /// The three bytes that carry the value.
    pub open spec fn significant(bytes: Seq<u8>) -> Seq<u8> {
        bytes.subrange(0, 3)
    }

    /// What `==` means on this type: the bytes that carry the value agree.
    pub open spec fn same_sample(self, other: Self) -> bool {
        self.0[0] == other.0[0] && self.0[1] == other.0[1] && self.0[2] == other.0[2]
    }
}

impl RawSample for LE4B {
    type Primitive = Primitive;

    open spec fn width() -> nat {
        4
    }

    open spec fn bytes(self) -> Seq<u8> {
        self.0@
    }

    open spec fn decode(bytes: Seq<u8>) -> Primitive {
        U24::of(le_value(Self::significant(bytes)) as int)
    }

    open spec fn encode(p: Primitive) -> Seq<u8> {
        le_bytes(p@, 4)
    }

    open spec fn representable(p: Primitive) -> bool {
        p.wf()
    }

    proof fn lemma_round_trip(p: Primitive) {
        lemma_le_bytes_len(p@, 4);
        lemma_le_bytes_prefix(p@, 4, 3);
        lemma_le_unsigned_round_trip(p@, 3);
        p.lemma_of_view();
    }

    proof fn lemma_bytes_len(self) {
    }

    proof fn lemma_width() {
    }

    fn size() -> (n: usize) {
        4
    }

    fn from_primitive(p: Primitive) -> (raw: Self) {
        let v = p.inner();
        proof {
            lemma_radix_pow_values();
            
            Self::lemma_round_trip(p);
        }
        LE4B(encode_le_4(v as u32))
    }

    fn to_primitive(self) -> (p: Primitive) {
        let carried: [u8; 3] = [self.0[0], self.0[1], self.0[2]];
        let u = decode_le_3(&carried);
        proof {
            assert(carried@ =~= Self::significant(self.0@));
            lemma_radix_pow_values();
            lemma_le_value_bound(carried@);
            lemma_le_value_bound(carried@.reverse());
        }
        U24 { inner: u as i32 }
    }

    fn load(bytes: &[u8], at: usize) -> (raw: Self) {
        LE4B(load_4(bytes, at))
    }

    fn store(self, bytes: &mut [u8], at: usize) {
        store_4(bytes, at, &self.0)
    }
}

impl PartialEq for LE4B {
    fn eq(&self, other: &Self) -> (r: bool) {
        self.0[0] == other.0[0] && self.0[1] == other.0[1] && self.0[2] == other.0[2]
    }
}

impl PartialEqSpecImpl for LE4B {
    open spec fn obeys_eq_spec() -> bool {
        true
    }

    open spec fn eq_spec(&self, other: &Self) -> bool {
        self.same_sample(*other)
    }
}

impl Eq for LE4B {
}

impl LE4B {
    /// Two raw samples are equal exactly if their significant bytes are, and
    /// equal raw samples decode to the same value.
    pub proof fn lemma_eq_ignores_unused_byte(self, other: Self)
        ensures
            self.same_sample(other) <==> Self::significant(self.0@) == Self::significant(other.0@),
            self.same_sample(other) ==> Self::decode(self.0@) == Self::decode(other.0@),
    {
        let a = Self::significant(self.0@);
        let b = Self::significant(other.0@);
        if self.same_sample(other) {
            assert(a =~= b);
        }
        if a == b {
            assert(a[0] == b[0] && a[1] == b[1] && a[2] == b[2]);
        }
    }
}

impl Default for LE4B {
    /// The raw sample of silence.
    fn default() -> (raw: Self)
        ensures
            Self::decode(raw.bytes())@ == DEFAULT,
    {
        Self::from_primitive(equilibrium())
    }
}

impl From<Primitive> for LE4B {
    fn from(p: Primitive) -> (raw: Self) {
        let raw = Self::from_primitive(p);
        proof {
            let chosen: Self = raw_of(Self::encode(p));
            assert(chosen.0 =~= raw.0);
        }
        raw
    }
}

impl FromSpecImpl<Primitive> for LE4B {
    open spec fn obeys_from_spec() -> bool {
        true
    }

    open spec fn from_spec(p: Primitive) -> Self {
        raw_of(Self::encode(p))
    }
}

impl From<LE4B> for Primitive {
    fn from(raw: LE4B) -> (p: Self) {
        raw.to_primitive()
    }
}

impl FromSpecImpl<LE4B> for Primitive {
    open spec fn obeys_from_spec() -> bool {
        true
    }

    open spec fn from_spec(raw: LE4B) -> Self {
        LE4B::decode(raw.bytes())
    }
}

/// Big-endian raw sample of three bytes in a slot of four. Bit layout of
/// the bytes: `[_, 16..23, 8..15, 0..7]`. The first byte carries nothing: decoding and
/// equality ignore it.
#[derive(Clone, Copy, Debug)]
pub struct BE4B(pub [u8; 4]);

impl BE4B {
    /// The three bytes that carry the value.
    pub open spec fn significant(bytes: Seq<u8>) -> Seq<u8> {
        bytes.subrange(1, 4)
    }

    /// What `==` means on this type: the bytes that carry the value agree.
    pub open spec fn same_sample(self, other: Self) -> bool {
        self.0[1] == other.0[1] && self.0[2] == other.0[2] && self.0[3] == other.0[3]
    }
}

impl RawSample for BE4B {
    type Primitive = Primitive;

    open spec fn width() -> nat {
        4
    }

    open spec fn bytes(self) -> Seq<u8> {
        self.0@
    }

    open spec fn decode(bytes: Seq<u8>) -> Primitive {
        U24::of(be_value(Self::significant(bytes)) as int)
    }

    open spec fn encode(p: Primitive) -> Seq<u8> {
        be_bytes(p@, 4)
    }

    open spec fn representable(p: Primitive) -> bool {
        p.wf()
    }

    proof fn lemma_round_trip(p: Primitive) {
        lemma_le_bytes_len(p@, 4);
        lemma_be_bytes_suffix(p@, 4, 3);
        lemma_be_unsigned_round_trip(p@, 3);
        p.lemma_of_view();
    }

    proof fn lemma_bytes_len(self) {
    }

    proof fn lemma_width() {
    }

    fn size() -> (n: usize) {
        4
    }

    fn from_primitive(p: Primitive) -> (raw: Self) {
        let v = p.inner();
        proof {
            lemma_radix_pow_values();
            
            Self::lemma_round_trip(p);
        }
        BE4B(encode_be_4(v as u32))
    }

    fn to_primitive(self) -> (p: Primitive) {
        let carried: [u8; 3] = [self.0[1], self.0[2], self.0[3]];
        let u = decode_be_3(&carried);
        proof {
            assert(carried@ =~= Self::significant(self.0@));
            lemma_radix_pow_values();
            lemma_le_value_bound(carried@);
            lemma_le_value_bound(carried@.reverse());
        }
        U24 { inner: u as i32 }
    }

    fn load(bytes: &[u8], at: usize) -> (raw: Self) {
        BE4B(load_4(bytes, at))
    }

    fn store(self, bytes: &mut [u8], at: usize) {
        store_4(bytes, at, &self.0)
    }
}

impl PartialEq for BE4B {
    fn eq(&self, other: &Self) -> (r: bool) {
        self.0[1] == other.0[1] && self.0[2] == other.0[2] && self.0[3] == other.0[3]
    }
}

impl PartialEqSpecImpl for BE4B {
    open spec fn obeys_eq_spec() -> bool {
        true
    }

    open spec fn eq_spec(&self, other: &Self) -> bool {
        self.same_sample(*other)
    }
}

impl Eq for BE4B {
}

impl BE4B {
    /// Two raw samples are equal exactly if their significant bytes are, and
    /// equal raw samples decode to the same value.
    pub proof fn lemma_eq_ignores_unused_byte(self, other: Self)
        ensures
            self.same_sample(other) <==> Self::significant(self.0@) == Self::significant(other.0@),
            self.same_sample(other) ==> Self::decode(self.0@) == Self::decode(other.0@),
    {
        let a = Self::significant(self.0@);
        let b = Self::significant(other.0@);
        if self.same_sample(other) {
            assert(a =~= b);
        }
        if a == b {
            assert(a[0] == b[0] && a[1] == b[1] && a[2] == b[2]);
        }
    }
}

impl Default for BE4B {
    /// The raw sample of silence.
    fn default() -> (raw: Self)
        ensures
            Self::decode(raw.bytes())@ == DEFAULT,
    {
        Self::from_primitive(equilibrium())
    }
}

impl From<Primitive> for BE4B {
    fn from(p: Primitive) -> (raw: Self) {
        let raw = Self::from_primitive(p);
        proof {
            let chosen: Self = raw_of(Self::encode(p));
            assert(chosen.0 =~= raw.0);
        }
        raw
    }
}

impl FromSpecImpl<Primitive> for BE4B {
    open spec fn obeys_from_spec() -> bool {
        true
    }

    open spec fn from_spec(p: Primitive) -> Self {
        raw_of(Self::encode(p))
    }
}

impl From<BE4B> for Primitive {
    fn from(raw: BE4B) -> (p: Self) {
        raw.to_primitive()
    }
}

impl FromSpecImpl<BE4B> for Primitive {
    open spec fn obeys_from_spec() -> bool {
        true
    }

    open spec fn from_spec(raw: BE4B) -> Self {
        BE4B::decode(raw.bytes())
    }
}

/// A buffer of this primitive whose samples are in one region, in any of
/// the encodings.
pub type InterleavedBuffer<'buffer> = Packed24<
    interleaved::InterleavedBuffer<'buffer, LE3B>,
    interleaved::InterleavedBuffer<'buffer, BE3B>,
    interleaved::InterleavedBuffer<'buffer, LE4B>,
    interleaved::InterleavedBuffer<'buffer, BE4B>,
>;

/// A buffer of this primitive whose channels are in regions of their own, in
/// any of the encodings.
pub type SeparatedBuffer<'buffer> = Packed24<
    separated::SeparatedBuffer<'buffer, LE3B>,
    separated::SeparatedBuffer<'buffer, BE3B>,
    separated::SeparatedBuffer<'buffer, LE4B>,
    separated::SeparatedBuffer<'buffer, BE4B>,
>;

/// A buffer of this primitive in any layout and encoding.
pub type SampleBuffer<'buffer> = Layout<InterleavedBuffer<'buffer>, SeparatedBuffer<'buffer>>;

/// A writable buffer of this primitive whose samples are in one region, in
/// any of the encodings.
pub type InterleavedBufferMut<'buffer> = Packed24<
    interleaved::InterleavedBufferMut<'buffer, LE3B>,
    interleaved::InterleavedBufferMut<'buffer, BE3B>,
    interleaved::InterleavedBufferMut<'buffer, LE4B>,
    interleaved::InterleavedBufferMut<'buffer, BE4B>,
>;

/// A writable buffer of this primitive whose channels are in regions of
/// their own, in any of the encodings.
pub type SeparatedBufferMut<'buffer> = Packed24<
    separated::SeparatedBufferMut<'buffer, LE3B>,
    separated::SeparatedBufferMut<'buffer, BE3B>,
    separated::SeparatedBufferMut<'buffer, LE4B>,
    separated::SeparatedBufferMut<'buffer, BE4B>,
>;

/// A writable buffer of this primitive in any layout and encoding.
pub type SampleBufferMut<'buffer> = Layout<InterleavedBufferMut<'buffer>, SeparatedBufferMut<'buffer>>;

pub type U24SampleBuffer<'buffer> = SampleBuffer<'buffer>;

pub type U24SampleBufferMut<'buffer> = SampleBufferMut<'buffer>;

/// The encoding that `format` names, if it is a format of this module's
/// primitive.
pub open spec fn encoding_of(format: RawSampleFormat) -> Option<RawFormat> {
    match format {
        RawSampleFormat::U24(encoding) => Some(encoding),
        _ => None,
    }
}

/// The samples that an interleaved region holds under `encoding`.
pub open spec fn interleaved_samples(
    region: Seq<u8>,
    encoding: RawFormat,
    frames: nat,
    channels: nat,
) -> Grid<Primitive> {
    match encoding {
        RawFormat::LE3B => interleaved_grid::<LE3B>(region, frames, channels),
        RawFormat::BE3B => interleaved_grid::<BE3B>(region, frames, channels),
        RawFormat::LE4B => interleaved_grid::<LE4B>(region, frames, channels),
        RawFormat::BE4B => interleaved_grid::<BE4B>(region, frames, channels),
    }
}

/// Returns whether `format` is a format of this module's primitive.
pub fn supports_format(format: RawSampleFormat) -> (r: bool)
    ensures
        r == encoding_of(format) is Some,
{
    matches!(format, RawSampleFormat::U24(_))
}

/// Presents `bytes` as an interleaved buffer of `frame_count` frames of
/// `channel_count` samples in the given format. Returns `None` if the format
/// is not one of this module's primitive.
pub fn create_interleaved_buffer<'buffer>(
    bytes: &'buffer [u8],
    format: RawSampleFormat,
    channel_count: ChannelCount,
    frame_count: FrameCount,
) -> (r: Option<SampleBuffer<'buffer>>)
    requires
        encoding_of(format) matches Some(encoding) ==> interleaved_shape(
            bytes@.len(),
            frame_count as nat,
            channel_count as nat,
            encoding.spec_sample_size(),
        ),
    ensures
        r is Some <==> encoding_of(format) is Some,
        r matches Some(buffer) ==> buffer is Interleaved && crate::buffers::SampleBuffer::wf(&buffer)
            && crate::buffers::SampleBuffer::grid(&buffer) == interleaved_samples(
            bytes@,
            encoding_of(format).unwrap(),
            frame_count as nat,
            channel_count as nat,
        ),
        r matches Some(Layout::Interleaved(Packed24::LE3B(_))) ==> encoding_of(format) == Some(
            RawFormat::LE3B,
        ),
        r matches Some(Layout::Interleaved(Packed24::BE3B(_))) ==> encoding_of(format) == Some(
            RawFormat::BE3B,
        ),
        r matches Some(Layout::Interleaved(Packed24::LE4B(_))) ==> encoding_of(format) == Some(
            RawFormat::LE4B,
        ),
        r matches Some(Layout::Interleaved(Packed24::BE4B(_))) ==> encoding_of(format) == Some(
            RawFormat::BE4B,
        ),
{
    match format {
        RawSampleFormat::U24(RawFormat::LE3B) => {
            let buffer = interleaved::InterleavedBuffer::<LE3B>::new(bytes, frame_count, channel_count);
            Some(Layout::Interleaved(Packed24::LE3B(buffer)))
        },
        RawSampleFormat::U24(RawFormat::BE3B) => {
            let buffer = interleaved::InterleavedBuffer::<BE3B>::new(bytes, frame_count, channel_count);
            Some(Layout::Interleaved(Packed24::BE3B(buffer)))
        },
        RawSampleFormat::U24(RawFormat::LE4B) => {
            let buffer = interleaved::InterleavedBuffer::<LE4B>::new(bytes, frame_count, channel_count);
            Some(Layout::Interleaved(Packed24::LE4B(buffer)))
        },
        RawSampleFormat::U24(RawFormat::BE4B) => {
            let buffer = interleaved::InterleavedBuffer::<BE4B>::new(bytes, frame_count, channel_count);
            Some(Layout::Interleaved(Packed24::BE4B(buffer)))
        },
        _ => None,
    }
}

/// Presents `bytes` as a writable interleaved buffer of `frame_count` frames
/// of `channel_count` samples in the given format. Returns `None` if the
/// format is not one of this module's primitive.
pub fn create_interleaved_buffer_mut<'buffer>(
    bytes: &'buffer mut [u8],
    format: RawSampleFormat,
    channel_count: ChannelCount,
    frame_count: FrameCount,
) -> (r: Option<SampleBufferMut<'buffer>>)
    requires
        encoding_of(format) matches Some(encoding) ==> interleaved_shape(
            old(bytes)@.len(),
            frame_count as nat,
            channel_count as nat,
            encoding.spec_sample_size(),
        ),
    ensures
        r is Some <==> encoding_of(format) is Some,
        r matches Some(buffer) ==> buffer is Interleaved && crate::buffers::SampleBufferMut::wf(
            &buffer,
        ) && crate::buffers::SampleBufferMut::grid(&buffer) == interleaved_samples(
            old(bytes)@,
            encoding_of(format).unwrap(),
            frame_count as nat,
            channel_count as nat,
        ),
        r matches Some(Layout::Interleaved(Packed24::LE3B(inner))) ==> encoding_of(format) == Some(
            RawFormat::LE3B,
        ) && final(inner.borrowed())@ == final(bytes)@,
        r matches Some(Layout::Interleaved(Packed24::BE3B(inner))) ==> encoding_of(format) == Some(
            RawFormat::BE3B,
        ) && final(inner.borrowed())@ == final(bytes)@,
        r matches Some(Layout::Interleaved(Packed24::LE4B(inner))) ==> encoding_of(format) == Some(
            RawFormat::LE4B,
        ) && final(inner.borrowed())@ == final(bytes)@,
        r matches Some(Layout::Interleaved(Packed24::BE4B(inner))) ==> encoding_of(format) == Some(
            RawFormat::BE4B,
        ) && final(inner.borrowed())@ == final(bytes)@,
        r is None ==> final(bytes)@ == old(bytes)@,
{
    match format {
        RawSampleFormat::U24(RawFormat::LE3B) => {
            let buffer = interleaved::InterleavedBufferMut::<LE3B>::new(bytes, frame_count, channel_count);
            Some(Layout::Interleaved(Packed24::LE3B(buffer)))
        },
        RawSampleFormat::U24(RawFormat::BE3B) => {
            let buffer = interleaved::InterleavedBufferMut::<BE3B>::new(bytes, frame_count, channel_count);
            Some(Layout::Interleaved(Packed24::BE3B(buffer)))
        },
        RawSampleFormat::U24(RawFormat::LE4B) => {
            let buffer = interleaved::InterleavedBufferMut::<LE4B>::new(bytes, frame_count, channel_count);
            Some(Layout::Interleaved(Packed24::LE4B(buffer)))
        },
        RawSampleFormat::U24(RawFormat::BE4B) => {
            let buffer = interleaved::InterleavedBufferMut::<BE4B>::new(bytes, frame_count, channel_count);
            Some(Layout::Interleaved(Packed24::BE4B(buffer)))
        },
        _ => None,
    }
}

impl SizedSample for Primitive {
    type RawFormat = RawFormat;

    type Buffer<'buffer> = SampleBuffer<'buffer>;

    type BufferMut<'buffer> = SampleBufferMut<'buffer>;

    open spec fn encoding_of(format: RawSampleFormat) -> Option<RawFormat> {
        encoding_of(format)
    }

    open spec fn interleaved_samples(
        region: Seq<u8>,
        encoding: RawFormat,
        frames: nat,
        channels: nat,
    ) -> Grid<Primitive> {
        interleaved_samples(region, encoding, frames, channels)
    }

    fn supports_format(format: RawSampleFormat) -> (r: bool) {
        supports_format(format)
    }

    fn create_interleaved_buffer<'buffer>(
        bytes: &'buffer [u8],
        format: RawSampleFormat,
        channel_count: ChannelCount,
        frame_count: FrameCount,
    ) -> (r: Option<SampleBuffer<'buffer>>) {
        create_interleaved_buffer(bytes, format, channel_count, frame_count)
    }

    fn create_interleaved_buffer_mut<'buffer>(
        bytes: &'buffer mut [u8],
        format: RawSampleFormat,
        channel_count: ChannelCount,
        frame_count: FrameCount,
    ) -> (r: Option<SampleBufferMut<'buffer>>) {
        create_interleaved_buffer_mut(bytes, format, channel_count, frame_count)
    }
}

} // verus!
