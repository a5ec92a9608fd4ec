//! Raw samples: the fixed-width byte encodings of sample values.
//!
//! Each submodule belongs to one primitive sample type and holds one raw
//! sample type per encoding of that primitive, together with the descriptor
//! of those encodings.
use crate::codec::{be_bytes, le_bytes};
use vstd::prelude::*;

pub mod float32;
pub mod float64;
pub mod i16;
pub mod i24;
pub mod i32;
pub mod i64;
pub mod i8;
pub mod u16;
pub mod u24;
pub mod u32;
pub mod u64;
pub mod u8;

verus! {

/// The bytes of the 16-bit number one in the byte order of the machine, from
/// `u16::to_ne_bytes`. std documents the native order as either the
/// little-endian or the big-endian one, and which of them depends on the
/// target alone.
#[verifier::external_body]
fn native_bytes_of_one() -> (bytes: [u8; 2])
    ensures
        bytes@ == le_bytes(1, 2) || bytes@ == be_bytes(1, 2),
{
    1u16.to_ne_bytes()
}

/// Whether the machine stores the least significant byte first.
pub fn native_is_little_endian() -> bool {
    let bytes = native_bytes_of_one();
    is_one_in_little_endian(&bytes)
}

/// Whether a format that is little endian iff `is_le`, and big endian iff
/// `is_be`, has the byte order of a machine that is little endian iff
/// `native_little`.
pub fn is_native_on(native_little: bool, is_le: bool, is_be: bool) -> (r: bool)
    ensures
        r == if native_little {
            is_le
        } else {
            is_be
        },
{
    if native_little {
        is_le
    } else {
        is_be
    }
}

/// Meta-data about the in-memory representation of a sample.
pub trait Encoding: Copy + Sized {
    /// Number of bytes the sample format occupies in a buffer.
    spec fn spec_sample_size(self) -> nat;

    /// Whether the sample format is little endian.
    spec fn spec_is_le(self) -> bool;

    /// Whether the sample format is big endian.
    spec fn spec_is_be(self) -> bool;

    /// Number of bytes the sample format occupies in a buffer.
    fn sample_size(self) -> (n: usize)
        ensures
            n == self.spec_sample_size(),
    ;

    /// Returns whether the sample format is little endian.
    fn is_le(self) -> (r: bool)
        ensures
            r == self.spec_is_le(),
    ;

    /// Returns whether the sample format is big endian.
    fn is_be(self) -> (r: bool)
        ensures
            r == self.spec_is_be(),
    ;

    /// Returns whether the sample format is in the byte order of the machine:
    /// `is_le()` on a little-endian machine, `is_be()` on a big-endian one.
    fn is_ne(self) -> (r: bool)
        ensures
            r == self.spec_is_le() || r == self.spec_is_be(),
    {
        is_native_on(native_is_little_endian(), self.is_le(), self.is_be())
    }
}

/// Encoding descriptor of a primitive that has a little-endian and a
/// big-endian encoding, both of `SIZE` bytes.
#[derive(Clone, Copy, PartialEq, Eq, Debug)]
pub enum SimpleLittleBigEncoding<const SIZE: usize> {
    LE,
    BE,
}

impl<const SIZE: usize> Encoding for SimpleLittleBigEncoding<SIZE> {
    open spec fn spec_sample_size(self) -> nat {
        SIZE as nat
    }

    open spec fn spec_is_le(self) -> bool {
        self is LE
    }

    open spec fn spec_is_be(self) -> bool {
        self is BE
    }

    fn sample_size(self) -> (n: usize) {
        SIZE
    }

    fn is_le(self) -> (r: bool) {
        matches!(self, Self::LE)
    }

    fn is_be(self) -> (r: bool) {
        matches!(self, Self::BE)
    }
}

impl<const SIZE: usize> SimpleLittleBigEncoding<SIZE> {
    /// The name of the encoding: `"le"` or `"be"`.
    pub fn name(self) -> (r: &'static str)
        ensures
            r@ == (if self is LE {
                "le"@
            } else {
                "be"@
            }),
    {
        match self {
            Self::LE => "le",
            Self::BE => "be",
        }
    }
}

/// Encoding descriptor of a primitive with a single encoding of `SIZE` bytes,
/// which is therefore both little and big endian.
#[derive(Clone, Copy, PartialEq, Eq, Debug)]
pub enum SimpleEncoding<const SIZE: usize> {
    NE,
}

impl<const SIZE: usize> Encoding for SimpleEncoding<SIZE> {
    open spec fn spec_sample_size(self) -> nat {
        SIZE as nat
    }

    open spec fn spec_is_le(self) -> bool {
        true
    }

    open spec fn spec_is_be(self) -> bool {
        true
    }

    fn sample_size(self) -> (n: usize) {
        SIZE
    }

    fn is_le(self) -> (r: bool) {
        matches!(self, Self::NE)
    }

    fn is_be(self) -> (r: bool) {
        matches!(self, Self::NE)
    }
}

impl<const SIZE: usize> SimpleEncoding<SIZE> {
    /// The name of the encoding: `"ne"`.
    pub fn name(self) -> (r: &'static str)
        ensures
            r@ == "ne"@,
    {
        "ne"
    }
}

/// A single sample in its raw memory representation: a fixed number of bytes
/// that encode exactly one value of the primitive type.
pub trait RawSample: Copy + Sized {
    /// The application-facing type that the raw bytes stand for.
    type Primitive: Copy;

    /// Number of bytes that one raw sample occupies in a buffer.
    spec fn width() -> nat;

    /// The bytes of this raw sample, in memory order.
    spec fn bytes(self) -> Seq<u8>;

    /// The value that a run of `width()` bytes stands for. Total: every bit
    /// pattern is the encoding of some value.
    spec fn decode(bytes: Seq<u8>) -> Self::Primitive;

    /// The bytes that stand for `p`.
    spec fn encode(p: Self::Primitive) -> Seq<u8>;

    /// Whether `p` is a value of the primitive's declared range, so that its
    /// encoding loses nothing.
    spec fn representable(p: Self::Primitive) -> bool;

    /// Decoding undoes encoding, for every representable value.
    proof fn lemma_round_trip(p: Self::Primitive)
        requires
            Self::representable(p),
        ensures
            Self::encode(p).len() == Self::width(),
            Self::decode(Self::encode(p)) == p,
    ;

    /// A raw sample has exactly `width()` bytes.
    proof fn lemma_bytes_len(self)
        ensures
            self.bytes().len() == Self::width(),
    ;

    /// A sample format is between one and eight bytes wide.
    proof fn lemma_width()
        ensures
            1 <= Self::width() <= 8,
    ;

    /// Number of bytes that one raw sample occupies in a buffer.
    fn size() -> (n: usize)
        ensures
            n == Self::width(),
            1 <= n <= 8,
    ;

    /// Encodes a primitive value.
    fn from_primitive(p: Self::Primitive) -> (raw: Self)
        ensures
            raw.bytes() == Self::encode(p),
            Self::decode(raw.bytes()) == p,
    ;

    /// Decodes the primitive value.
    fn to_primitive(self) -> (p: Self::Primitive)
        ensures
            p == Self::decode(self.bytes()),
    ;

    /// Reads the raw sample that starts at byte `at` of `bytes`.
    fn load(bytes: &[u8], at: usize) -> (raw: Self)
        requires
            at + Self::width() <= bytes@.len(),
        ensures
            raw.bytes() == bytes@.subrange(at as int, at + Self::width()),
    ;

    /// Writes this raw sample into `bytes`, starting at byte `at`. No other
    /// byte changes.
    fn store(self, bytes: &mut [u8], at: usize)
        requires
            at + Self::width() <= old(bytes)@.len(),
        ensures
            final(bytes)@ == crate::codec::overwrite(old(bytes)@, at as int, self.bytes()),
    ;
}

/// The raw sample that consists of exactly `bytes`.
pub open spec fn raw_of<T: RawSample>(bytes: Seq<u8>) -> T {
    choose|raw: T| raw.bytes() == bytes
}

/// Whether `bytes` are the 16-bit number one with the least significant byte
/// first. Of the two byte orders that a machine can have, this tells the
/// little-endian one from the big-endian one.
pub fn is_one_in_little_endian(bytes: &[u8; 2]) -> (r: bool)
    ensures
        r <==> bytes@ == le_bytes(1, 2),
        bytes@ == be_bytes(1, 2) ==> !r,
{
    proof {
        reveal_with_fuel(le_bytes, 3);
        assert(le_bytes(1, 2) =~= seq![1u8, 0u8]);
        assert(be_bytes(1, 2) =~= seq![0u8, 1u8]);
        if bytes[0] == 1 && bytes[1] == 0 {
            assert(bytes@ =~= le_bytes(1, 2));
        }
    }
    bytes[0] == 1 && bytes[1] == 0
}

} // verus!
