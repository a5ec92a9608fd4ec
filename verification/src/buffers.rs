//! Sample buffers: a borrowed byte region seen as a grid of channels and
//! frames.
//!
//! The mathematical model of every buffer is a [`Grid`]. The views of the
//! submodules say how the bytes of a region make up that grid, and every
//! accessor and writer states its effect on the grid alone, so a caller
//! reasons without regard to layout, width or byte order.
use crate::buffers::grid::Grid;
use crate::codec::overwrite;
use crate::types::RawSample;
use crate::{ChannelCount, FrameCount};
use core::marker::PhantomData;
use vstd::prelude::*;

pub mod chunks;
pub mod dispatch;
pub mod grid;
pub mod interleaved;
pub mod order;
pub mod separated;

verus! {

/// Index of a channel of a buffer.
pub type ChannelIndex = ChannelCount;

/// Index of a frame of a buffer.
pub type FrameIndex = FrameCount;

/// Index of a sample in a run of consecutive samples.
pub type SampleIndex = usize;

/// The coordinate of one sample in the grid of a buffer.
#[derive(Clone, Copy, PartialEq, Eq, Structural, Debug, Default)]
pub struct SampleAddress {
    pub channel: ChannelIndex,
    pub frame: FrameIndex,
}

/// The bytes of the sample slot `index` in a region of samples of `width`
/// bytes each.
pub open spec fn slot(region: Seq<u8>, index: int, width: nat) -> Seq<u8> {
    region.subrange(index * width, index * width + width)
}

/// The value of the sample in slot `index` of `region` under the codec `T`.
pub open spec fn sample_of<T: RawSample>(region: Seq<u8>, index: int) -> T::Primitive {
    T::decode(slot(region, index, T::width()))
}

/// The samples in the `count` slots of `region`, in memory order.
pub open spec fn samples_of<T: RawSample>(region: Seq<u8>, count: nat) -> Seq<T::Primitive> {
    Seq::new(count, |i: int| sample_of::<T>(region, i))
}

/// Slot `index` of `count` slots lies within the region that holds them.
pub proof fn lemma_slot_bounds(index: int, count: int, width: nat)
    requires
        0 <= index < count,
    ensures
        0 <= index * width,
        index * width + width <= count * width,
        index * width + width == (index + 1) * width,
{
    assert(index * width + width == (index + 1) * width) by (nonlinear_arith);
    assert(0 <= index * width) by (nonlinear_arith)
        requires
            0 <= index,
    ;
    assert((index + 1) * width <= count * width) by (nonlinear_arith)
        requires
            index + 1 <= count,
    ;
}

/// Two different slots share no byte.
pub proof fn lemma_slots_disjoint(i: int, j: int, width: nat)
    requires
        0 <= i,
        0 <= j,
        i != j,
    ensures
        i * width + width <= j * width || j * width + width <= i * width,
{
    if i < j {
        lemma_slot_bounds(i, j, width);
    } else {
        lemma_slot_bounds(j, i, width);
    }
}

/// Overwriting one slot replaces that slot and leaves every other one as it
/// was.
pub proof fn lemma_overwrite_slot(region: Seq<u8>, index: int, part: Seq<u8>)
    requires
        0 <= index,
        index * part.len() + part.len() <= region.len(),
    ensures
        overwrite(region, index * part.len(), part).len() == region.len(),
        slot(overwrite(region, index * part.len(), part), index, part.len()) == part,
        forall|j: int|
            0 <= j && j != index && j * part.len() + part.len() <= region.len() ==> #[trigger] slot(
                overwrite(region, index * part.len(), part),
                j,
                part.len(),
            ) == slot(region, j, part.len()),
{
    let width = part.len();
    let after = overwrite(region, index * width, part);
    assert(0 <= index * width) by (nonlinear_arith)
        requires
            0 <= index,
    ;
    assert(slot(after, index, width) =~= part);
    assert forall|j: int|
        0 <= j && j != index && j * width + width <= region.len() implies #[trigger] slot(
        after,
        j,
        width,
    ) == slot(region, j, width) by {
        lemma_slots_disjoint(index, j, width);
        assert(0 <= j * width) by (nonlinear_arith)
            requires
                0 <= j,
        ;
        assert(slot(after, j, width) =~= slot(region, j, width));
    }
}

/// A slot of a part of a region is a slot of the region.
pub proof fn lemma_slot_of_subrange(region: Seq<u8>, first: int, count: int, index: int, width: nat)
    requires
        0 <= first,
        0 <= index < count,
        (first + count) * width <= region.len(),
    ensures
        slot(region.subrange(first * width, (first + count) * width), index, width) == slot(
            region,
            first + index,
            width,
        ),
{
    lemma_slot_bounds(index, count, width);
    lemma_slot_bounds(first + index, first + count, width);
    assert((first + index) * width == first * width + index * width) by (nonlinear_arith);
    assert(0 <= first * width) by (nonlinear_arith)
        requires
            0 <= first,
    ;
    assert((first + count) * width == first * width + count * width) by (nonlinear_arith);
    assert(slot(region.subrange(first * width, (first + count) * width), index, width) =~= slot(
        region,
        first + index,
        width,
    ));
}

/// Decodes the sample in slot `index` of `bytes`.
pub fn read_sample<T: RawSample>(bytes: &[u8], index: usize) -> (p: T::Primitive)
    requires
        index * T::width() + T::width() <= bytes@.len(),
    ensures
        p == sample_of::<T>(bytes@, index as int),
{
    let width = T::size();
    assert(index * width + width <= bytes.len());
    let raw = T::load(bytes, index * width);
    raw.to_primitive()
}

/// Encodes `p` into slot `index` of `bytes`. No other slot changes.
pub fn write_sample<T: RawSample>(bytes: &mut [u8], index: usize, p: T::Primitive)
    requires
        index * T::width() + T::width() <= old(bytes)@.len(),
    ensures
        final(bytes)@.len() == old(bytes)@.len(),
        sample_of::<T>(final(bytes)@, index as int) == p,
        forall|j: int|
            0 <= j && j != index && j * T::width() + T::width() <= old(bytes)@.len()
                ==> #[trigger] slot(final(bytes)@, j, T::width()) == slot(
                old(bytes)@,
                j,
                T::width(),
            ),
{
    let width = T::size();
    assert(index * width + width <= bytes.len());
    let raw = T::from_primitive(p);
    proof {
        raw.lemma_bytes_len();
        lemma_overwrite_slot(bytes@, index as int, raw.bytes());
    }
    raw.store(bytes, index * width);
}

/// The rows of a slice of vectors, each as a sequence.
pub open spec fn rows<S>(vectors: Seq<Vec<S>>) -> Seq<Seq<S>> {
    Seq::new(vectors.len(), |i: int| vectors[i]@)
}

/// A one-pass cursor over a finite sequence: each call of `next` hands out
/// the first of the remaining items, and `None` once none remains.
pub trait Cursor: Sized {
    type Item;

    /// The invariant of the cursor's state.
    spec fn wf(&self) -> bool;

    /// The items that the cursor has yet to hand out, in order.
    spec fn remaining(&self) -> Seq<Self::Item>;

    /// Hands out the next item.
    fn next(&mut self) -> (item: Option<Self::Item>)
        requires
            old(self).wf(),
        ensures
            final(self).wf(),
            match item {
                Some(item) => old(self).remaining().len() > 0 && item == old(self).remaining()[0]
                    && final(self).remaining() == old(self).remaining().skip(1),
                None => old(self).remaining().len() == 0 && final(self).remaining().len() == 0,
            },
    ;
}

/// A run of samples that can be walked once: a frame, or a channel.
pub trait Run: Sized {
    type Item;

    type Samples: Cursor<Item = Self::Item>;

    /// The invariant of the run.
    spec fn wf(&self) -> bool;

    /// The samples of the run, in order.
    spec fn samples(&self) -> Seq<Self::Item>;

    /// A cursor over the samples of the run, from the first one.
    fn into_iter(self) -> (cursor: Self::Samples)
        requires
            self.wf(),
        ensures
            cursor.wf(),
            cursor.remaining() == self.samples(),
    ;
}

/// A one-pass cursor over runs of samples: the frames, or the channels, of a
/// buffer.
pub trait Runs: Sized {
    type Run: Run;

    /// The invariant of the cursor's state.
    spec fn wf(&self) -> bool;

    /// The samples of each run that the cursor has yet to hand out.
    spec fn remaining(&self) -> Seq<Seq<<Self::Run as Run>::Item>>;

    /// Hands out the next run.
    fn next(&mut self) -> (run: Option<Self::Run>)
        requires
            old(self).wf(),
        ensures
            final(self).wf(),
            match run {
                Some(run) => old(self).remaining().len() > 0 && run.wf() && run.samples() == old(
                    self,
                ).remaining()[0] && final(self).remaining() == old(self).remaining().skip(1),
                None => old(self).remaining().len() == 0 && final(self).remaining().len() == 0,
            },
    ;
}

/// Read access to a buffer of samples, whatever its layout and encoding.
pub trait SampleBuffer: Sized {
    type Item: Copy;

    type Frame: Run<Item = Self::Item>;

    type Frames: Runs<Run = Self::Frame>;

    type Channel: Run<Item = Self::Item>;

    type Channels: Runs<Run = Self::Channel>;

    type Samples: Cursor<Item = (SampleAddress, Self::Item)>;

    type SamplesInterleaved: Cursor<Item = Self::Item>;

    type SamplesSeparated: Cursor<Item = Self::Item>;

    /// The invariant of the view: the borrowed bytes have the declared shape.
    spec fn wf(&self) -> bool;

    /// The samples of the buffer.
    spec fn grid(&self) -> Grid<Self::Item>;

    /// The grid of a buffer is well formed, and its dimensions fit their
    /// index types.
    proof fn lemma_shape(&self)
        requires
            self.wf(),
        ensures
            self.grid().wf(),
            self.grid().frames <= FrameCount::MAX,
            self.grid().channel_count() <= ChannelCount::MAX,
    ;

    /// Number of frames in this buffer.
    fn frame_count(&self) -> (n: FrameIndex)
        requires
            self.wf(),
        ensures
            n == self.grid().frames,
    ;

    /// Returns a single frame of this buffer.
    fn frame(&self, index: FrameIndex) -> (frame: Self::Frame)
        requires
            self.wf(),
            index < self.grid().frames,
        ensures
            frame.wf(),
            frame.samples() == self.grid().frame(index as int),
    ;

    /// Returns a cursor over all frames of this buffer, in frame order.
    fn frames(&self) -> (frames: Self::Frames)
        requires
            self.wf(),
        ensures
            frames.wf(),
            frames.remaining() == self.grid().all_frames(),
    ;

    /// Number of channels in this buffer.
    fn channel_count(&self) -> (n: ChannelCount)
        requires
            self.wf(),
        ensures
            n == self.grid().channel_count(),
    ;

    /// Returns a single channel of this buffer.
    fn channel(&self, index: ChannelIndex) -> (channel: Self::Channel)
        requires
            self.wf(),
            index < self.grid().channel_count(),
        ensures
            channel.wf(),
            channel.samples() == self.grid().channel(index as int),
    ;

    /// Returns a cursor over all channels of this buffer, in channel order.
    fn channels(&self) -> (channels: Self::Channels)
        requires
            self.wf(),
        ensures
            channels.wf(),
            channels.remaining() == self.grid().channels,
    ;

    /// Returns a cursor over all samples of this buffer with their addresses.
    /// The order is that of the layout, frame-major or channel-major; every
    /// sample is visited exactly once.
    fn samples(&self) -> (samples: Self::Samples)
        requires
            self.wf(),
        ensures
            samples.wf(),
            samples.remaining() == self.grid().addressed_interleaved() || samples.remaining()
                == self.grid().addressed_separated(),
    ;

    /// Returns a cursor over all samples of this buffer, grouped into frames
    /// as if they were stored in frame-major order:
    /// `L0, R0, L1, R1, L2, R2, ..`.
    fn samples_interleaved(&self) -> (samples: Self::SamplesInterleaved)
        requires
            self.wf(),
        ensures
            samples.wf(),
            samples.remaining() == self.grid().interleaved(),
    ;

    /// Returns a cursor over all samples of this buffer, grouped into
    /// channels as if they were stored in channel-major order:
    /// `L0, L1, L2, .., R0, R1, R2, ..`.
    fn samples_separated(&self) -> (samples: Self::SamplesSeparated)
        requires
            self.wf(),
        ensures
            samples.wf(),
            samples.remaining() == self.grid().separated(),
    ;
}

/// Write access to a buffer of samples, whatever its layout and encoding.
/// Every write stores the encoding of the value it was given, and the bulk
/// writes stop at the end of the shorter of input and buffer.
pub trait SampleBufferMut: Sized {
    type Item: Copy;

    /// The invariant of the view: the borrowed bytes have the declared shape.
    spec fn wf(&self) -> bool;

    /// The samples of the buffer.
    spec fn grid(&self) -> Grid<Self::Item>;

    /// The grid of a buffer is well formed, and its dimensions fit their
    /// index types.
    proof fn lemma_shape(&self)
        requires
            self.wf(),
        ensures
            self.grid().wf(),
            self.grid().frames <= FrameCount::MAX,
            self.grid().channel_count() <= ChannelCount::MAX,
    ;

    /// Number of frames in this buffer.
    fn frame_count(&self) -> (n: FrameIndex)
        requires
            self.wf(),
        ensures
            n == self.grid().frames,
    ;

    /// Writes a single frame into this buffer.
    fn write_frame(&mut self, index: FrameIndex, frame: &[Self::Item])
        requires
            old(self).wf(),
            index < old(self).grid().frames,
        ensures
            final(self).wf(),
            final(self).grid() == old(self).grid().with_frame(index as int, frame@),
    ;

    /// Writes all frames into this buffer.
    fn write_frames(&mut self, frames: &[Vec<Self::Item>])
        requires
            old(self).wf(),
        ensures
            final(self).wf(),
            final(self).grid() == old(self).grid().with_frames(rows(frames@)),
    ;

    /// Number of channels in this buffer.
    fn channel_count(&self) -> (n: ChannelCount)
        requires
            self.wf(),
        ensures
            n == self.grid().channel_count(),
    ;

    /// Writes a single channel into this buffer.
    fn write_channel(&mut self, index: ChannelIndex, channel: &[Self::Item])
        requires
            old(self).wf(),
            index < old(self).grid().channel_count(),
        ensures
            final(self).wf(),
            final(self).grid() == old(self).grid().with_channel(index as int, channel@),
    ;

    /// Writes all channels into this buffer.
    fn write_channels(&mut self, channels: &[Vec<Self::Item>])
        requires
            old(self).wf(),
        ensures
            final(self).wf(),
            final(self).grid() == old(self).grid().with_channels(rows(channels@)),
    ;

    /// Writes a single sample into this buffer.
    fn write_sample(&mut self, address: SampleAddress, sample: Self::Item)
        requires
            old(self).wf(),
            old(self).grid().has(address.channel as int, address.frame as int),
        ensures
            final(self).wf(),
            final(self).grid() == old(self).grid().with_sample(
                address.channel as int,
                address.frame as int,
                sample,
            ),
    ;

    /// Writes all samples into this buffer. The samples are taken as grouped
    /// into frames, as if they were stored in frame-major order:
    /// `L0, R0, L1, R1, L2, R2, ..`.
    fn write_samples_interleaved(&mut self, samples: &[Self::Item])
        requires
            old(self).wf(),
        ensures
            final(self).wf(),
            final(self).grid() == old(self).grid().with_interleaved(samples@),
    ;

    /// Writes all samples into this buffer. The samples are taken as grouped
    /// into channels, as if they were stored in channel-major order:
    /// `L0, L1, L2, .., R0, R1, R2, ..`.
    fn write_samples_separated(&mut self, samples: &[Self::Item])
        requires
            old(self).wf(),
        ensures
            final(self).wf(),
            final(self).grid() == old(self).grid().with_separated(samples@),
    ;
}

/// A generator of samples: the capability that a stream asks of the code
/// that produces its audio. On each call the source fills the buffer it is
/// handed; whatever it carries from one call to the next, such as the phase
/// of an oscillator, is its own.
pub trait AudioSource {
    type Item: Copy;

    /// What the stream tells the source about the call, such as its timing.
    type Info;

    /// Fills `buffer` with the next samples. The source writes samples and
    /// leaves the shape of the buffer as it is.
    fn fill_buffer<B: SampleBufferMut<Item = Self::Item>>(&mut self, buffer: &mut B, info: &Self::Info)
        requires
            old(buffer).wf(),
        ensures
            final(buffer).wf(),
            final(buffer).grid().frames == old(buffer).grid().frames,
            final(buffer).grid().channel_count() == old(buffer).grid().channel_count(),
    ;
}

/// Multiple raw samples stored consecutively in memory.
pub struct SampleSlice<'buffer, T: RawSample> {
    bytes: &'buffer [u8],
    count: usize,
    codec: PhantomData<T>,
}

impl<'buffer, T: RawSample> SampleSlice<'buffer, T> {
    /// The bytes that the slice borrows.
    pub closed spec fn region(&self) -> Seq<u8> {
        self.bytes@
    }

    /// Number of samples in the slice.
    pub closed spec fn spec_len(&self) -> nat {
        self.count as nat
    }

    /// A view of `count` samples over `bytes`.
    pub fn new(bytes: &'buffer [u8], count: usize) -> (slice: Self)
        requires
            bytes@.len() == count * T::width(),
        ensures
            slice.wf(),
            slice.region() == bytes@,
            slice.spec_len() == count,
    {
        SampleSlice { bytes, count, codec: PhantomData }
    }

    /// Number of samples in the slice.
    pub fn len(&self) -> (n: usize)
        requires
            self.wf(),
        ensures
            n == self.samples().len(),
    {
        self.count
    }

    /// The raw sample at `index`.
    pub fn index(&self, index: SampleIndex) -> (raw: T)
        requires
            self.wf(),
            index < self.samples().len(),
        ensures
            raw.bytes() == slot(self.region(), index as int, T::width()),
            T::decode(raw.bytes()) == self.samples()[index as int],
    {
        proof {
            lemma_slot_bounds(index as int, self.count as int, T::width());
        }
        let width = T::size();
        assert(index * width + width <= self.bytes.len());
        T::load(self.bytes, index * width)
    }
}

impl<'buffer, T: RawSample> Run for SampleSlice<'buffer, T> {
    type Item = T::Primitive;

    type Samples = Samples<'buffer, T>;

    closed spec fn wf(&self) -> bool {
        self.bytes@.len() == self.count * T::width()
    }

    open spec fn samples(&self) -> Seq<T::Primitive> {
        samples_of::<T>(self.region(), self.spec_len())
    }

    fn into_iter(self) -> (cursor: Samples<'buffer, T>) {
        let cursor = Samples { bytes: self.bytes, count: self.count, position: 0, codec: PhantomData };
        assert(cursor.remaining() =~= self.samples());
        cursor
    }
}

/// Cursor over the primitive values of the samples stored in a
/// `SampleSlice`.
pub struct Samples<'buffer, T: RawSample> {
    bytes: &'buffer [u8],
    count: usize,
    position: usize,
    codec: PhantomData<T>,
}

impl<'buffer, T: RawSample> Cursor for Samples<'buffer, T> {
    type Item = T::Primitive;

    closed spec fn wf(&self) -> bool {
        &&& self.bytes@.len() == self.count * T::width()
        &&& self.position <= self.count
    }

    closed spec fn remaining(&self) -> Seq<T::Primitive> {
        samples_of::<T>(self.bytes@, self.count as nat).skip(self.position as int)
    }

    fn next(&mut self) -> (item: Option<T::Primitive>) {
        if self.position < self.count {
            proof {
                lemma_slot_bounds(self.position as int, self.count as int, T::width());
            }
            let sample = read_sample::<T>(self.bytes, self.position);
            self.position += 1;
            assert(self.remaining() =~= old(self).remaining().skip(1));
            Some(sample)
        } else {
            None
        }
    }
}

} // verus!
