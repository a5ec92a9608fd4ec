//! Buffers that hold all samples in one region, grouped by frames.
use crate::buffers::grid::{
    lemma_chunked_channels, lemma_coordinates, lemma_position, lemma_with_interleaved_prefix,
    lemma_with_interleaved_step, Grid,
};
use crate::buffers::chunks::chunks_of;
use crate::buffers::{
    lemma_slot_bounds, lemma_slot_of_subrange, rows, sample_of, samples_of, slot, ChannelIndex,
    Cursor, FrameIndex, Run, Runs, SampleAddress, SampleBuffer, SampleBufferMut, SampleIndex,
    SampleSlice, Samples,
};
use crate::types::RawSample;
use crate::{ChannelCount, FrameCount};
use core::marker::PhantomData;
use core::ops::Range;
use vstd::prelude::*;
use vstd::slice::slice_subrange;

verus! {

/// The grid that `region` holds when its sample slots are grouped into
/// `frames` frames of `channels` samples each: the sample of channel `c` at
/// frame `f` is in slot `f * channels + c`.
pub open spec fn interleaved_grid<T: RawSample>(region: Seq<u8>, frames: nat, channels: nat) -> Grid<
    T::Primitive,
> {
    Grid {
        frames,
        channels: Seq::new(
            channels,
            |c: int| Seq::new(frames, |f: int| sample_of::<T>(region, f * channels + c)),
        ),
    }
}

/// Whether `len` bytes are exactly `frames` frames of `channels` samples of
/// `width` bytes.
pub open spec fn interleaved_shape(len: nat, frames: nat, channels: nat, width: nat) -> bool {
    len == frames * channels * width
}

/// The frame-major order of an interleaved region is its memory order.
pub proof fn lemma_interleaved_order<T: RawSample>(region: Seq<u8>, frames: nat, channels: nat)
    ensures
        interleaved_grid::<T>(region, frames, channels).interleaved() == samples_of::<T>(
            region,
            frames * channels,
        ),
{
    let grid = interleaved_grid::<T>(region, frames, channels);
    assert forall|i: int| 0 <= i < frames * channels implies grid.interleaved()[i] == sample_of::<T>(
        region,
        i,
    ) by {
        lemma_coordinates(i, frames as int, channels as int);
    }
    assert(grid.interleaved() =~= samples_of::<T>(region, frames * channels));
}

/// Checks that `len` bytes hold exactly `frame_count` frames of
/// `channel_count` samples of `width` bytes.
pub fn has_interleaved_shape(
    len: usize,
    frame_count: FrameCount,
    channel_count: ChannelCount,
    width: usize,
) -> (r: bool)
    requires
        1 <= width <= 8,
    ensures
        r == interleaved_shape(len as nat, frame_count as nat, channel_count as nat, width as nat),
{
    assert(frame_count * channel_count <= 0xffff_ffff * 0xffff) by (nonlinear_arith)
        requires
            frame_count <= 0xffff_ffff,
            channel_count <= 0xffff,
    ;
    let samples: u64 = frame_count as u64 * channel_count as u64;
    assert(samples * width <= 0xffff_ffff * 0xffff * 8) by (nonlinear_arith)
        requires
            samples <= 0xffff_ffff * 0xffff,
            width <= 8,
    ;
    let total: u64 = samples * width as u64;
    len as u64 == total
}

/// Contains samples in a single buffer grouped by frames.
pub struct InterleavedBuffer<'buffer, T: RawSample> {
    bytes: &'buffer [u8],
    frame_count: FrameCount,
    channel_count: ChannelCount,
    codec: PhantomData<T>,
}

impl<'buffer, T: RawSample> InterleavedBuffer<'buffer, T> {
    /// The bytes that the buffer borrows.
    pub closed spec fn region(&self) -> Seq<u8> {
        self.bytes@
    }

    /// The invariant of the view: the bytes are exactly the declared number
    /// of frames and channels.
    pub closed spec fn shaped(&self) -> bool {
        interleaved_shape(
            self.bytes@.len(),
            self.frame_count as nat,
            self.channel_count as nat,
            T::width(),
        )
    }

    /// The samples of the buffer.
    pub closed spec fn model(&self) -> Grid<T::Primitive> {
        interleaved_grid::<T>(self.bytes@, self.frame_count as nat, self.channel_count as nat)
    }

    /// A view of `bytes` as `frame_count` frames of `channel_count` samples.
    pub fn new(bytes: &'buffer [u8], frame_count: FrameCount, channel_count: ChannelCount) -> (buffer:
        Self)
        requires
            interleaved_shape(bytes@.len(), frame_count as nat, channel_count as nat, T::width()),
        ensures
            buffer.shaped(),
            buffer.region() == bytes@,
            buffer.model() == interleaved_grid::<T>(bytes@, frame_count as nat, channel_count as nat),
    {
        InterleavedBuffer { bytes, frame_count, channel_count, codec: PhantomData }
    }

    /// A view of `bytes` as `frame_count` frames of `channel_count` samples,
    /// or `None` if `bytes` does not have exactly that many samples.
    pub fn try_new(bytes: &'buffer [u8], frame_count: FrameCount, channel_count: ChannelCount) -> (r:
        Option<Self>)
        ensures
            r is Some <==> interleaved_shape(
                bytes@.len(),
                frame_count as nat,
                channel_count as nat,
                T::width(),
            ),
            r matches Some(buffer) ==> buffer.shaped() && buffer.region() == bytes@ && buffer.model()
                == interleaved_grid::<T>(bytes@, frame_count as nat, channel_count as nat),
    {
        if has_interleaved_shape(bytes.len(), frame_count, channel_count, T::size()) {
            Some(Self::new(bytes, frame_count, channel_count))
        } else {
            None
        }
    }

    /// Another view of the same bytes.
    fn reborrow(&self) -> (buffer: Self)
        ensures
            buffer == *self,
    {
        InterleavedBuffer {
            bytes: self.bytes,
            frame_count: self.frame_count,
            channel_count: self.channel_count,
            codec: PhantomData,
        }
    }

    /// The slot of a sample lies within the region and holds the sample.
    proof fn lemma_slot(&self, channel: int, frame: int)
        requires
            self.shaped(),
            self.model().has(channel, frame),
        ensures
            0 <= frame * self.channel_count + channel < self.frame_count * self.channel_count,
            (frame * self.channel_count + channel) * T::width() + T::width() <= self.bytes@.len(),
            self.model().at(channel, frame) == sample_of::<T>(
                self.bytes@,
                frame * self.channel_count + channel,
            ),
    {
        lemma_position(frame, channel, self.frame_count as int, self.channel_count as int);
        lemma_slot_bounds(
            frame * self.channel_count + channel,
            self.frame_count * self.channel_count,
            T::width(),
        );
    }

    /// The index of the slot that holds the sample at `address`.
    pub fn offset(&self, address: SampleAddress) -> (index: SampleIndex)
        requires
            self.shaped(),
            self.model().has(address.channel as int, address.frame as int),
        ensures
            index == self.model().channel_count() * address.frame + address.channel,
            index < self.model().size(),
            self.model().at(address.channel as int, address.frame as int) == sample_of::<T>(
                self.region(),
                index as int,
            ),
    {
        proof {
            self.lemma_slot(address.channel as int, address.frame as int);
            assert(self.channel_count * address.frame == address.frame * self.channel_count)
                by (nonlinear_arith);
            T::lemma_width();
            assert(self.frame_count * self.channel_count <= self.frame_count * self.channel_count
                * T::width()) by (nonlinear_arith)
                requires
                    1 <= T::width(),
            ;
            assert(self.bytes.len() == self.bytes@.len());
        }
        self.channel_count as usize * address.frame as usize + address.channel as usize
    }

    /// The slots that hold frame `frame_index`.
    pub fn frame_range(&self, frame_index: FrameIndex) -> (range: Range<SampleIndex>)
        requires
            self.shaped(),
            frame_index < self.model().frames,
        ensures
            range.start == frame_index * self.model().channel_count(),
            range.end == range.start + self.model().channel_count(),
            range.end <= self.model().size(),
    {
        proof {
            assert(frame_index * self.channel_count + self.channel_count <= self.frame_count
                * self.channel_count) by (nonlinear_arith)
                requires
                    frame_index + 1 <= self.frame_count,
            ;
            T::lemma_width();
            assert(self.frame_count * self.channel_count <= self.frame_count * self.channel_count
                * T::width()) by (nonlinear_arith)
                requires
                    1 <= T::width(),
            ;
            assert(self.bytes.len() == self.bytes@.len());
        }
        let start = frame_index as usize * self.channel_count as usize;
        start..(start + self.channel_count as usize)
    }

    /// The raw sample at `address`.
    pub fn index(&self, address: SampleAddress) -> (raw: T)
        requires
            self.shaped(),
            self.model().has(address.channel as int, address.frame as int),
        ensures
            T::decode(raw.bytes()) == self.model().at(address.channel as int, address.frame as int),
    {
        let index = self.offset(address);
        proof {
            self.lemma_slot(address.channel as int, address.frame as int);
            assert(self.channel_count * address.frame == address.frame * self.channel_count)
                by (nonlinear_arith);
        }
        let width = T::size();
        assert(index * width + width <= self.bytes.len());
        T::load(self.bytes, index * width)
    }

    /// The frame at `index`.
    fn nth_frame(&self, index: FrameIndex) -> (frame: SampleSlice<'buffer, T>)
        requires
            self.shaped(),
            index < self.model().frames,
        ensures
            frame.wf(),
            frame.samples() == self.model().frame(index as int),
    {
        let range = self.frame_range(index);
        let width = T::size();
        proof {
            let first = index * self.channel_count;
            let count = self.channel_count as int;
            lemma_slot_bounds(index as int, self.frame_count as int, self.channel_count as nat);
            assert((first + count) * T::width() <= self.frame_count * self.channel_count
                * T::width()) by (nonlinear_arith)
                requires
                    first + count <= self.frame_count * self.channel_count,
            ;
            assert(first * T::width() <= (first + count) * T::width()) by (nonlinear_arith)
                requires
                    0 <= count,
            ;
            assert((first + count) * T::width() == first * T::width() + count * T::width())
                by (nonlinear_arith);
            assert(self.bytes.len() == self.bytes@.len());
        }
        let bytes = slice_subrange(self.bytes, range.start * width, range.end * width);
        let frame = SampleSlice::new(bytes, self.channel_count as usize);
        proof {
            let first = index * self.channel_count;
            assert forall|c: int| 0 <= c < self.channel_count implies frame.samples()[c]
                == self.model().frame(index as int)[c] by {
                lemma_slot_of_subrange(self.bytes@, first, self.channel_count as int, c, T::width());
            }
            assert(frame.samples() =~= self.model().frame(index as int));
        }
        frame
        }

    /// The channel at `index`.
    fn nth_channel(&self, index: ChannelIndex) -> (channel: InterleavedChannel<'buffer, T>)
        requires
            self.shaped(),
            index < self.model().channel_count(),
        ensures
            channel.wf(),
            channel.samples() == self.model().channel(index as int),
    {
        InterleavedChannel { buffer: self.reborrow(), channel_index: index }
    }
}

impl<'buffer, T: RawSample> SampleBuffer for InterleavedBuffer<'buffer, T> {
    type Item = T::Primitive;

    type Frame = SampleSlice<'buffer, T>;

    type Frames = InterleavedFrames<'buffer, T>;

    type Channel = InterleavedChannel<'buffer, T>;

    type Channels = InterleavedChannels<'buffer, T>;

    type Samples = InterleavedSamples<'buffer, T>;

    type SamplesInterleaved = InterleavedSamplesInterleaved<'buffer, T>;

    type SamplesSeparated = InterleavedSamplesSeparated<'buffer, T>;

    open spec fn wf(&self) -> bool {
        self.shaped()
    }

    open spec fn grid(&self) -> Grid<T::Primitive> {
        self.model()
    }

    proof fn lemma_shape(&self) {
    }

    fn frame_count(&self) -> (n: FrameIndex) {
        self.frame_count
    }

    fn frame(&self, index: FrameIndex) -> (frame: SampleSlice<'buffer, T>) {
        self.nth_frame(index)
    }

    fn frames(&self) -> (frames: InterleavedFrames<'buffer, T>) {
        InterleavedFrames { buffer: self.reborrow(), frame_index: 0 }
    }

    fn channel_count(&self) -> (n: ChannelCount) {
        self.channel_count
    }

    fn channel(&self, index: ChannelIndex) -> (channel: InterleavedChannel<'buffer, T>) {
        self.nth_channel(index)
    }

    fn channels(&self) -> (channels: InterleavedChannels<'buffer, T>) {
        InterleavedChannels { buffer: self.reborrow(), channel_index: 0 }
    }

    fn samples(&self) -> (samples: InterleavedSamples<'buffer, T>)
        ensures
            samples.remaining() == self.grid().addressed_interleaved(),
    {
        InterleavedSamples {
            buffer: self.reborrow(),
            address: SampleAddress { channel: 0, frame: 0 },
        }
    }

    fn samples_interleaved(&self) -> (samples: InterleavedSamplesInterleaved<'buffer, T>) {
        proof {
            T::lemma_width();
            assert(self.frame_count * self.channel_count <= self.frame_count * self.channel_count
                * T::width()) by (nonlinear_arith)
                requires
                    1 <= T::width(),
            ;
            assert(self.bytes.len() == self.bytes@.len());
            lemma_interleaved_order::<T>(
                self.bytes@,
                self.frame_count as nat,
                self.channel_count as nat,
            );
        }
        let count = self.frame_count as usize * self.channel_count as usize;
        InterleavedSamplesInterleaved { samples: SampleSlice::new(self.bytes, count).into_iter() }
    }

    fn samples_separated(&self) -> (samples: InterleavedSamplesSeparated<'buffer, T>) {
        let samples = InterleavedSamplesSeparated {
            buffer: self.reborrow(),
            channel_index: 0,
            frame_index: 0,
        };
        assert(samples.remaining() =~= self.grid().separated()) by {
            assert(samples.channel_index * samples.buffer.frame_count + samples.frame_index == 0);
        }
        samples
    }
}

/// Cursor over all frames of a buffer.
pub struct InterleavedFrames<'buffer, T: RawSample> {
    buffer: InterleavedBuffer<'buffer, T>,
    frame_index: FrameIndex,
}

impl<'buffer, T: RawSample> Runs for InterleavedFrames<'buffer, T> {
    type Run = SampleSlice<'buffer, T>;

    closed spec fn wf(&self) -> bool {
        self.buffer.shaped() && self.frame_index <= self.buffer.frame_count
    }

    closed spec fn remaining(&self) -> Seq<Seq<T::Primitive>> {
        self.buffer.model().all_frames().skip(self.frame_index as int)
    }

    fn next(&mut self) -> (run: Option<SampleSlice<'buffer, T>>) {
        if self.frame_index < self.buffer.frame_count {
            let frame = self.buffer.nth_frame(self.frame_index);
            self.frame_index += 1;
            assert(self.remaining() =~= old(self).remaining().skip(1));
            Some(frame)
        } else {
            None
        }
    }
}

/// Cursor over all channels of a buffer.
pub struct InterleavedChannels<'buffer, T: RawSample> {
    buffer: InterleavedBuffer<'buffer, T>,
    channel_index: ChannelIndex,
}

impl<'buffer, T: RawSample> Runs for InterleavedChannels<'buffer, T> {
    type Run = InterleavedChannel<'buffer, T>;

    closed spec fn wf(&self) -> bool {
        self.buffer.shaped() && self.channel_index <= self.buffer.channel_count
    }

    closed spec fn remaining(&self) -> Seq<Seq<T::Primitive>> {
        self.buffer.model().channels.skip(self.channel_index as int)
    }

    fn next(&mut self) -> (run: Option<InterleavedChannel<'buffer, T>>) {
        if self.channel_index < self.buffer.channel_count {
            let channel = self.buffer.nth_channel(self.channel_index);
            self.channel_index += 1;
            assert(self.remaining() =~= old(self).remaining().skip(1));
            Some(channel)
        } else {
            None
        }
    }
}

/// Provides access to all samples of a single channel.
pub struct InterleavedChannel<'buffer, T: RawSample> {
    buffer: InterleavedBuffer<'buffer, T>,
    channel_index: ChannelIndex,
}

impl<'buffer, T: RawSample> InterleavedChannel<'buffer, T> {
    /// The raw sample of the channel at `frame_index`.
    pub fn index(&self, frame_index: FrameIndex) -> (raw: T)
        requires
            self.wf(),
            frame_index < self.samples().len(),
        ensures
            T::decode(raw.bytes()) == self.samples()[frame_index as int],
    {
        self.buffer.index(SampleAddress { channel: self.channel_index, frame: frame_index })
    }
}

impl<'buffer, T: RawSample> Run for InterleavedChannel<'buffer, T> {
    type Item = T::Primitive;

    type Samples = InterleavedChannelSamples<'buffer, T>;

    closed spec fn wf(&self) -> bool {
        self.buffer.shaped() && self.channel_index < self.buffer.channel_count
    }

    closed spec fn samples(&self) -> Seq<T::Primitive> {
        self.buffer.model().channel(self.channel_index as int)
    }

    fn into_iter(self) -> (cursor: InterleavedChannelSamples<'buffer, T>) {
        InterleavedChannelSamples {
            buffer: self.buffer,
            channel_index: self.channel_index,
            frame_index: 0,
        }
    }
}

/// Cursor over all samples of a single channel.
pub struct InterleavedChannelSamples<'buffer, T: RawSample> {
    buffer: InterleavedBuffer<'buffer, T>,
    channel_index: ChannelIndex,
    frame_index: FrameIndex,
}

impl<'buffer, T: RawSample> Cursor for InterleavedChannelSamples<'buffer, T> {
    type Item = T::Primitive;

    closed spec fn wf(&self) -> bool {
        &&& self.buffer.shaped()
        &&& self.channel_index < self.buffer.channel_count
        &&& self.frame_index <= self.buffer.frame_count
    }

    closed spec fn remaining(&self) -> Seq<T::Primitive> {
        self.buffer.model().channel(self.channel_index as int).skip(self.frame_index as int)
    }

    fn next(&mut self) -> (item: Option<T::Primitive>) {
        if self.frame_index < self.buffer.frame_count {
            let raw = self.buffer.index(
                SampleAddress { channel: self.channel_index, frame: self.frame_index },
            );
            self.frame_index += 1;
            assert(self.remaining() =~= old(self).remaining().skip(1));
            Some(raw.to_primitive())
        } else {
            None
        }
    }
}

/// Cursor over all samples with their addresses, in the order of the layout:
/// frame by frame.
pub struct InterleavedSamples<'buffer, T: RawSample> {
    buffer: InterleavedBuffer<'buffer, T>,
    address: SampleAddress,
}

impl<'buffer, T: RawSample> Cursor for InterleavedSamples<'buffer, T> {
    type Item = (SampleAddress, T::Primitive);

    closed spec fn wf(&self) -> bool {
        &&& self.buffer.shaped()
        &&& self.address.frame <= self.buffer.frame_count
        &&& if self.address.frame < self.buffer.frame_count && self.buffer.channel_count > 0 {
            self.address.channel < self.buffer.channel_count
        } else {
            self.address.channel == 0
        }
    }

    closed spec fn remaining(&self) -> Seq<(SampleAddress, T::Primitive)> {
        self.buffer.model().addressed_interleaved().skip(
            self.address.frame * self.buffer.channel_count + self.address.channel,
        )
    }

    fn next(&mut self) -> (item: Option<(SampleAddress, T::Primitive)>) {
        let frames = self.buffer.frame_count;
        let channels = self.buffer.channel_count;
        if self.address.frame < frames && self.address.channel < channels {
            let address = self.address;
            let raw = self.buffer.index(address);
            proof {
                lemma_position(
                    address.frame as int,
                    address.channel as int,
                    frames as int,
                    channels as int,
                );
            }
            self.address.channel += 1;
            if self.address.channel == channels {
                self.address.channel = 0;
                self.address.frame += 1;
                assert((address.frame + 1) * channels == address.frame * channels + channels)
                    by (nonlinear_arith);
            }
            assert(self.remaining() =~= old(self).remaining().skip(1));
            Some((address, raw.to_primitive()))
        } else {
            proof {
                if self.address.frame == frames {
                } else {
                    assert(frames * channels == 0) by (nonlinear_arith)
                        requires
                            channels == 0,
                    ;
                }
            }
            None
        }
    }
}

/// Cursor over all samples in frame-major order.
pub struct InterleavedSamplesInterleaved<'buffer, T: RawSample> {
    samples: Samples<'buffer, T>,
}

impl<'buffer, T: RawSample> Cursor for InterleavedSamplesInterleaved<'buffer, T> {
    type Item = T::Primitive;

    closed spec fn wf(&self) -> bool {
        self.samples.wf()
    }

    closed spec fn remaining(&self) -> Seq<T::Primitive> {
        self.samples.remaining()
    }

    fn next(&mut self) -> (item: Option<T::Primitive>) {
        self.samples.next()
    }
}

/// Cursor over all samples in channel-major order.
pub struct InterleavedSamplesSeparated<'buffer, T: RawSample> {
    buffer: InterleavedBuffer<'buffer, T>,
    channel_index: ChannelIndex,
    frame_index: FrameIndex,
}

impl<'buffer, T: RawSample> Cursor for InterleavedSamplesSeparated<'buffer, T> {
    type Item = T::Primitive;

    closed spec fn wf(&self) -> bool {
        &&& self.buffer.shaped()
        &&& self.channel_index <= self.buffer.channel_count
        &&& if self.channel_index < self.buffer.channel_count && self.buffer.frame_count > 0 {
            self.frame_index < self.buffer.frame_count
        } else {
            self.frame_index == 0
        }
    }

    closed spec fn remaining(&self) -> Seq<T::Primitive> {
        self.buffer.model().separated().skip(
            self.channel_index * self.buffer.frame_count + self.frame_index,
        )
    }

    fn next(&mut self) -> (item: Option<T::Primitive>) {
        let frames = self.buffer.frame_count;
        let channels = self.buffer.channel_count;
        if self.channel_index < channels && self.frame_index < frames {
            let address = SampleAddress { channel: self.channel_index, frame: self.frame_index };
            let raw = self.buffer.index(address);
            proof {
                lemma_position(
                    address.channel as int,
                    address.frame as int,
                    channels as int,
                    frames as int,
                );
                assert(channels * frames == frames * channels) by (nonlinear_arith);
            }
            self.frame_index += 1;
            if self.frame_index == frames {
                self.frame_index = 0;
                self.channel_index += 1;
                assert((address.channel + 1) * frames == address.channel * frames + frames)
                    by (nonlinear_arith);
            }
            assert(self.remaining() =~= old(self).remaining().skip(1));
            Some(raw.to_primitive())
        } else {
            proof {
                assert(channels * frames == frames * channels) by (nonlinear_arith);
                if self.channel_index == channels {
                } else {
                    assert(frames * channels == 0) by (nonlinear_arith)
                        requires
                            frames == 0,
                    ;
                }
            }
            None
        }
    }
}

/// Replacing the sample in the slot of `(channel, frame)` of an interleaved
/// region, and nothing else, replaces that sample of its grid.
pub proof fn lemma_interleaved_write<T: RawSample>(
    before: Seq<u8>,
    after: Seq<u8>,
    frames: nat,
    channels: nat,
    channel: int,
    frame: int,
    sample: T::Primitive,
)
    requires
        interleaved_shape(before.len(), frames, channels, T::width()),
        after.len() == before.len(),
        0 <= channel < channels,
        0 <= frame < frames,
        sample_of::<T>(after, frame * channels + channel) == sample,
        forall|j: int|
            0 <= j && j != frame * channels + channel && j * T::width() + T::width() <= before.len()
                ==> #[trigger] slot(after, j, T::width()) == slot(before, j, T::width()),
    ensures
        interleaved_grid::<T>(after, frames, channels) == interleaved_grid::<T>(
            before,
            frames,
            channels,
        ).with_sample(channel, frame, sample),
{
    let old_grid = interleaved_grid::<T>(before, frames, channels);
    let new_grid = interleaved_grid::<T>(after, frames, channels);
    let expected = old_grid.with_sample(channel, frame, sample);
    lemma_position(frame, channel, frames as int, channels as int);
    assert forall|c: int, f: int| 0 <= c < channels && 0 <= f < frames implies new_grid.channels[c][f]
        == expected.channels[c][f] by {
        lemma_position(f, c, frames as int, channels as int);
        lemma_slot_bounds(f * channels + c, (frames * channels) as int, T::width());
        if c != channel || f != frame {
            assert(slot(after, f * channels + c, T::width()) == slot(
                before,
                f * channels + c,
                T::width(),
            ));
        }
    }
    assert(new_grid =~~= expected);
}

/// Contains mutable samples in a single buffer grouped by frames.
pub struct InterleavedBufferMut<'buffer, T: RawSample> {
    bytes: &'buffer mut [u8],
    frame_count: FrameIndex,
    channel_count: ChannelCount,
    codec: PhantomData<T>,
}

impl<'buffer, T: RawSample> InterleavedBufferMut<'buffer, T> {
    /// The bytes that the buffer borrows, as they are now.
    pub open spec fn region(&self) -> Seq<u8> {
        self.borrowed()@
    }

    /// The borrow that the buffer writes through. What the lender finds when
    /// the buffer is gone is the final value of this borrow.
    pub closed spec fn borrowed(&self) -> &'buffer mut [u8] {
        self.bytes
    }

    /// The invariant of the view: the bytes are exactly the declared number
    /// of frames and channels.
    pub closed spec fn shaped(&self) -> bool {
        interleaved_shape(
            self.bytes@.len(),
            self.frame_count as nat,
            self.channel_count as nat,
            T::width(),
        )
    }

    /// The samples of the buffer.
    pub closed spec fn model(&self) -> Grid<T::Primitive> {
        interleaved_grid::<T>(self.bytes@, self.frame_count as nat, self.channel_count as nat)
    }

    /// A writable view of `bytes` as `frame_count` frames of `channel_count`
    /// samples.
    pub fn new(bytes: &'buffer mut [u8], frame_count: FrameCount, channel_count: ChannelCount) -> (buffer:
        Self)
        requires
            interleaved_shape(
                old(bytes)@.len(),
                frame_count as nat,
                channel_count as nat,
                T::width(),
            ),
        ensures
            buffer.wf(),
            buffer.region() == old(bytes)@,
            buffer.grid() == interleaved_grid::<T>(
                old(bytes)@,
                frame_count as nat,
                channel_count as nat,
            ),
            final(buffer.borrowed())@ == final(bytes)@,
    {
        InterleavedBufferMut { bytes, frame_count, channel_count, codec: PhantomData }
    }

    /// A writable view of `bytes` as `frame_count` frames of `channel_count`
    /// samples, or `None` if `bytes` does not have exactly that many samples.
    pub fn try_new(
        bytes: &'buffer mut [u8],
        frame_count: FrameCount,
        channel_count: ChannelCount,
    ) -> (r: Option<Self>)
        ensures
            r is Some <==> interleaved_shape(
                old(bytes)@.len(),
                frame_count as nat,
                channel_count as nat,
                T::width(),
            ),
            r matches Some(buffer) ==> buffer.wf() && buffer.region() == old(bytes)@ && buffer.grid()
                == interleaved_grid::<T>(old(bytes)@, frame_count as nat, channel_count as nat)
                && final(buffer.borrowed())@ == final(bytes)@,
            r is None ==> final(bytes)@ == old(bytes)@,
    {
        if has_interleaved_shape(bytes.len(), frame_count, channel_count, T::size()) {
            Some(Self::new(bytes, frame_count, channel_count))
        } else {
            None
        }
    }

    /// The samples of the buffer are those that its bytes hold as frames of
    /// channels.
    pub proof fn lemma_region(&self)
        requires
            self.wf(),
        ensures
            interleaved_shape(
                self.region().len(),
                self.grid().frames,
                self.grid().channel_count(),
                T::width(),
            ),
            self.grid() == interleaved_grid::<T>(
                self.region(),
                self.grid().frames,
                self.grid().channel_count(),
            ),
    {
    }

    /// Ends the view. The lender's bytes are the bytes of the buffer as they
    /// are now.
    pub fn finish(self)
        ensures
            final(self.borrowed())@ == self.region(),
    {
    }

    /// A read-only view of the samples as they are now.
    pub fn as_buffer(&self) -> (buffer: InterleavedBuffer<'_, T>)
        requires
            self.wf(),
        ensures
            buffer.wf(),
            buffer.region() == self.region(),
            buffer.grid() == self.grid(),
    {
        InterleavedBuffer::new(&*self.bytes, self.frame_count, self.channel_count)
    }

    /// The index of the slot that holds the sample at `address`.
    pub fn offset(&self, address: SampleAddress) -> (index: SampleIndex)
        requires
            self.wf(),
            self.grid().has(address.channel as int, address.frame as int),
        ensures
            index == self.grid().channel_count() * address.frame + address.channel,
            index < self.grid().size(),
            index * T::width() + T::width() <= self.region().len(),
    {
        proof {
            lemma_position(
                address.frame as int,
                address.channel as int,
                self.frame_count as int,
                self.channel_count as int,
            );
            lemma_slot_bounds(
                address.frame * self.channel_count + address.channel,
                self.frame_count * self.channel_count,
                T::width(),
            );
            assert(self.channel_count * address.frame == address.frame * self.channel_count)
                by (nonlinear_arith);
            T::lemma_width();
            assert(self.frame_count * self.channel_count <= self.frame_count * self.channel_count
                * T::width()) by (nonlinear_arith)
                requires
                    1 <= T::width(),
            ;
            assert(self.bytes.len() == self.bytes@.len());
        }
        self.channel_count as usize * address.frame as usize + address.channel as usize
    }

    /// The sample at `address`, as it is now.
    pub fn sample(&self, address: SampleAddress) -> (sample: T::Primitive)
        requires
            self.wf(),
            self.grid().has(address.channel as int, address.frame as int),
        ensures
            sample == self.grid().at(address.channel as int, address.frame as int),
    {
        let index = self.offset(address);
        proof {
            assert(self.channel_count * address.frame == address.frame * self.channel_count)
                by (nonlinear_arith);
        }
        crate::buffers::read_sample::<T>(&*self.bytes, index)
    }

    /// The slots that hold frame `frame_index`.
    pub fn frame_range(&self, frame_index: FrameIndex) -> (range: Range<SampleIndex>)
        requires
            self.wf(),
            frame_index < self.grid().frames,
        ensures
            range.start == frame_index * self.grid().channel_count(),
            range.end == range.start + self.grid().channel_count(),
            range.end <= self.grid().size(),
    {
        proof {
            assert(frame_index * self.channel_count + self.channel_count <= self.frame_count
                * self.channel_count) by (nonlinear_arith)
                requires
                    frame_index + 1 <= self.frame_count,
            ;
            T::lemma_width();
            assert(self.frame_count * self.channel_count <= self.frame_count * self.channel_count
                * T::width()) by (nonlinear_arith)
                requires
                    1 <= T::width(),
            ;
            assert(self.bytes.len() == self.bytes@.len());
        }
        let start = frame_index as usize * self.channel_count as usize;
        start..(start + self.channel_count as usize)
    }
}

impl<'buffer, T: RawSample> SampleBufferMut for InterleavedBufferMut<'buffer, T> {
    type Item = T::Primitive;

    open spec fn wf(&self) -> bool {
        self.shaped()
    }

    open spec fn grid(&self) -> Grid<T::Primitive> {
        self.model()
    }

    proof fn lemma_shape(&self) {
    }

    fn frame_count(&self) -> (n: FrameIndex) {
        self.frame_count
    }

    fn write_frame(&mut self, index: FrameIndex, frame: &[T::Primitive])
        ensures
            final(final(self).borrowed())@ == final(old(self).borrowed())@,
    {
        let ghost before = self.grid();
        let channels = self.channel_count;
        let mut channel: ChannelIndex = 0;
        assert(self.grid() =~~= before.with_frame(index as int, frame@.take(0)));
        while channel < channels && (channel as usize) < frame.len()
            invariant
                self.wf(),
                final(self.borrowed())@ == final(old(self).borrowed())@,
                channel <= channels,
                channel <= frame@.len(),
                channels == self.grid().channel_count(),
                index < self.grid().frames,
                before.frames == self.grid().frames,
                before.channels.len() == channels,
                before.wf(),
                self.grid() == before.with_frame(index as int, frame@.take(channel as int)),
            decreases channels - channel,
        {
            let ghost current = self.grid();
            self.write_sample(SampleAddress { channel, frame: index }, frame[channel as usize]);
            channel += 1;
            assert(current.with_sample(channel - 1, index as int, frame@[channel - 1]) =~~= before.with_frame(
                index as int,
                frame@.take(channel as int),
            ));
        }
        assert(before.with_frame(index as int, frame@.take(channel as int)) =~~= before.with_frame(
            index as int,
            frame@,
        ));
    }

    fn write_frames(&mut self, frames: &[Vec<T::Primitive>])
        ensures
            final(final(self).borrowed())@ == final(old(self).borrowed())@,
    {
        let ghost before = self.grid();
        let count = self.frame_count;
        let mut index: FrameIndex = 0;
        assert(self.grid() =~~= before.with_frames(rows(frames@).take(0)));
        while index < count && (index as usize) < frames.len()
            invariant
                self.wf(),
                final(self.borrowed())@ == final(old(self).borrowed())@,
                index <= count,
                index <= frames@.len(),
                count == self.grid().frames,
                before.frames == count,
                before.channels.len() == self.grid().channel_count(),
                before.wf(),
                self.grid() == before.with_frames(rows(frames@).take(index as int)),
            decreases count - index,
        {
            let ghost current = self.grid();
            self.write_frame(index, frames[index as usize].as_slice());
            index += 1;
            assert(current.with_frame(index - 1, rows(frames@)[index - 1]) =~~= before.with_frames(
                rows(frames@).take(index as int),
            ));
        }
        assert(before.with_frames(rows(frames@).take(index as int)) =~~= before.with_frames(
            rows(frames@),
        ));
    }

    fn channel_count(&self) -> (n: ChannelCount) {
        self.channel_count
    }

    fn write_channel(&mut self, index: ChannelIndex, channel: &[T::Primitive])
        ensures
            final(final(self).borrowed())@ == final(old(self).borrowed())@,
    {
        let ghost before = self.grid();
        let count = self.frame_count;
        let mut frame: FrameIndex = 0;
        assert(self.grid() =~~= before.with_channel(index as int, channel@.take(0)));
        while frame < count && (frame as usize) < channel.len()
            invariant
                self.wf(),
                final(self.borrowed())@ == final(old(self).borrowed())@,
                frame <= count,
                frame <= channel@.len(),
                count == self.grid().frames,
                index < self.grid().channel_count(),
                before.frames == count,
                before.channels.len() == self.grid().channel_count(),
                before.wf(),
                self.grid() == before.with_channel(index as int, channel@.take(frame as int)),
            decreases count - frame,
        {
            let ghost current = self.grid();
            self.write_sample(SampleAddress { channel: index, frame }, channel[frame as usize]);
            frame += 1;
            assert(current.with_sample(index as int, frame - 1, channel@[frame - 1]) =~~= before.with_channel(
                index as int,
                channel@.take(frame as int),
            ));
        }
        assert(before.with_channel(index as int, channel@.take(frame as int)) =~~= before.with_channel(
            index as int,
            channel@,
        ));
    }

    fn write_channels(&mut self, channels: &[Vec<T::Primitive>])
        ensures
            final(final(self).borrowed())@ == final(old(self).borrowed())@,
    {
        let ghost before = self.grid();
        let count = self.channel_count;
        let mut index: ChannelIndex = 0;
        assert(self.grid() =~~= before.with_channels(rows(channels@).take(0)));
        while index < count && (index as usize) < channels.len()
            invariant
                self.wf(),
                final(self.borrowed())@ == final(old(self).borrowed())@,
                index <= count,
                index <= channels@.len(),
                count == self.grid().channel_count(),
                before.frames == self.grid().frames,
                before.channels.len() == count,
                before.wf(),
                self.grid() == before.with_channels(rows(channels@).take(index as int)),
            decreases count - index,
        {
            let ghost current = self.grid();
            self.write_channel(index, channels[index as usize].as_slice());
            index += 1;
            assert(current.with_channel(index - 1, rows(channels@)[index - 1]) =~~= before.with_channels(
                rows(channels@).take(index as int),
            ));
        }
        assert(before.with_channels(rows(channels@).take(index as int)) =~~= before.with_channels(
            rows(channels@),
        ));
    }

    fn write_sample(&mut self, address: SampleAddress, sample: T::Primitive)
        ensures
            final(final(self).borrowed())@ == final(old(self).borrowed())@,
    {
        let index = self.offset(address);
        let ghost before = self.bytes@;
        crate::buffers::write_sample::<T>(self.bytes, index, sample);
        proof {
            assert(self.channel_count * address.frame == address.frame * self.channel_count)
                by (nonlinear_arith);
            lemma_interleaved_write::<T>(
                before,
                self.bytes@,
                self.frame_count as nat,
                self.channel_count as nat,
                address.channel as int,
                address.frame as int,
                sample,
            );
        }
    }

    fn write_samples_interleaved(&mut self, samples: &[T::Primitive])
        ensures
            final(final(self).borrowed())@ == final(old(self).borrowed())@,
    {
        let ghost before = self.grid();
        let frames = self.frame_count;
        let channels = self.channel_count;
        let mut address = SampleAddress { channel: 0, frame: 0 };
        let mut position: usize = 0;
        assert(address.frame * channels + address.channel == 0);
        assert(self.grid() =~~= before.with_interleaved(samples@.take(0)));
        while address.frame < frames && address.channel < channels && position < samples.len()
            invariant
                self.wf(),
                final(self.borrowed())@ == final(old(self).borrowed())@,
                frames == self.grid().frames,
                channels == self.grid().channel_count(),
                before.frames == frames,
                before.channels.len() == channels,
                before.wf(),
                position <= samples@.len(),
                position == address.frame * channels + address.channel,
                address.frame <= frames,
                address.frame < frames ==> address.channel < channels || channels == 0,
                address.frame == frames ==> address.channel == 0,
                self.grid() == before.with_interleaved(samples@.take(position as int)),
            decreases samples@.len() - position,
        {
            proof {
                lemma_position(
                    address.frame as int,
                    address.channel as int,
                    frames as int,
                    channels as int,
                );
                lemma_with_interleaved_step(before, samples@, position as int);
                assert((address.frame + 1) * channels == address.frame * channels + channels)
                    by (nonlinear_arith);
            }
            self.write_sample(address, samples[position]);
            address.channel += 1;
            if address.channel == channels {
                address.channel = 0;
                address.frame += 1;
            }
            position += 1;
        }
        proof {
            if position < samples@.len() {
                if address.frame == frames {
                } else {
                    assert(frames * channels == 0) by (nonlinear_arith)
                        requires
                            channels == 0,
                    ;
                }
            }
            lemma_with_interleaved_prefix(before, samples@, position as int);
        }
    }

    fn write_samples_separated(&mut self, samples: &[T::Primitive])
        ensures
            final(final(self).borrowed())@ == final(old(self).borrowed())@,
    {
        if self.frame_count > 0 {
            let channels = chunks_of(samples, self.frame_count as usize);
            proof {
                lemma_chunked_channels(self.grid(), samples@);
            }
            self.write_channels(channels.as_slice());
        } else {
            assert(self.grid() =~~= self.grid().with_separated(samples@));
        }
    }
}

} // verus!
