//! Buffers that hold each channel in a region of its own.
use crate::buffers::chunks::chunks_of;
use crate::buffers::grid::{lemma_chunked_channels, lemma_chunked_frames, lemma_position, Grid};
use crate::buffers::{
    lemma_slot_bounds, rows, sample_of, samples_of, slot, ChannelIndex, Cursor, FrameIndex, Run,
    Runs, SampleAddress, SampleBuffer, SampleBufferMut, SampleSlice,
};
use crate::types::RawSample;
use crate::{ChannelCount, FrameCount};
use core::marker::PhantomData;
use vstd::prelude::*;

verus! {

/// The grid that the regions of the channels hold: the sample of channel `c`
/// at frame `f` is in slot `f` of region `c`.
pub open spec fn separated_grid<T: RawSample>(regions: Seq<Seq<u8>>, frames: nat) -> Grid<
    T::Primitive,
> {
    Grid { frames, channels: Seq::new(regions.len(), |c: int| samples_of::<T>(regions[c], frames)) }
}

/// Whether there are no more regions than a channel index can count, and
/// every one of them is exactly `frames` samples of `width` bytes.
pub open spec fn separated_shape(regions: Seq<Seq<u8>>, frames: nat, width: nat) -> bool {
    &&& regions.len() <= ChannelCount::MAX
    &&& forall|c: int| 0 <= c < regions.len() ==> (#[trigger] regions[c]).len() == frames * width
}

/// The bytes of each of the borrowed regions.
pub open spec fn regions_of(channels: Seq<&[u8]>) -> Seq<Seq<u8>> {
    Seq::new(channels.len(), |c: int| channels[c]@)
}

/// The bytes of each of the mutably borrowed regions, as they are now.
pub open spec fn regions_of_mut(channels: Seq<&mut [u8]>) -> Seq<Seq<u8>> {
    Seq::new(channels.len(), |c: int| channels[c]@)
}

/// Number of bytes of `frame_count` samples of `width` bytes.
fn channel_bytes(frame_count: FrameCount, width: usize) -> (n: u64)
    requires
        1 <= width <= 8,
    ensures
        n == frame_count * width,
{
    assert(frame_count * width <= 0xffff_ffff * 8) by (nonlinear_arith)
        requires
            frame_count <= 0xffff_ffff,
            width <= 8,
    ;
    frame_count as u64 * width as u64
}

/// Replacing the sample in slot `frame` of the region of `channel`, and
/// nothing else, replaces that sample of the grid.
pub proof fn lemma_separated_write<T: RawSample>(
    before: Seq<Seq<u8>>,
    after: Seq<Seq<u8>>,
    frames: nat,
    channel: int,
    frame: int,
    sample: T::Primitive,
)
    requires
        separated_shape(before, frames, T::width()),
        after.len() == before.len(),
        0 <= channel < before.len(),
        0 <= frame < frames,
        after[channel].len() == before[channel].len(),
        forall|c: int| 0 <= c < before.len() && c != channel ==> after[c] == before[c],
        sample_of::<T>(after[channel], frame) == sample,
        forall|j: int|
            0 <= j && j != frame && j * T::width() + T::width() <= before[channel].len()
                ==> #[trigger] slot(after[channel], j, T::width()) == slot(
                before[channel],
                j,
                T::width(),
            ),
    ensures
        separated_shape(after, frames, T::width()),
        separated_grid::<T>(after, frames) == separated_grid::<T>(before, frames).with_sample(
            channel,
            frame,
            sample,
        ),
{
    let new_grid = separated_grid::<T>(after, frames);
    let expected = separated_grid::<T>(before, frames).with_sample(channel, frame, sample);
    assert forall|c: int| 0 <= c < after.len() implies (#[trigger] after[c]).len() == frames
        * T::width() by {
        assert(before[c].len() == frames * T::width());
    }
    assert forall|c: int| 0 <= c < before.len() implies #[trigger] new_grid.channels[c]
        =~= expected.channels[c] by {
        assert forall|f: int| 0 <= f < frames implies new_grid.channels[c][f]
            == expected.channels[c][f] by {
            assert(before[c].len() == frames * T::width());
            lemma_slot_bounds(f, frames as int, T::width());
            if c == channel && f != frame {
                assert(slot(after[channel], f, T::width()) == slot(before[channel], f, T::width()));
            }
        }
    }
    assert(new_grid =~~= expected);
}

/// Contains samples where every channel has a separate internal buffer.
pub struct SeparatedBuffer<'buffer, T: RawSample> {
    channels: &'buffer [&'buffer [u8]],
    frame_count: FrameIndex,
    codec: PhantomData<T>,
}

impl<'buffer, T: RawSample> SeparatedBuffer<'buffer, T> {
    /// The bytes of each region that the buffer borrows.
    pub closed spec fn regions(&self) -> Seq<Seq<u8>> {
        regions_of(self.channels@)
    }

    /// The invariant of the view: the number of regions fits a channel
    /// index, and every region is exactly the declared number of frames.
    pub closed spec fn shaped(&self) -> bool {
        separated_shape(regions_of(self.channels@), self.frame_count as nat, T::width())
    }

    /// The samples of the buffer.
    pub closed spec fn model(&self) -> Grid<T::Primitive> {
        separated_grid::<T>(regions_of(self.channels@), self.frame_count as nat)
    }

    /// A view of `channels` as one channel of `frame_count` samples each.
    pub fn new(channels: &'buffer [&'buffer [u8]], frame_count: FrameCount) -> (buffer: Self)
        requires
            separated_shape(regions_of(channels@), frame_count as nat, T::width()),
        ensures
            buffer.wf(),
            buffer.regions() == regions_of(channels@),
            buffer.grid() == separated_grid::<T>(regions_of(channels@), frame_count as nat),
    {
        SeparatedBuffer { channels, frame_count, codec: PhantomData }
    }

    /// A view of `channels` as one channel of `frame_count` samples each, or
    /// `None` if there are more channels than a channel index can count or
    /// one of them does not have exactly that many samples.
    pub fn try_new(channels: &'buffer [&'buffer [u8]], frame_count: FrameCount) -> (r: Option<Self>)
        ensures
            r is Some <==> separated_shape(regions_of(channels@), frame_count as nat, T::width()),
            r matches Some(buffer) ==> buffer.wf() && buffer.regions() == regions_of(channels@)
                && buffer.grid() == separated_grid::<T>(regions_of(channels@), frame_count as nat),
    {
        if channels.len() > ChannelCount::MAX as usize {
            return None;
        }
        let expected = channel_bytes(frame_count, T::size());
        let mut index: usize = 0;
        while index < channels.len()
            invariant
                index <= channels@.len(),
                expected == frame_count * T::width(),
                forall|c: int|
                    0 <= c < index ==> (#[trigger] regions_of(channels@)[c]).len() == frame_count
                        * T::width(),
            decreases channels@.len() - index,
        {
            if channels[index].len() as u64 != expected {
                assert(regions_of(channels@)[index as int].len() != frame_count * T::width());
                return None;
            }
            index += 1;
        }
        Some(Self::new(channels, frame_count))
    }

    /// Another view of the same bytes.
    fn reborrow(&self) -> (buffer: Self)
        ensures
            buffer == *self,
    {
        SeparatedBuffer { channels: self.channels, frame_count: self.frame_count, codec: PhantomData }
    }

    /// Number of channels.
    fn channel_total(&self) -> (n: ChannelCount)
        requires
            self.shaped(),
        ensures
            n == self.model().channel_count(),
    {
        self.channels.len() as ChannelCount
    }

    /// The raw sample at `address`.
    pub fn index(&self, address: SampleAddress) -> (raw: T)
        requires
            self.shaped(),
            self.model().has(address.channel as int, address.frame as int),
        ensures
            T::decode(raw.bytes()) == self.model().at(address.channel as int, address.frame as int),
    {
        let region = self.channels[address.channel as usize];
        proof {
            assert(regions_of(self.channels@)[address.channel as int].len() == self.frame_count
                * T::width());
            lemma_slot_bounds(address.frame as int, self.frame_count as int, T::width());
        }
        let width = T::size();
        assert(address.frame * width + width <= region.len());
        T::load(region, address.frame as usize * width)
    }

    /// The frame at `index`.
    fn nth_frame(&self, index: FrameIndex) -> (frame: SeparatedFrame<'buffer, T>)
        requires
            self.shaped(),
            index < self.model().frames,
        ensures
            frame.wf(),
            frame.samples() == self.model().frame(index as int),
    {
        SeparatedFrame { buffer: self.reborrow(), frame_index: index }
    }

    /// The channel at `index`.
    fn nth_channel(&self, index: ChannelIndex) -> (channel: SampleSlice<'buffer, T>)
        requires
            self.shaped(),
            index < self.model().channel_count(),
        ensures
            channel.wf(),
            channel.samples() == self.model().channel(index as int),
    {
        let region = self.channels[index as usize];
        assert(regions_of(self.channels@)[index as int].len() == self.frame_count * T::width());
        SampleSlice::new(region, self.frame_count as usize)
    }
}

impl<'buffer, T: RawSample> SampleBuffer for SeparatedBuffer<'buffer, T> {
    type Item = T::Primitive;

    type Frame = SeparatedFrame<'buffer, T>;

    type Frames = SeparatedFrames<'buffer, T>;

    type Channel = SampleSlice<'buffer, T>;

    type Channels = SeparatedChannels<'buffer, T>;

    type Samples = SeparatedSamples<'buffer, T>;

    type SamplesInterleaved = SeparatedSamplesInterleaved<'buffer, T>;

    type SamplesSeparated = SeparatedSamplesSeparated<'buffer, T>;

    open spec fn wf(&self) -> bool {
        self.shaped()
    }

    open spec fn grid(&self) -> Grid<T::Primitive> {
        self.model()
    }

    proof fn lemma_shape(&self) {
    }

    fn frame_count(&self) -> (n: FrameIndex) {
        self.frame_count
    }

    fn frame(&self, index: FrameIndex) -> (frame: SeparatedFrame<'buffer, T>) {
        self.nth_frame(index)
    }

    fn frames(&self) -> (frames: SeparatedFrames<'buffer, T>) {
        SeparatedFrames { buffer: self.reborrow(), frame_index: 0 }
    }

    fn channel_count(&self) -> (n: ChannelCount) {
        self.channel_total()
    }

    fn channel(&self, index: ChannelIndex) -> (channel: SampleSlice<'buffer, T>) {
        self.nth_channel(index)
    }

    fn channels(&self) -> (channels: SeparatedChannels<'buffer, T>) {
        SeparatedChannels { buffer: self.reborrow(), channel_index: 0 }
    }

    fn samples(&self) -> (samples: SeparatedSamples<'buffer, T>)
        ensures
            samples.remaining() == self.grid().addressed_separated(),
    {
        let samples = SeparatedSamples {
            buffer: self.reborrow(),
            address: SampleAddress { channel: 0, frame: 0 },
        };
        assert(samples.remaining() =~= self.grid().addressed_separated()) by {
            assert(samples.address.channel * samples.buffer.frame_count + samples.address.frame == 0);
        }
        samples
    }

    fn samples_interleaved(&self) -> (samples: SeparatedSamplesInterleaved<'buffer, T>) {
        let samples = SeparatedSamplesInterleaved {
            buffer: self.reborrow(),
            frame_count: self.frame_count,
            frame_index: 0,
            channel_index: 0,
        };
        assert(samples.remaining() =~= self.grid().interleaved()) by {
            assert(samples.frame_index * samples.buffer.channels@.len() + samples.channel_index == 0);
        }
        samples
    }

    fn samples_separated(&self) -> (samples: SeparatedSamplesSeparated<'buffer, T>) {
        let samples = SeparatedSamplesSeparated {
            buffer: self.reborrow(),
            channel_index: 0,
            frame_index: 0,
        };
        assert(samples.remaining() =~= self.grid().separated()) by {
            assert(samples.channel_index * samples.buffer.frame_count + samples.frame_index == 0);
        }
        samples
    }
}

/// Cursor over all frames of a buffer.
pub struct SeparatedFrames<'buffer, T: RawSample> {
    buffer: SeparatedBuffer<'buffer, T>,
    frame_index: FrameIndex,
}

impl<'buffer, T: RawSample> Runs for SeparatedFrames<'buffer, T> {
    type Run = SeparatedFrame<'buffer, T>;

    closed spec fn wf(&self) -> bool {
        self.buffer.shaped() && self.frame_index <= self.buffer.frame_count
    }

    closed spec fn remaining(&self) -> Seq<Seq<T::Primitive>> {
        self.buffer.model().all_frames().skip(self.frame_index as int)
    }

    fn next(&mut self) -> (run: Option<SeparatedFrame<'buffer, T>>) {
        if self.frame_index < self.buffer.frame_count {
            let frame = self.buffer.nth_frame(self.frame_index);
            self.frame_index += 1;
            assert(self.remaining() =~= old(self).remaining().skip(1));
            Some(frame)
        } else {
            None
        }
    }
}

/// Cursor over all channels of a buffer.
pub struct SeparatedChannels<'buffer, T: RawSample> {
    buffer: SeparatedBuffer<'buffer, T>,
    channel_index: ChannelIndex,
}

impl<'buffer, T: RawSample> Runs for SeparatedChannels<'buffer, T> {
    type Run = SampleSlice<'buffer, T>;

    closed spec fn wf(&self) -> bool {
        self.buffer.shaped() && self.channel_index <= self.buffer.channels@.len()
    }

    closed spec fn remaining(&self) -> Seq<Seq<T::Primitive>> {
        self.buffer.model().channels.skip(self.channel_index as int)
    }

    fn next(&mut self) -> (run: Option<SampleSlice<'buffer, T>>) {
        if self.channel_index < self.buffer.channel_total() {
            let channel = self.buffer.nth_channel(self.channel_index);
            self.channel_index += 1;
            assert(self.remaining() =~= old(self).remaining().skip(1));
            Some(channel)
        } else {
            None
        }
    }
}

/// Provides access to all samples of a single frame.
pub struct SeparatedFrame<'buffer, T: RawSample> {
    buffer: SeparatedBuffer<'buffer, T>,
    frame_index: FrameIndex,
}

impl<'buffer, T: RawSample> SeparatedFrame<'buffer, T> {
    /// The raw sample of the frame at `channel_index`.
    pub fn index(&self, channel_index: ChannelIndex) -> (raw: T)
        requires
            self.wf(),
            channel_index < self.samples().len(),
        ensures
            T::decode(raw.bytes()) == self.samples()[channel_index as int],
    {
        self.buffer.index(SampleAddress { channel: channel_index, frame: self.frame_index })
    }
}

impl<'buffer, T: RawSample> Run for SeparatedFrame<'buffer, T> {
    type Item = T::Primitive;

    type Samples = SeparatedFrameSamples<'buffer, T>;

    closed spec fn wf(&self) -> bool {
        self.buffer.shaped() && self.frame_index < self.buffer.frame_count
    }

    closed spec fn samples(&self) -> Seq<T::Primitive> {
        self.buffer.model().frame(self.frame_index as int)
    }

    fn into_iter(self) -> (cursor: SeparatedFrameSamples<'buffer, T>) {
        SeparatedFrameSamples { buffer: self.buffer, index: self.frame_index, channel_index: 0 }
    }
}

/// Cursor over all samples of a single frame.
pub struct SeparatedFrameSamples<'buffer, T: RawSample> {
    buffer: SeparatedBuffer<'buffer, T>,
    index: FrameIndex,
    channel_index: ChannelIndex,
}

impl<'buffer, T: RawSample> Cursor for SeparatedFrameSamples<'buffer, T> {
    type Item = T::Primitive;

    closed spec fn wf(&self) -> bool {
        &&& self.buffer.shaped()
        &&& self.index < self.buffer.frame_count
        &&& self.channel_index <= self.buffer.channels@.len()
    }

    closed spec fn remaining(&self) -> Seq<T::Primitive> {
        self.buffer.model().frame(self.index as int).skip(self.channel_index as int)
    }

    fn next(&mut self) -> (item: Option<T::Primitive>) {
        if self.channel_index < self.buffer.channel_total() {
            let raw = self.buffer.index(
                SampleAddress { channel: self.channel_index, frame: self.index },
            );
            self.channel_index += 1;
            assert(self.remaining() =~= old(self).remaining().skip(1));
            Some(raw.to_primitive())
        } else {
            None
        }
    }
}

/// Cursor over all samples with their addresses, in the order of the layout:
/// channel by channel.
pub struct SeparatedSamples<'buffer, T: RawSample> {
    buffer: SeparatedBuffer<'buffer, T>,
    address: SampleAddress,
}

impl<'buffer, T: RawSample> Cursor for SeparatedSamples<'buffer, T> {
    type Item = (SampleAddress, T::Primitive);

    closed spec fn wf(&self) -> bool {
        &&& self.buffer.shaped()
        &&& self.address.channel <= self.buffer.channels@.len()
        &&& if self.address.channel < self.buffer.channels@.len() && self.buffer.frame_count > 0 {
            self.address.frame < self.buffer.frame_count
        } else {
            self.address.frame == 0
        }
    }

    closed spec fn remaining(&self) -> Seq<(SampleAddress, T::Primitive)> {
        self.buffer.model().addressed_separated().skip(
            self.address.channel * self.buffer.frame_count + self.address.frame,
        )
    }

    fn next(&mut self) -> (item: Option<(SampleAddress, T::Primitive)>) {
        let frames = self.buffer.frame_count;
        let channels = self.buffer.channel_total();
        if self.address.channel < channels && self.address.frame < frames {
            let address = self.address;
            let raw = self.buffer.index(address);
            proof {
                lemma_position(
                    address.channel as int,
                    address.frame as int,
                    channels as int,
                    frames as int,
                );
                assert(channels * frames == frames * channels) by (nonlinear_arith);
            }
            self.address.frame += 1;
            if self.address.frame == frames {
                // next channel, restart with the first frame
                self.address.frame = 0;
                self.address.channel += 1;
                assert((address.channel + 1) * frames == address.channel * frames + frames)
                    by (nonlinear_arith);
            }
            assert(self.remaining() =~= old(self).remaining().skip(1));
            Some((address, raw.to_primitive()))
        } else {
            proof {
                assert(channels * frames == frames * channels) by (nonlinear_arith);
                if self.address.channel == channels {
                } else {
                    assert(frames * channels == 0) by (nonlinear_arith)
                        requires
                            frames == 0,
                    ;
                }
            }
            None
        }
    }
}

/// Cursor over all samples in frame-major order.
pub struct SeparatedSamplesInterleaved<'buffer, T: RawSample> {
    buffer: SeparatedBuffer<'buffer, T>,
    frame_count: FrameIndex,
    frame_index: FrameIndex,
    channel_index: ChannelIndex,
}

impl<'buffer, T: RawSample> Cursor for SeparatedSamplesInterleaved<'buffer, T> {
    type Item = T::Primitive;

    closed spec fn wf(&self) -> bool {
        &&& self.buffer.shaped()
        &&& self.frame_count == self.buffer.frame_count
        &&& self.frame_index <= self.frame_count
        &&& if self.frame_index < self.frame_count && self.buffer.channels@.len() > 0 {
            self.channel_index < self.buffer.channels@.len()
        } else {
            self.channel_index == 0
        }
    }

    closed spec fn remaining(&self) -> Seq<T::Primitive> {
        self.buffer.model().interleaved().skip(
            self.frame_index * self.buffer.channels@.len() + self.channel_index,
        )
    }

    fn next(&mut self) -> (item: Option<T::Primitive>) {
        let frames = self.frame_count;
        let channels = self.buffer.channel_total();
        if self.frame_index < frames && self.channel_index < channels {
            let address = SampleAddress { channel: self.channel_index, frame: self.frame_index };
            let raw = self.buffer.index(address);
            proof {
                lemma_position(
                    address.frame as int,
                    address.channel as int,
                    frames as int,
                    channels as int,
                );
            }
            self.channel_index += 1;
            if self.channel_index == channels {
                self.channel_index = 0;
                self.frame_index += 1;
                assert((address.frame + 1) * channels == address.frame * channels + channels)
                    by (nonlinear_arith);
            }
            assert(self.remaining() =~= old(self).remaining().skip(1));
            Some(raw.to_primitive())
        } else {
            proof {
                if self.frame_index == frames {
                } else {
                    assert(frames * channels == 0) by (nonlinear_arith)
                        requires
                            channels == 0,
                    ;
                }
            }
            None
        }
    }
}

/// Cursor over all samples in channel-major order.
pub struct SeparatedSamplesSeparated<'buffer, T: RawSample> {
    buffer: SeparatedBuffer<'buffer, T>,
    channel_index: ChannelIndex,
    frame_index: FrameIndex,
}

impl<'buffer, T: RawSample> Cursor for SeparatedSamplesSeparated<'buffer, T> {
    type Item = T::Primitive;

    closed spec fn wf(&self) -> bool {
        &&& self.buffer.shaped()
        &&& self.channel_index <= self.buffer.channels@.len()
        &&& if self.channel_index < self.buffer.channels@.len() && self.buffer.frame_count > 0 {
            self.frame_index < self.buffer.frame_count
        } else {
            self.frame_index == 0
        }
    }

    closed spec fn remaining(&self) -> Seq<T::Primitive> {
        self.buffer.model().separated().skip(
            self.channel_index * self.buffer.frame_count + self.frame_index,
        )
    }

    fn next(&mut self) -> (item: Option<T::Primitive>) {
        let frames = self.buffer.frame_count;
        let channels = self.buffer.channel_total();
        if self.channel_index < channels && self.frame_index < frames {
            let address = SampleAddress { channel: self.channel_index, frame: self.frame_index };
            let raw = self.buffer.index(address);
            proof {
                lemma_position(
                    address.channel as int,
                    address.frame as int,
                    channels as int,
                    frames as int,
                );
                assert(channels * frames == frames * channels) by (nonlinear_arith);
            }
            self.frame_index += 1;
            if self.frame_index == frames {
                // next channel, restart with the first frame
                self.frame_index = 0;
                self.channel_index += 1;
                assert((address.channel + 1) * frames == address.channel * frames + frames)
                    by (nonlinear_arith);
            }
            assert(self.remaining() =~= old(self).remaining().skip(1));
            Some(raw.to_primitive())
        } else {
            proof {
                assert(channels * frames == frames * channels) by (nonlinear_arith);
                if self.channel_index == channels {
                } else {
                    assert(frames * channels == 0) by (nonlinear_arith)
                        requires
                            frames == 0,
                    ;
                }
            }
            None
        }
    }
}

/// Contains mutable samples where every channel has a separate internal
/// buffer.
pub struct SeparatedBufferMut<'buffer, T: RawSample> {
    channels: &'buffer mut [&'buffer mut [u8]],
    frame_count: FrameIndex,
    codec: PhantomData<T>,
}

impl<'buffer, T: RawSample> SeparatedBufferMut<'buffer, T> {
    /// The bytes of each region that the buffer borrows, as they are now.
    pub open spec fn regions(&self) -> Seq<Seq<u8>> {
        regions_of_mut(self.borrowed()@)
    }

    /// The borrow that the buffer writes through. What the lender finds when
    /// the buffer is gone is the final value of this borrow.
    pub closed spec fn borrowed(&self) -> &'buffer mut [&'buffer mut [u8]] {
        self.channels
    }

    /// The invariant of the view: the number of regions fits a channel
    /// index, and every region is exactly the declared number of frames.
    pub closed spec fn shaped(&self) -> bool {
        separated_shape(regions_of_mut(self.channels@), self.frame_count as nat, T::width())
    }

    /// The samples of the buffer.
    pub closed spec fn model(&self) -> Grid<T::Primitive> {
        separated_grid::<T>(regions_of_mut(self.channels@), self.frame_count as nat)
    }

    /// A writable view of `channels` as one channel of `frame_count` samples
    /// each.
    pub fn new(channels: &'buffer mut [&'buffer mut [u8]], frame_count: FrameCount) -> (buffer: Self)
        requires
            separated_shape(regions_of_mut(old(channels)@), frame_count as nat, T::width()),
        ensures
            buffer.wf(),
            buffer.regions() == regions_of_mut(old(channels)@),
            buffer.grid() == separated_grid::<T>(
                regions_of_mut(old(channels)@),
                frame_count as nat,
            ),
            final(buffer.borrowed())@ == final(channels)@,
    {
        SeparatedBufferMut { channels, frame_count, codec: PhantomData }
    }

    /// A writable view of `channels` as one channel of `frame_count` samples
    /// each, or `None` if there are more channels than a channel index can
    /// count or one of them does not have exactly that many samples.
    pub fn try_new(channels: &'buffer mut [&'buffer mut [u8]], frame_count: FrameCount) -> (r: Option<
        Self,
    >)
        ensures
            r is Some <==> separated_shape(
                regions_of_mut(old(channels)@),
                frame_count as nat,
                T::width(),
            ),
            r matches Some(buffer) ==> buffer.wf() && buffer.regions() == regions_of_mut(
                old(channels)@,
            ) && buffer.grid() == separated_grid::<T>(
                regions_of_mut(old(channels)@),
                frame_count as nat,
            ) && final(buffer.borrowed())@ == final(channels)@,
            r is None ==> final(channels)@ == old(channels)@,
    {
        if channels.len() > ChannelCount::MAX as usize {
            return None;
        }
        let expected = channel_bytes(frame_count, T::size());
        let mut index: usize = 0;
        while index < channels.len()
            invariant
                index <= channels@.len(),
                channels@ == old(channels)@,
                expected == frame_count * T::width(),
                forall|c: int|
                    0 <= c < index ==> (#[trigger] regions_of_mut(channels@)[c]).len() == frame_count
                        * T::width(),
            decreases channels@.len() - index,
        {
            if channels[index].len() as u64 != expected {
                assert(regions_of_mut(channels@)[index as int].len() != frame_count * T::width());
                return None;
            }
            index += 1;
        }
        Some(Self::new(channels, frame_count))
    }

    /// The samples of the buffer are those that its regions hold, one
    /// channel each.
    pub proof fn lemma_regions(&self)
        requires
            self.wf(),
        ensures
            separated_shape(self.regions(), self.grid().frames, T::width()),
            self.grid() == separated_grid::<T>(self.regions(), self.grid().frames),
    {
    }

    /// Ends the view. The lender's regions are the regions of the buffer as
    /// they are now.
    pub fn finish(self)
        ensures
            regions_of_mut(final(self.borrowed())@) == self.regions(),
    {
    }

    /// Number of channels.
    fn channel_total(&self) -> (n: ChannelCount)
        requires
            self.shaped(),
        ensures
            n == self.model().channel_count(),
    {
        self.channels.len() as ChannelCount
    }

    /// The sample at `address`, as it is now.
    pub fn sample(&self, address: SampleAddress) -> (sample: T::Primitive)
        requires
            self.wf(),
            self.grid().has(address.channel as int, address.frame as int),
        ensures
            sample == self.grid().at(address.channel as int, address.frame as int),
    {
        proof {
            assert(regions_of_mut(self.channels@)[address.channel as int].len() == self.frame_count
                * T::width());
            lemma_slot_bounds(address.frame as int, self.frame_count as int, T::width());
        }
        crate::buffers::read_sample::<T>(&*self.channels[address.channel as usize], address.frame as usize)
    }
}

impl<'buffer, T: RawSample> SampleBufferMut for SeparatedBufferMut<'buffer, T> {
    type Item = T::Primitive;

    open spec fn wf(&self) -> bool {
        self.shaped()
    }

    open spec fn grid(&self) -> Grid<T::Primitive> {
        self.model()
    }

    proof fn lemma_shape(&self) {
    }

    fn frame_count(&self) -> (n: FrameIndex) {
        self.frame_count
    }

    fn write_frame(&mut self, index: FrameIndex, frame: &[T::Primitive])
        ensures
            final(final(self).borrowed())@ == final(old(self).borrowed())@,
    {
        let ghost before = self.grid();
        let channels = self.channel_total();
        let mut channel: ChannelIndex = 0;
        assert(self.grid() =~~= before.with_frame(index as int, frame@.take(0)));
        while channel < channels && (channel as usize) < frame.len()
            invariant
                self.wf(),
                final(self.borrowed())@ == final(old(self).borrowed())@,
                channel <= channels,
                channel <= frame@.len(),
                channels == self.grid().channel_count(),
                index < self.grid().frames,
                before.frames == self.grid().frames,
                before.channels.len() == channels,
                before.wf(),
                self.grid() == before.with_frame(index as int, frame@.take(channel as int)),
            decreases channels - channel,
        {
            let ghost current = self.grid();
            self.write_sample(SampleAddress { channel, frame: index }, frame[channel as usize]);
            channel += 1;
            assert(current.with_sample(channel - 1, index as int, frame@[channel - 1]) =~~= before.with_frame(
                index as int,
                frame@.take(channel as int),
            ));
        }
        assert(before.with_frame(index as int, frame@.take(channel as int)) =~~= before.with_frame(
            index as int,
            frame@,
        ));
    }

    fn write_frames(&mut self, frames: &[Vec<T::Primitive>])
        ensures
            final(final(self).borrowed())@ == final(old(self).borrowed())@,
    {
        let ghost before = self.grid();
        let count = self.frame_count;
        let mut index: FrameIndex = 0;
        assert(self.grid() =~~= before.with_frames(rows(frames@).take(0)));
        while index < count && (index as usize) < frames.len()
            invariant
                self.wf(),
                final(self.borrowed())@ == final(old(self).borrowed())@,
                index <= count,
                index <= frames@.len(),
                count == self.grid().frames,
                before.frames == count,
                before.channels.len() == self.grid().channel_count(),
                before.wf(),
                self.grid() == before.with_frames(rows(frames@).take(index as int)),
            decreases count - index,
        {
            let ghost current = self.grid();
            self.write_frame(index, frames[index as usize].as_slice());
            index += 1;
            assert(current.with_frame(index - 1, rows(frames@)[index - 1]) =~~= before.with_frames(
                rows(frames@).take(index as int),
            ));
        }
        assert(before.with_frames(rows(frames@).take(index as int)) =~~= before.with_frames(
            rows(frames@),
        ));
    }

    fn channel_count(&self) -> (n: ChannelCount) {
        self.channel_total()
    }

    fn write_channel(&mut self, index: ChannelIndex, channel: &[T::Primitive])
        ensures
            final(final(self).borrowed())@ == final(old(self).borrowed())@,
    {
        let ghost before = self.grid();
        let count = self.frame_count;
        let mut frame: FrameIndex = 0;
        assert(self.grid() =~~= before.with_channel(index as int, channel@.take(0)));
        while frame < count && (frame as usize) < channel.len()
            invariant
                self.wf(),
                final(self.borrowed())@ == final(old(self).borrowed())@,
                frame <= count,
                frame <= channel@.len(),
                count == self.grid().frames,
                index < self.grid().channel_count(),
                before.frames == count,
                before.channels.len() == self.grid().channel_count(),
                before.wf(),
                self.grid() == before.with_channel(index as int, channel@.take(frame as int)),
            decreases count - frame,
        {
            let ghost current = self.grid();
            self.write_sample(SampleAddress { channel: index, frame }, channel[frame as usize]);
            frame += 1;
            assert(current.with_sample(index as int, frame - 1, channel@[frame - 1]) =~~= before.with_channel(
                index as int,
                channel@.take(frame as int),
            ));
        }
        assert(before.with_channel(index as int, channel@.take(frame as int)) =~~= before.with_channel(
            index as int,
            channel@,
        ));
    }

    fn write_channels(&mut self, channels: &[Vec<T::Primitive>])
        ensures
            final(final(self).borrowed())@ == final(old(self).borrowed())@,
    {
        let ghost before = self.grid();
        let count = self.channel_total();
        let mut index: ChannelIndex = 0;
        assert(self.grid() =~~= before.with_channels(rows(channels@).take(0)));
        while index < count && (index as usize) < channels.len()
            invariant
                self.wf(),
                final(self.borrowed())@ == final(old(self).borrowed())@,
                index <= count,
                index <= channels@.len(),
                count == self.grid().channel_count(),
                before.frames == self.grid().frames,
                before.channels.len() == count,
                before.wf(),
                self.grid() == before.with_channels(rows(channels@).take(index as int)),
            decreases count - index,
        {
            let ghost current = self.grid();
            self.write_channel(index, channels[index as usize].as_slice());
            index += 1;
            assert(current.with_channel(index - 1, rows(channels@)[index - 1]) =~~= before.with_channels(
                rows(channels@).take(index as int),
            ));
        }
        assert(before.with_channels(rows(channels@).take(index as int)) =~~= before.with_channels(
            rows(channels@),
        ));
    }

    fn write_sample(&mut self, address: SampleAddress, sample: T::Primitive)
        ensures
            final(final(self).borrowed())@ == final(old(self).borrowed())@,
    {
        let ghost before = regions_of_mut(self.channels@);
        proof {
            assert(before[address.channel as int].len() == self.frame_count * T::width());
            lemma_slot_bounds(address.frame as int, self.frame_count as int, T::width());
        }
        crate::buffers::write_sample::<T>(
            self.channels[address.channel as usize],
            address.frame as usize,
            sample,
        );
        proof {
            let after = regions_of_mut(self.channels@);
            assert forall|c: int| 0 <= c < before.len() && c != address.channel implies after[c]
                == before[c] by {
            }
            lemma_separated_write::<T>(
                before,
                after,
                self.frame_count as nat,
                address.channel as int,
                address.frame as int,
                sample,
            );
        }
    }

    fn write_samples_interleaved(&mut self, samples: &[T::Primitive])
        ensures
            final(final(self).borrowed())@ == final(old(self).borrowed())@,
    {
        let channels = self.channel_total();
        if channels > 0 {
            let frames = chunks_of(samples, channels as usize);
            proof {
                lemma_chunked_frames(self.grid(), samples@);
            }
            self.write_frames(frames.as_slice());
        } else {
            assert(self.grid() =~~= self.grid().with_interleaved(samples@));
        }
    }

    fn write_samples_separated(&mut self, samples: &[T::Primitive])
        ensures
            final(final(self).borrowed())@ == final(old(self).borrowed())@,
    {
        if self.frame_count > 0 {
            let channels = chunks_of(samples, self.frame_count as usize);
            proof {
                lemma_chunked_channels(self.grid(), samples@);
            }
            self.write_channels(channels.as_slice());
        } else {
            assert(self.grid() =~~= self.grid().with_separated(samples@));
        }
    }
}

} // verus!
