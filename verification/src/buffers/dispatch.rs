//! Values whose layout or encoding is chosen at run time.
//!
//! Each enum of this module holds one of several views of the same primitive
//! and is itself such a view: every call goes to the alternative that is
//! there. A caller picks the layout and the encoding once, when the view is
//! made, and works with one type from then on.
use crate::buffers::grid::Grid;
use crate::buffers::{
    ChannelIndex, Cursor, FrameIndex, Run, Runs, SampleAddress, SampleBuffer, SampleBufferMut,
};
use crate::ChannelCount;
use vstd::prelude::*;

verus! {

/// A value of one of the two layouts: all samples in one region, or one region per
/// channel.
pub enum Layout<I, S> {
    Interleaved(I),
    Separated(S),
}

impl<I: Cursor, S: Cursor<Item = I::Item>> Cursor for Layout<I, S> {
    type Item = I::Item;

    open spec fn wf(&self) -> bool {
        match self {
            Layout::Interleaved(inner) => inner.wf(),
            Layout::Separated(inner) => inner.wf(),
        }
    }

    open spec fn remaining(&self) -> Seq<I::Item> {
        match self {
            Layout::Interleaved(inner) => inner.remaining(),
            Layout::Separated(inner) => inner.remaining(),
        }
    }

    fn next(&mut self) -> (item: Option<I::Item>) {
        match self {
            Layout::Interleaved(inner) => inner.next(),
            Layout::Separated(inner) => inner.next(),
        }
    }
}

impl<I: Run, S: Run<Item = I::Item>> Run for Layout<I, S> {
    type Item = I::Item;

    type Samples = Layout<I::Samples, S::Samples>;

    open spec fn wf(&self) -> bool {
        match self {
            Layout::Interleaved(inner) => inner.wf(),
            Layout::Separated(inner) => inner.wf(),
        }
    }

    open spec fn samples(&self) -> Seq<I::Item> {
        match self {
            Layout::Interleaved(inner) => inner.samples(),
            Layout::Separated(inner) => inner.samples(),
        }
    }

    fn into_iter(self) -> (cursor: Self::Samples) {
        match self {
            Layout::Interleaved(inner) => Layout::Interleaved(inner.into_iter()),
            Layout::Separated(inner) => Layout::Separated(inner.into_iter()),
        }
    }
}

impl<I: Runs, S: Runs> Runs for Layout<I, S> where
    S::Run: Run<Item = <I::Run as Run>::Item>,
{
    type Run = Layout<I::Run, S::Run>;

    open spec fn wf(&self) -> bool {
        match self {
            Layout::Interleaved(inner) => inner.wf(),
            Layout::Separated(inner) => inner.wf(),
        }
    }

    open spec fn remaining(&self) -> Seq<Seq<<I::Run as Run>::Item>> {
        match self {
            Layout::Interleaved(inner) => inner.remaining(),
            Layout::Separated(inner) => inner.remaining(),
        }
    }

    fn next(&mut self) -> (run: Option<Self::Run>) {
        match self {
            Layout::Interleaved(inner) => match inner.next() {
                Some(run) => Some(Layout::Interleaved(run)),
                None => None,
            },
            Layout::Separated(inner) => match inner.next() {
                Some(run) => Some(Layout::Separated(run)),
                None => None,
            },
        }
    }
}

impl<I: SampleBuffer, S: SampleBuffer<Item = I::Item>> SampleBuffer for Layout<I, S> {
    type Item = I::Item;

    type Frame = Layout<I::Frame, S::Frame>;

    type Frames = Layout<I::Frames, S::Frames>;

    type Channel = Layout<I::Channel, S::Channel>;

    type Channels = Layout<I::Channels, S::Channels>;

    type Samples = Layout<I::Samples, S::Samples>;

    type SamplesInterleaved = Layout<I::SamplesInterleaved, S::SamplesInterleaved>;

    type SamplesSeparated = Layout<I::SamplesSeparated, S::SamplesSeparated>;

    open spec fn wf(&self) -> bool {
        match self {
            Layout::Interleaved(inner) => inner.wf(),
            Layout::Separated(inner) => inner.wf(),
        }
    }

    open spec fn grid(&self) -> Grid<I::Item> {
        match self {
            Layout::Interleaved(inner) => inner.grid(),
            Layout::Separated(inner) => inner.grid(),
        }
    }

    proof fn lemma_shape(&self) {
        match self {
            Layout::Interleaved(inner) => inner.lemma_shape(),
            Layout::Separated(inner) => inner.lemma_shape(),
        }
    }

    fn frame_count(&self) -> (n: FrameIndex) {
        match self {
            Layout::Interleaved(inner) => inner.frame_count(),
            Layout::Separated(inner) => inner.frame_count(),
        }
    }

    fn frame(&self, index: FrameIndex) -> (frame: Self::Frame) {
        match self {
            Layout::Interleaved(inner) => Layout::Interleaved(inner.frame(index)),
            Layout::Separated(inner) => Layout::Separated(inner.frame(index)),
        }
    }

    fn frames(&self) -> (frames: Self::Frames) {
        match self {
            Layout::Interleaved(inner) => Layout::Interleaved(inner.frames()),
            Layout::Separated(inner) => Layout::Separated(inner.frames()),
        }
    }

    fn channel_count(&self) -> (n: ChannelCount) {
        match self {
            Layout::Interleaved(inner) => inner.channel_count(),
            Layout::Separated(inner) => inner.channel_count(),
        }
    }

    fn channel(&self, index: ChannelIndex) -> (channel: Self::Channel) {
        match self {
            Layout::Interleaved(inner) => Layout::Interleaved(inner.channel(index)),
            Layout::Separated(inner) => Layout::Separated(inner.channel(index)),
        }
    }

    fn channels(&self) -> (channels: Self::Channels) {
        match self {
            Layout::Interleaved(inner) => Layout::Interleaved(inner.channels()),
            Layout::Separated(inner) => Layout::Separated(inner.channels()),
        }
    }

    fn samples(&self) -> (samples: Self::Samples) {
        match self {
            Layout::Interleaved(inner) => Layout::Interleaved(inner.samples()),
            Layout::Separated(inner) => Layout::Separated(inner.samples()),
        }
    }

    fn samples_interleaved(&self) -> (samples: Self::SamplesInterleaved) {
        match self {
            Layout::Interleaved(inner) => Layout::Interleaved(inner.samples_interleaved()),
            Layout::Separated(inner) => Layout::Separated(inner.samples_interleaved()),
        }
    }

    fn samples_separated(&self) -> (samples: Self::SamplesSeparated) {
        match self {
            Layout::Interleaved(inner) => Layout::Interleaved(inner.samples_separated()),
            Layout::Separated(inner) => Layout::Separated(inner.samples_separated()),
        }
    }
}

impl<
    I: SampleBufferMut,
    S: SampleBufferMut<Item = I::Item>,
> SampleBufferMut for Layout<I, S> {
    type Item = I::Item;

    open spec fn wf(&self) -> bool {
        match self {
            Layout::Interleaved(inner) => inner.wf(),
            Layout::Separated(inner) => inner.wf(),
        }
    }

    open spec fn grid(&self) -> Grid<I::Item> {
        match self {
            Layout::Interleaved(inner) => inner.grid(),
            Layout::Separated(inner) => inner.grid(),
        }
    }

    proof fn lemma_shape(&self) {
        match self {
            Layout::Interleaved(inner) => inner.lemma_shape(),
            Layout::Separated(inner) => inner.lemma_shape(),
        }
    }

    fn frame_count(&self) -> (n: FrameIndex) {
        match self {
            Layout::Interleaved(inner) => inner.frame_count(),
            Layout::Separated(inner) => inner.frame_count(),
        }
    }

    fn write_frame(&mut self, index: FrameIndex, frame: &[I::Item]) {
        match self {
            Layout::Interleaved(inner) => inner.write_frame(index, frame),
            Layout::Separated(inner) => inner.write_frame(index, frame),
        }
    }

    fn write_frames(&mut self, frames: &[Vec<I::Item>]) {
        match self {
            Layout::Interleaved(inner) => inner.write_frames(frames),
            Layout::Separated(inner) => inner.write_frames(frames),
        }
    }

    fn channel_count(&self) -> (n: ChannelCount) {
        match self {
            Layout::Interleaved(inner) => inner.channel_count(),
            Layout::Separated(inner) => inner.channel_count(),
        }
    }

    fn write_channel(&mut self, index: ChannelIndex, channel: &[I::Item]) {
        match self {
            Layout::Interleaved(inner) => inner.write_channel(index, channel),
            Layout::Separated(inner) => inner.write_channel(index, channel),
        }
    }

    fn write_channels(&mut self, channels: &[Vec<I::Item>]) {
        match self {
            Layout::Interleaved(inner) => inner.write_channels(channels),
            Layout::Separated(inner) => inner.write_channels(channels),
        }
    }

    fn write_sample(&mut self, address: SampleAddress, sample: I::Item) {
        match self {
            Layout::Interleaved(inner) => inner.write_sample(address, sample),
            Layout::Separated(inner) => inner.write_sample(address, sample),
        }
    }

    fn write_samples_interleaved(&mut self, samples: &[I::Item]) {
        match self {
            Layout::Interleaved(inner) => inner.write_samples_interleaved(samples),
            Layout::Separated(inner) => inner.write_samples_interleaved(samples),
        }
    }

    fn write_samples_separated(&mut self, samples: &[I::Item]) {
        match self {
            Layout::Interleaved(inner) => inner.write_samples_separated(samples),
            Layout::Separated(inner) => inner.write_samples_separated(samples),
        }
    }
}

/// A value of the single encoding of a one-byte primitive.
pub enum Native<N> {
    NE(N),
}

impl<N: Cursor> Cursor for Native<N> {
    type Item = N::Item;

    open spec fn wf(&self) -> bool {
        match self {
            Native::NE(inner) => inner.wf(),
        }
    }

    open spec fn remaining(&self) -> Seq<N::Item> {
        match self {
            Native::NE(inner) => inner.remaining(),
        }
    }

    fn next(&mut self) -> (item: Option<N::Item>) {
        match self {
            Native::NE(inner) => inner.next(),
        }
    }
}

impl<N: Run> Run for Native<N> {
    type Item = N::Item;

    type Samples = Native<N::Samples>;

    open spec fn wf(&self) -> bool {
        match self {
            Native::NE(inner) => inner.wf(),
        }
    }

    open spec fn samples(&self) -> Seq<N::Item> {
        match self {
            Native::NE(inner) => inner.samples(),
        }
    }

    fn into_iter(self) -> (cursor: Self::Samples) {
        match self {
            Native::NE(inner) => Native::NE(inner.into_iter()),
        }
    }
}

impl<N: Runs> Runs for Native<N> {
    type Run = Native<N::Run>;

    open spec fn wf(&self) -> bool {
        match self {
            Native::NE(inner) => inner.wf(),
        }
    }

    open spec fn remaining(&self) -> Seq<Seq<<N::Run as Run>::Item>> {
        match self {
            Native::NE(inner) => inner.remaining(),
        }
    }

    fn next(&mut self) -> (run: Option<Self::Run>) {
        match self {
            Native::NE(inner) => match inner.next() {
                Some(run) => Some(Native::NE(run)),
                None => None,
            },
        }
    }
}

impl<N: SampleBuffer> SampleBuffer for Native<N> {
    type Item = N::Item;

    type Frame = Native<N::Frame>;

    type Frames = Native<N::Frames>;

    type Channel = Native<N::Channel>;

    type Channels = Native<N::Channels>;

    type Samples = Native<N::Samples>;

    type SamplesInterleaved = Native<N::SamplesInterleaved>;

    type SamplesSeparated = Native<N::SamplesSeparated>;

    open spec fn wf(&self) -> bool {
        match self {
            Native::NE(inner) => inner.wf(),
        }
    }

    open spec fn grid(&self) -> Grid<N::Item> {
        match self {
            Native::NE(inner) => inner.grid(),
        }
    }

    proof fn lemma_shape(&self) {
        match self {
            Native::NE(inner) => inner.lemma_shape(),
        }
    }

    fn frame_count(&self) -> (n: FrameIndex) {
        match self {
            Native::NE(inner) => inner.frame_count(),
        }
    }

    fn frame(&self, index: FrameIndex) -> (frame: Self::Frame) {
        match self {
            Native::NE(inner) => Native::NE(inner.frame(index)),
        }
    }

    fn frames(&self) -> (frames: Self::Frames) {
        match self {
            Native::NE(inner) => Native::NE(inner.frames()),
        }
    }

    fn channel_count(&self) -> (n: ChannelCount) {
        match self {
            Native::NE(inner) => inner.channel_count(),
        }
    }

    fn channel(&self, index: ChannelIndex) -> (channel: Self::Channel) {
        match self {
            Native::NE(inner) => Native::NE(inner.channel(index)),
        }
    }

    fn channels(&self) -> (channels: Self::Channels) {
        match self {
            Native::NE(inner) => Native::NE(inner.channels()),
        }
    }

    fn samples(&self) -> (samples: Self::Samples) {
        match self {
            Native::NE(inner) => Native::NE(inner.samples()),
        }
    }

    fn samples_interleaved(&self) -> (samples: Self::SamplesInterleaved) {
        match self {
            Native::NE(inner) => Native::NE(inner.samples_interleaved()),
        }
    }

    fn samples_separated(&self) -> (samples: Self::SamplesSeparated) {
        match self {
            Native::NE(inner) => Native::NE(inner.samples_separated()),
        }
    }
}

impl<N: SampleBufferMut> SampleBufferMut for Native<N> {
    type Item = N::Item;

    open spec fn wf(&self) -> bool {
        match self {
            Native::NE(inner) => inner.wf(),
        }
    }

    open spec fn grid(&self) -> Grid<N::Item> {
        match self {
            Native::NE(inner) => inner.grid(),
        }
    }

    proof fn lemma_shape(&self) {
        match self {
            Native::NE(inner) => inner.lemma_shape(),
        }
    }

    fn frame_count(&self) -> (n: FrameIndex) {
        match self {
            Native::NE(inner) => inner.frame_count(),
        }
    }

    fn write_frame(&mut self, index: FrameIndex, frame: &[N::Item]) {
        match self {
            Native::NE(inner) => inner.write_frame(index, frame),
        }
    }

    fn write_frames(&mut self, frames: &[Vec<N::Item>]) {
        match self {
            Native::NE(inner) => inner.write_frames(frames),
        }
    }

    fn channel_count(&self) -> (n: ChannelCount) {
        match self {
            Native::NE(inner) => inner.channel_count(),
        }
    }

    fn write_channel(&mut self, index: ChannelIndex, channel: &[N::Item]) {
        match self {
            Native::NE(inner) => inner.write_channel(index, channel),
        }
    }

    fn write_channels(&mut self, channels: &[Vec<N::Item>]) {
        match self {
            Native::NE(inner) => inner.write_channels(channels),
        }
    }

    fn write_sample(&mut self, address: SampleAddress, sample: N::Item) {
        match self {
            Native::NE(inner) => inner.write_sample(address, sample),
        }
    }

    fn write_samples_interleaved(&mut self, samples: &[N::Item]) {
        match self {
            Native::NE(inner) => inner.write_samples_interleaved(samples),
        }
    }

    fn write_samples_separated(&mut self, samples: &[N::Item]) {
        match self {
            Native::NE(inner) => inner.write_samples_separated(samples),
        }
    }
}

/// A value of one of the two encodings of a primitive with a byte order.
pub enum LittleBig<L, B> {
    LE(L),
    BE(B),
}

impl<L: Cursor, B: Cursor<Item = L::Item>> Cursor for LittleBig<L, B> {
    type Item = L::Item;

    open spec fn wf(&self) -> bool {
        match self {
            LittleBig::LE(inner) => inner.wf(),
            LittleBig::BE(inner) => inner.wf(),
        }
    }

    open spec fn remaining(&self) -> Seq<L::Item> {
        match self {
            LittleBig::LE(inner) => inner.remaining(),
            LittleBig::BE(inner) => inner.remaining(),
        }
    }

    fn next(&mut self) -> (item: Option<L::Item>) {
        match self {
            LittleBig::LE(inner) => inner.next(),
            LittleBig::BE(inner) => inner.next(),
        }
    }
}

impl<L: Run, B: Run<Item = L::Item>> Run for LittleBig<L, B> {
    type Item = L::Item;

    type Samples = LittleBig<L::Samples, B::Samples>;

    open spec fn wf(&self) -> bool {
        match self {
            LittleBig::LE(inner) => inner.wf(),
            LittleBig::BE(inner) => inner.wf(),
        }
    }

    open spec fn samples(&self) -> Seq<L::Item> {
        match self {
            LittleBig::LE(inner) => inner.samples(),
            LittleBig::BE(inner) => inner.samples(),
        }
    }

    fn into_iter(self) -> (cursor: Self::Samples) {
        match self {
            LittleBig::LE(inner) => LittleBig::LE(inner.into_iter()),
            LittleBig::BE(inner) => LittleBig::BE(inner.into_iter()),
        }
    }
}

impl<L: Runs, B: Runs> Runs for LittleBig<L, B> where
    B::Run: Run<Item = <L::Run as Run>::Item>,
{
    type Run = LittleBig<L::Run, B::Run>;

    open spec fn wf(&self) -> bool {
        match self {
            LittleBig::LE(inner) => inner.wf(),
            LittleBig::BE(inner) => inner.wf(),
        }
    }

    open spec fn remaining(&self) -> Seq<Seq<<L::Run as Run>::Item>> {
        match self {
            LittleBig::LE(inner) => inner.remaining(),
            LittleBig::BE(inner) => inner.remaining(),
        }
    }

    fn next(&mut self) -> (run: Option<Self::Run>) {
        match self {
            LittleBig::LE(inner) => match inner.next() {
                Some(run) => Some(LittleBig::LE(run)),
                None => None,
            },
            LittleBig::BE(inner) => match inner.next() {
                Some(run) => Some(LittleBig::BE(run)),
                None => None,
            },
        }
    }
}

impl<L: SampleBuffer, B: SampleBuffer<Item = L::Item>> SampleBuffer for LittleBig<L, B> {
    type Item = L::Item;

    type Frame = LittleBig<L::Frame, B::Frame>;

    type Frames = LittleBig<L::Frames, B::Frames>;

    type Channel = LittleBig<L::Channel, B::Channel>;

    type Channels = LittleBig<L::Channels, B::Channels>;

    type Samples = LittleBig<L::Samples, B::Samples>;

    type SamplesInterleaved = LittleBig<L::SamplesInterleaved, B::SamplesInterleaved>;

    type SamplesSeparated = LittleBig<L::SamplesSeparated, B::SamplesSeparated>;

    open spec fn wf(&self) -> bool {
        match self {
            LittleBig::LE(inner) => inner.wf(),
            LittleBig::BE(inner) => inner.wf(),
        }
    }

    open spec fn grid(&self) -> Grid<L::Item> {
        match self {
            LittleBig::LE(inner) => inner.grid(),
            LittleBig::BE(inner) => inner.grid(),
        }
    }

    proof fn lemma_shape(&self) {
        match self {
            LittleBig::LE(inner) => inner.lemma_shape(),
            LittleBig::BE(inner) => inner.lemma_shape(),
        }
    }

    fn frame_count(&self) -> (n: FrameIndex) {
        match self {
            LittleBig::LE(inner) => inner.frame_count(),
            LittleBig::BE(inner) => inner.frame_count(),
        }
    }

    fn frame(&self, index: FrameIndex) -> (frame: Self::Frame) {
        match self {
            LittleBig::LE(inner) => LittleBig::LE(inner.frame(index)),
            LittleBig::BE(inner) => LittleBig::BE(inner.frame(index)),
        }
    }

    fn frames(&self) -> (frames: Self::Frames) {
        match self {
            LittleBig::LE(inner) => LittleBig::LE(inner.frames()),
            LittleBig::BE(inner) => LittleBig::BE(inner.frames()),
        }
    }

    fn channel_count(&self) -> (n: ChannelCount) {
        match self {
            LittleBig::LE(inner) => inner.channel_count(),
            LittleBig::BE(inner) => inner.channel_count(),
        }
    }

    fn channel(&self, index: ChannelIndex) -> (channel: Self::Channel) {
        match self {
            LittleBig::LE(inner) => LittleBig::LE(inner.channel(index)),
            LittleBig::BE(inner) => LittleBig::BE(inner.channel(index)),
        }
    }

    fn channels(&self) -> (channels: Self::Channels) {
        match self {
            LittleBig::LE(inner) => LittleBig::LE(inner.channels()),
            LittleBig::BE(inner) => LittleBig::BE(inner.channels()),
        }
    }

    fn samples(&self) -> (samples: Self::Samples) {
        match self {
            LittleBig::LE(inner) => LittleBig::LE(inner.samples()),
            LittleBig::BE(inner) => LittleBig::BE(inner.samples()),
        }
    }

    fn samples_interleaved(&self) -> (samples: Self::SamplesInterleaved) {
        match self {
            LittleBig::LE(inner) => LittleBig::LE(inner.samples_interleaved()),
            LittleBig::BE(inner) => LittleBig::BE(inner.samples_interleaved()),
        }
    }

    fn samples_separated(&self) -> (samples: Self::SamplesSeparated) {
        match self {
            LittleBig::LE(inner) => LittleBig::LE(inner.samples_separated()),
            LittleBig::BE(inner) => LittleBig::BE(inner.samples_separated()),
        }
    }
}

impl<
    L: SampleBufferMut,
    B: SampleBufferMut<Item = L::Item>,
> SampleBufferMut for LittleBig<L, B> {
    type Item = L::Item;

    open spec fn wf(&self) -> bool {
        match self {
            LittleBig::LE(inner) => inner.wf(),
            LittleBig::BE(inner) => inner.wf(),
        }
    }

    open spec fn grid(&self) -> Grid<L::Item> {
        match self {
            LittleBig::LE(inner) => inner.grid(),
            LittleBig::BE(inner) => inner.grid(),
        }
    }

    proof fn lemma_shape(&self) {
        match self {
            LittleBig::LE(inner) => inner.lemma_shape(),
            LittleBig::BE(inner) => inner.lemma_shape(),
        }
    }

    fn frame_count(&self) -> (n: FrameIndex) {
        match self {
            LittleBig::LE(inner) => inner.frame_count(),
            LittleBig::BE(inner) => inner.frame_count(),
        }
    }

    fn write_frame(&mut self, index: FrameIndex, frame: &[L::Item]) {
        match self {
            LittleBig::LE(inner) => inner.write_frame(index, frame),
            LittleBig::BE(inner) => inner.write_frame(index, frame),
        }
    }

    fn write_frames(&mut self, frames: &[Vec<L::Item>]) {
        match self {
            LittleBig::LE(inner) => inner.write_frames(frames),
            LittleBig::BE(inner) => inner.write_frames(frames),
        }
    }

    fn channel_count(&self) -> (n: ChannelCount) {
        match self {
            LittleBig::LE(inner) => inner.channel_count(),
            LittleBig::BE(inner) => inner.channel_count(),
        }
    }

    fn write_channel(&mut self, index: ChannelIndex, channel: &[L::Item]) {
        match self {
            LittleBig::LE(inner) => inner.write_channel(index, channel),
            LittleBig::BE(inner) => inner.write_channel(index, channel),
        }
    }

    fn write_channels(&mut self, channels: &[Vec<L::Item>]) {
        match self {
            LittleBig::LE(inner) => inner.write_channels(channels),
            LittleBig::BE(inner) => inner.write_channels(channels),
        }
    }

    fn write_sample(&mut self, address: SampleAddress, sample: L::Item) {
        match self {
            LittleBig::LE(inner) => inner.write_sample(address, sample),
            LittleBig::BE(inner) => inner.write_sample(address, sample),
        }
    }

    fn write_samples_interleaved(&mut self, samples: &[L::Item]) {
        match self {
            LittleBig::LE(inner) => inner.write_samples_interleaved(samples),
            LittleBig::BE(inner) => inner.write_samples_interleaved(samples),
        }
    }

    fn write_samples_separated(&mut self, samples: &[L::Item]) {
        match self {
            LittleBig::LE(inner) => inner.write_samples_separated(samples),
            LittleBig::BE(inner) => inner.write_samples_separated(samples),
        }
    }
}

/// A value of one of the four encodings of a 24-bit primitive.
pub enum Packed24<A, B, C, D> {
    LE3B(A),
    BE3B(B),
    LE4B(C),
    BE4B(D),
}

impl<
    A: Cursor,
    B: Cursor<Item = A::Item>,
    C: Cursor<Item = A::Item>,
    D: Cursor<Item = A::Item>,
> Cursor for Packed24<A, B, C, D> {
    type Item = A::Item;

    open spec fn wf(&self) -> bool {
        match self {
            Packed24::LE3B(inner) => inner.wf(),
            Packed24::BE3B(inner) => inner.wf(),
            Packed24::LE4B(inner) => inner.wf(),
            Packed24::BE4B(inner) => inner.wf(),
        }
    }

    open spec fn remaining(&self) -> Seq<A::Item> {
        match self {
            Packed24::LE3B(inner) => inner.remaining(),
            Packed24::BE3B(inner) => inner.remaining(),
            Packed24::LE4B(inner) => inner.remaining(),
            Packed24::BE4B(inner) => inner.remaining(),
        }
    }

    fn next(&mut self) -> (item: Option<A::Item>) {
        match self {
            Packed24::LE3B(inner) => inner.next(),
            Packed24::BE3B(inner) => inner.next(),
            Packed24::LE4B(inner) => inner.next(),
            Packed24::BE4B(inner) => inner.next(),
        }
    }
}

impl<
    A: Run,
    B: Run<Item = A::Item>,
    C: Run<Item = A::Item>,
    D: Run<Item = A::Item>,
> Run for Packed24<A, B, C, D> {
    type Item = A::Item;

    type Samples = Packed24<A::Samples, B::Samples, C::Samples, D::Samples>;

    open spec fn wf(&self) -> bool {
        match self {
            Packed24::LE3B(inner) => inner.wf(),
            Packed24::BE3B(inner) => inner.wf(),
            Packed24::LE4B(inner) => inner.wf(),
            Packed24::BE4B(inner) => inner.wf(),
        }
    }

    open spec fn samples(&self) -> Seq<A::Item> {
        match self {
            Packed24::LE3B(inner) => inner.samples(),
            Packed24::BE3B(inner) => inner.samples(),
            Packed24::LE4B(inner) => inner.samples(),
            Packed24::BE4B(inner) => inner.samples(),
        }
    }

    fn into_iter(self) -> (cursor: Self::Samples) {
        match self {
            Packed24::LE3B(inner) => Packed24::LE3B(inner.into_iter()),
            Packed24::BE3B(inner) => Packed24::BE3B(inner.into_iter()),
            Packed24::LE4B(inner) => Packed24::LE4B(inner.into_iter()),
            Packed24::BE4B(inner) => Packed24::BE4B(inner.into_iter()),
        }
    }
}

impl<A: Runs, B: Runs, C: Runs, D: Runs> Runs for Packed24<A, B, C, D> where
    B::Run: Run<Item = <A::Run as Run>::Item>,
    C::Run: Run<Item = <A::Run as Run>::Item>,
    D::Run: Run<Item = <A::Run as Run>::Item>,
{
    type Run = Packed24<A::Run, B::Run, C::Run, D::Run>;

    open spec fn wf(&self) -> bool {
        match self {
            Packed24::LE3B(inner) => inner.wf(),
            Packed24::BE3B(inner) => inner.wf(),
            Packed24::LE4B(inner) => inner.wf(),
            Packed24::BE4B(inner) => inner.wf(),
        }
    }

    open spec fn remaining(&self) -> Seq<Seq<<A::Run as Run>::Item>> {
        match self {
            Packed24::LE3B(inner) => inner.remaining(),
            Packed24::BE3B(inner) => inner.remaining(),
            Packed24::LE4B(inner) => inner.remaining(),
            Packed24::BE4B(inner) => inner.remaining(),
        }
    }

    fn next(&mut self) -> (run: Option<Self::Run>) {
        match self {
            Packed24::LE3B(inner) => match inner.next() {
                Some(run) => Some(Packed24::LE3B(run)),
                None => None,
            },
            Packed24::BE3B(inner) => match inner.next() {
                Some(run) => Some(Packed24::BE3B(run)),
                None => None,
            },
            Packed24::LE4B(inner) => match inner.next() {
                Some(run) => Some(Packed24::LE4B(run)),
                None => None,
            },
            Packed24::BE4B(inner) => match inner.next() {
                Some(run) => Some(Packed24::BE4B(run)),
                None => None,
            },
        }
    }
}

impl<
    A: SampleBuffer,
    B: SampleBuffer<Item = A::Item>,
    C: SampleBuffer<Item = A::Item>,
    D: SampleBuffer<Item = A::Item>,
> SampleBuffer for Packed24<A, B, C, D> {
    type Item = A::Item;

    type Frame = Packed24<A::Frame, B::Frame, C::Frame, D::Frame>;

    type Frames = Packed24<A::Frames, B::Frames, C::Frames, D::Frames>;

    type Channel = Packed24<A::Channel, B::Channel, C::Channel, D::Channel>;

    type Channels = Packed24<A::Channels, B::Channels, C::Channels, D::Channels>;

    type Samples = Packed24<A::Samples, B::Samples, C::Samples, D::Samples>;

    type SamplesInterleaved = Packed24<
        A::SamplesInterleaved,
        B::SamplesInterleaved,
        C::SamplesInterleaved,
        D::SamplesInterleaved,
    >;

    type SamplesSeparated = Packed24<
        A::SamplesSeparated,
        B::SamplesSeparated,
        C::SamplesSeparated,
        D::SamplesSeparated,
    >;

    open spec fn wf(&self) -> bool {
        match self {
            Packed24::LE3B(inner) => inner.wf(),
            Packed24::BE3B(inner) => inner.wf(),
            Packed24::LE4B(inner) => inner.wf(),
            Packed24::BE4B(inner) => inner.wf(),
        }
    }

    open spec fn grid(&self) -> Grid<A::Item> {
        match self {
            Packed24::LE3B(inner) => inner.grid(),
            Packed24::BE3B(inner) => inner.grid(),
            Packed24::LE4B(inner) => inner.grid(),
            Packed24::BE4B(inner) => inner.grid(),
        }
    }

    proof fn lemma_shape(&self) {
        match self {
            Packed24::LE3B(inner) => inner.lemma_shape(),
            Packed24::BE3B(inner) => inner.lemma_shape(),
            Packed24::LE4B(inner) => inner.lemma_shape(),
            Packed24::BE4B(inner) => inner.lemma_shape(),
        }
    }

    fn frame_count(&self) -> (n: FrameIndex) {
        match self {
            Packed24::LE3B(inner) => inner.frame_count(),
            Packed24::BE3B(inner) => inner.frame_count(),
            Packed24::LE4B(inner) => inner.frame_count(),
            Packed24::BE4B(inner) => inner.frame_count(),
        }
    }

    fn frame(&self, index: FrameIndex) -> (frame: Self::Frame) {
        match self {
            Packed24::LE3B(inner) => Packed24::LE3B(inner.frame(index)),
            Packed24::BE3B(inner) => Packed24::BE3B(inner.frame(index)),
            Packed24::LE4B(inner) => Packed24::LE4B(inner.frame(index)),
            Packed24::BE4B(inner) => Packed24::BE4B(inner.frame(index)),
        }
    }

    fn frames(&self) -> (frames: Self::Frames) {
        match self {
            Packed24::LE3B(inner) => Packed24::LE3B(inner.frames()),
            Packed24::BE3B(inner) => Packed24::BE3B(inner.frames()),
            Packed24::LE4B(inner) => Packed24::LE4B(inner.frames()),
            Packed24::BE4B(inner) => Packed24::BE4B(inner.frames()),
        }
    }

    fn channel_count(&self) -> (n: ChannelCount) {
        match self {
            Packed24::LE3B(inner) => inner.channel_count(),
            Packed24::BE3B(inner) => inner.channel_count(),
            Packed24::LE4B(inner) => inner.channel_count(),
            Packed24::BE4B(inner) => inner.channel_count(),
        }
    }

    fn channel(&self, index: ChannelIndex) -> (channel: Self::Channel) {
        match self {
            Packed24::LE3B(inner) => Packed24::LE3B(inner.channel(index)),
            Packed24::BE3B(inner) => Packed24::BE3B(inner.channel(index)),
            Packed24::LE4B(inner) => Packed24::LE4B(inner.channel(index)),
            Packed24::BE4B(inner) => Packed24::BE4B(inner.channel(index)),
        }
    }

    fn channels(&self) -> (channels: Self::Channels) {
        match self {
            Packed24::LE3B(inner) => Packed24::LE3B(inner.channels()),
            Packed24::BE3B(inner) => Packed24::BE3B(inner.channels()),
            Packed24::LE4B(inner) => Packed24::LE4B(inner.channels()),
            Packed24::BE4B(inner) => Packed24::BE4B(inner.channels()),
        }
    }

    fn samples(&self) -> (samples: Self::Samples) {
        match self {
            Packed24::LE3B(inner) => Packed24::LE3B(inner.samples()),
            Packed24::BE3B(inner) => Packed24::BE3B(inner.samples()),
            Packed24::LE4B(inner) => Packed24::LE4B(inner.samples()),
            Packed24::BE4B(inner) => Packed24::BE4B(inner.samples()),
        }
    }

    fn samples_interleaved(&self) -> (samples: Self::SamplesInterleaved) {
        match self {
            Packed24::LE3B(inner) => Packed24::LE3B(inner.samples_interleaved()),
            Packed24::BE3B(inner) => Packed24::BE3B(inner.samples_interleaved()),
            Packed24::LE4B(inner) => Packed24::LE4B(inner.samples_interleaved()),
            Packed24::BE4B(inner) => Packed24::BE4B(inner.samples_interleaved()),
        }
    }

    fn samples_separated(&self) -> (samples: Self::SamplesSeparated) {
        match self {
            Packed24::LE3B(inner) => Packed24::LE3B(inner.samples_separated()),
            Packed24::BE3B(inner) => Packed24::BE3B(inner.samples_separated()),
            Packed24::LE4B(inner) => Packed24::LE4B(inner.samples_separated()),
            Packed24::BE4B(inner) => Packed24::BE4B(inner.samples_separated()),
        }
    }
}

impl<
    A: SampleBufferMut,
    B: SampleBufferMut<Item = A::Item>,
    C: SampleBufferMut<Item = A::Item>,
    D: SampleBufferMut<Item = A::Item>,
> SampleBufferMut for Packed24<A, B, C, D> {
    type Item = A::Item;

    open spec fn wf(&self) -> bool {
        match self {
            Packed24::LE3B(inner) => inner.wf(),
            Packed24::BE3B(inner) => inner.wf(),
            Packed24::LE4B(inner) => inner.wf(),
            Packed24::BE4B(inner) => inner.wf(),
        }
    }

    open spec fn grid(&self) -> Grid<A::Item> {
        match self {
            Packed24::LE3B(inner) => inner.grid(),
            Packed24::BE3B(inner) => inner.grid(),
            Packed24::LE4B(inner) => inner.grid(),
            Packed24::BE4B(inner) => inner.grid(),
        }
    }

    proof fn lemma_shape(&self) {
        match self {
            Packed24::LE3B(inner) => inner.lemma_shape(),
            Packed24::BE3B(inner) => inner.lemma_shape(),
            Packed24::LE4B(inner) => inner.lemma_shape(),
            Packed24::BE4B(inner) => inner.lemma_shape(),
        }
    }

    fn frame_count(&self) -> (n: FrameIndex) {
        match self {
            Packed24::LE3B(inner) => inner.frame_count(),
            Packed24::BE3B(inner) => inner.frame_count(),
            Packed24::LE4B(inner) => inner.frame_count(),
            Packed24::BE4B(inner) => inner.frame_count(),
        }
    }

    fn write_frame(&mut self, index: FrameIndex, frame: &[A::Item]) {
        match self {
            Packed24::LE3B(inner) => inner.write_frame(index, frame),
            Packed24::BE3B(inner) => inner.write_frame(index, frame),
            Packed24::LE4B(inner) => inner.write_frame(index, frame),
            Packed24::BE4B(inner) => inner.write_frame(index, frame),
        }
    }

    fn write_frames(&mut self, frames: &[Vec<A::Item>]) {
        match self {
            Packed24::LE3B(inner) => inner.write_frames(frames),
            Packed24::BE3B(inner) => inner.write_frames(frames),
            Packed24::LE4B(inner) => inner.write_frames(frames),
            Packed24::BE4B(inner) => inner.write_frames(frames),
        }
    }

    fn channel_count(&self) -> (n: ChannelCount) {
        match self {
            Packed24::LE3B(inner) => inner.channel_count(),
            Packed24::BE3B(inner) => inner.channel_count(),
            Packed24::LE4B(inner) => inner.channel_count(),
            Packed24::BE4B(inner) => inner.channel_count(),
        }
    }

    fn write_channel(&mut self, index: ChannelIndex, channel: &[A::Item]) {
        match self {
            Packed24::LE3B(inner) => inner.write_channel(index, channel),
            Packed24::BE3B(inner) => inner.write_channel(index, channel),
            Packed24::LE4B(inner) => inner.write_channel(index, channel),
            Packed24::BE4B(inner) => inner.write_channel(index, channel),
        }
    }

    fn write_channels(&mut self, channels: &[Vec<A::Item>]) {
        match self {
            Packed24::LE3B(inner) => inner.write_channels(channels),
            Packed24::BE3B(inner) => inner.write_channels(channels),
            Packed24::LE4B(inner) => inner.write_channels(channels),
            Packed24::BE4B(inner) => inner.write_channels(channels),
        }
    }

    fn write_sample(&mut self, address: SampleAddress, sample: A::Item) {
        match self {
            Packed24::LE3B(inner) => inner.write_sample(address, sample),
            Packed24::BE3B(inner) => inner.write_sample(address, sample),
            Packed24::LE4B(inner) => inner.write_sample(address, sample),
            Packed24::BE4B(inner) => inner.write_sample(address, sample),
        }
    }

    fn write_samples_interleaved(&mut self, samples: &[A::Item]) {
        match self {
            Packed24::LE3B(inner) => inner.write_samples_interleaved(samples),
            Packed24::BE3B(inner) => inner.write_samples_interleaved(samples),
            Packed24::LE4B(inner) => inner.write_samples_interleaved(samples),
            Packed24::BE4B(inner) => inner.write_samples_interleaved(samples),
        }
    }

    fn write_samples_separated(&mut self, samples: &[A::Item]) {
        match self {
            Packed24::LE3B(inner) => inner.write_samples_separated(samples),
            Packed24::BE3B(inner) => inner.write_samples_separated(samples),
            Packed24::LE4B(inner) => inner.write_samples_separated(samples),
            Packed24::BE4B(inner) => inner.write_samples_separated(samples),
        }
    }
}

} // verus!
