//! The mathematical model of a sample buffer.
use crate::buffers::chunks::{chunk_count, chunked, lemma_chunk_count};
use crate::buffers::SampleAddress;
use vstd::arithmetic::div_mod::{lemma_fundamental_div_mod, lemma_fundamental_div_mod_converse};
use vstd::prelude::*;

verus! {

/// A grid of samples: `channels[c][f]` is the sample of channel `c` at frame
/// `f`. The number of frames stands beside the channels, so that a grid
/// without channels still has a length.
#[verifier::ext_equal]
pub struct Grid<S> {
    pub frames: nat,
    pub channels: Seq<Seq<S>>,
}

impl<S> Grid<S> {
    /// Every channel has one sample per frame.
    pub open spec fn wf(self) -> bool {
        forall|c: int| 0 <= c < self.channels.len() ==> (#[trigger] self.channels[c]).len() == self.frames
    }

    /// Number of channels.
    pub open spec fn channel_count(self) -> nat {
        self.channels.len()
    }

    /// Number of samples.
    pub open spec fn size(self) -> nat {
        self.frames * self.channels.len()
    }

    /// Whether `(channel, frame)` is a coordinate of the grid.
    pub open spec fn has(self, channel: int, frame: int) -> bool {
        0 <= channel < self.channels.len() && 0 <= frame < self.frames
    }

    /// The sample of `channel` at `frame`.
    pub open spec fn at(self, channel: int, frame: int) -> S {
        self.channels[channel][frame]
    }

    /// The samples of one frame, by channel.
    pub open spec fn frame(self, frame: int) -> Seq<S> {
        Seq::new(self.channels.len(), |c: int| self.channels[c][frame])
    }

    /// The samples of one channel, by frame.
    pub open spec fn channel(self, channel: int) -> Seq<S> {
        self.channels[channel]
    }

    /// All frames, in frame order.
    pub open spec fn all_frames(self) -> Seq<Seq<S>> {
        Seq::new(self.frames, |f: int| self.frame(f))
    }

    /// The channel of the sample at position `i` of the frame-major order.
    pub open spec fn interleaved_channel(self, i: int) -> int {
        i % (self.channels.len() as int)
    }

    /// The frame of the sample at position `i` of the frame-major order.
    pub open spec fn interleaved_frame(self, i: int) -> int {
        i / (self.channels.len() as int)
    }

    /// The channel of the sample at position `i` of the channel-major order.
    pub open spec fn separated_channel(self, i: int) -> int {
        i / (self.frames as int)
    }

    /// The frame of the sample at position `i` of the channel-major order.
    pub open spec fn separated_frame(self, i: int) -> int {
        i % (self.frames as int)
    }

    /// All samples in frame-major order: `L0, R0, L1, R1, ..`.
    pub open spec fn interleaved(self) -> Seq<S> {
        Seq::new(
            self.size(),
            |i: int| self.at(self.interleaved_channel(i), self.interleaved_frame(i)),
        )
    }

    /// All samples in channel-major order: `L0, L1, .., R0, R1, ..`.
    pub open spec fn separated(self) -> Seq<S> {
        Seq::new(self.size(), |i: int| self.at(self.separated_channel(i), self.separated_frame(i)))
    }

    /// All samples with their addresses, in frame-major order.
    pub open spec fn addressed_interleaved(self) -> Seq<(SampleAddress, S)> {
        Seq::new(
            self.size(),
            |i: int|
                (
                    SampleAddress {
                        channel: self.interleaved_channel(i) as u16,
                        frame: self.interleaved_frame(i) as u32,
                    },
                    self.at(self.interleaved_channel(i), self.interleaved_frame(i)),
                ),
        )
    }

    /// All samples with their addresses, in channel-major order.
    pub open spec fn addressed_separated(self) -> Seq<(SampleAddress, S)> {
        Seq::new(
            self.size(),
            |i: int|
                (
                    SampleAddress {
                        channel: self.separated_channel(i) as u16,
                        frame: self.separated_frame(i) as u32,
                    },
                    self.at(self.separated_channel(i), self.separated_frame(i)),
                ),
        )
    }

    /// The grid in which the sample at every coordinate that `written` holds
    /// of is `value` of that coordinate, and every other sample is as before.
    pub open spec fn replaced(
        self,
        written: spec_fn(int, int) -> bool,
        value: spec_fn(int, int) -> S,
    ) -> Grid<S> {
        Grid {
            frames: self.frames,
            channels: Seq::new(
                self.channels.len(),
                |c: int|
                    Seq::new(
                        self.channels[c].len(),
                        |f: int|
                            if written(c, f) {
                                value(c, f)
                            } else {
                                self.channels[c][f]
                            },
                    ),
            ),
        }
    }

    /// The grid after one sample was written.
    pub open spec fn with_sample(self, channel: int, frame: int, value: S) -> Grid<S> {
        self.replaced(|c: int, f: int| c == channel && f == frame, |c: int, f: int| value)
    }

    /// The grid after `values` were written into frame `frame`, one per
    /// channel from channel 0 on. Channels beyond the values keep their
    /// sample; values beyond the channels are dropped.
    pub open spec fn with_frame(self, frame: int, values: Seq<S>) -> Grid<S> {
        self.replaced(|c: int, f: int| f == frame && c < values.len(), |c: int, f: int| values[c])
    }

    /// The grid after `values` were written into channel `channel`, one per
    /// frame from frame 0 on, the shorter side deciding.
    pub open spec fn with_channel(self, channel: int, values: Seq<S>) -> Grid<S> {
        self.replaced(
            |c: int, f: int| c == channel && f < values.len(),
            |c: int, f: int| values[f],
        )
    }

    /// The grid after `frames` were written, frame by frame from frame 0 on,
    /// each as `with_frame` does.
    pub open spec fn with_frames(self, frames: Seq<Seq<S>>) -> Grid<S> {
        self.replaced(
            |c: int, f: int| f < frames.len() && c < frames[f].len(),
            |c: int, f: int| frames[f][c],
        )
    }

    /// The grid after `channels` were written, channel by channel from
    /// channel 0 on, each as `with_channel` does.
    pub open spec fn with_channels(self, channels: Seq<Seq<S>>) -> Grid<S> {
        self.replaced(
            |c: int, f: int| c < channels.len() && f < channels[c].len(),
            |c: int, f: int| channels[c][f],
        )
    }

    /// The grid after `values` were written in frame-major order, as far as
    /// they reach.
    pub open spec fn with_interleaved(self, values: Seq<S>) -> Grid<S> {
        self.replaced(
            |c: int, f: int| f * self.channels.len() + c < values.len(),
            |c: int, f: int| values[f * self.channels.len() + c],
        )
    }

    /// The grid after `values` were written in channel-major order, as far as
    /// they reach.
    pub open spec fn with_separated(self, values: Seq<S>) -> Grid<S> {
        self.replaced(
            |c: int, f: int| c * self.frames + f < values.len(),
            |c: int, f: int| values[c * self.frames + f],
        )
    }
}

/// In a row-major walk over `outer_len` rows of `inner_len` items, the item
/// `inner` of row `outer` stands at position `outer * inner_len + inner`, and
/// that position gives the two coordinates back.
pub proof fn lemma_position(outer: int, inner: int, outer_len: int, inner_len: int)
    requires
        0 <= outer < outer_len,
        0 <= inner < inner_len,
    ensures
        0 <= outer * inner_len + inner < outer_len * inner_len,
        (outer * inner_len + inner) / inner_len == outer,
        (outer * inner_len + inner) % inner_len == inner,
{
    assert(0 <= outer * inner_len) by (nonlinear_arith)
        requires
            0 <= outer,
            0 <= inner_len,
    ;
    assert(outer * inner_len + inner_len <= outer_len * inner_len) by (nonlinear_arith)
        requires
            outer + 1 <= outer_len,
            0 <= inner_len,
    ;
    lemma_fundamental_div_mod_converse(outer * inner_len + inner, inner_len, outer, inner);
}

/// Every position of a row-major walk over `outer_len` rows of `inner_len`
/// items has coordinates within the rows and the items.
pub proof fn lemma_coordinates(i: int, outer_len: int, inner_len: int)
    requires
        0 <= outer_len,
        0 <= inner_len,
        0 <= i < outer_len * inner_len,
    ensures
        0 < inner_len,
        0 <= i / inner_len < outer_len,
        0 <= i % inner_len < inner_len,
        i == (i / inner_len) * inner_len + i % inner_len,
{
    assert(inner_len != 0) by (nonlinear_arith)
        requires
            0 <= i < outer_len * inner_len,
    ;
    lemma_fundamental_div_mod(i, inner_len);
    let q = i / inner_len;
    assert(inner_len * q == q * inner_len) by (nonlinear_arith);
    assert(0 <= q) by (nonlinear_arith)
        requires
            0 <= i,
            0 < inner_len,
            i == q * inner_len + i % inner_len,
            i % inner_len < inner_len,
    ;
    assert(q < outer_len) by (nonlinear_arith)
        requires
            i < outer_len * inner_len,
            0 < inner_len,
            i == q * inner_len + i % inner_len,
            0 <= i % inner_len,
    ;
}

/// Where a run of samples is cut into rows of `inner_len` items, item `inner`
/// of row `outer` exists exactly if its position lies within the run, and it
/// is the sample at that position.
pub proof fn lemma_chunked_item<S>(values: Seq<S>, inner_len: nat, outer: int, inner: int)
    requires
        inner_len > 0,
        0 <= outer,
        0 <= inner < inner_len,
    ensures
        (outer < chunked(values, inner_len).len() && inner < chunked(values, inner_len)[outer].len())
            <==> outer * inner_len + inner < values.len(),
        outer * inner_len + inner < values.len() ==> chunked(values, inner_len)[outer][inner]
            == values[outer * inner_len + inner],
{
    let n = chunk_count(values.len(), inner_len);
    lemma_chunk_count(values.len(), inner_len);
    assert((outer + 1) * inner_len == outer * inner_len + inner_len) by (nonlinear_arith);
    assert(0 <= outer * inner_len) by (nonlinear_arith)
        requires
            0 <= outer,
    ;
    if outer < n {
        assert(outer * inner_len <= (n - 1) * inner_len) by (nonlinear_arith)
            requires
                outer <= n - 1,
        ;
    } else {
        assert(n * inner_len <= outer * inner_len) by (nonlinear_arith)
            requires
                n <= outer,
        ;
    }
}

/// Writing a run of samples channel by channel, cut into channels of one
/// sample per frame, is writing it in channel-major order.
pub proof fn lemma_chunked_channels<S>(grid: Grid<S>, values: Seq<S>)
    requires
        grid.wf(),
        grid.frames > 0,
    ensures
        grid.with_channels(chunked(values, grid.frames)) == grid.with_separated(values),
{
    let by_channel = grid.with_channels(chunked(values, grid.frames));
    let by_order = grid.with_separated(values);
    assert forall|c: int| 0 <= c < grid.channels.len() implies #[trigger] by_channel.channels[c]
        =~= by_order.channels[c] by {
        assert(grid.channels[c].len() == grid.frames);
        assert forall|f: int| 0 <= f < grid.frames implies by_channel.channels[c][f]
            == by_order.channels[c][f] by {
            lemma_chunked_item(values, grid.frames, c, f);
        }
    }
    assert(by_channel =~~= by_order);
}

/// Writing a run of samples frame by frame, cut into frames of one sample
/// per channel, is writing it in frame-major order.
pub proof fn lemma_chunked_frames<S>(grid: Grid<S>, values: Seq<S>)
    requires
        grid.wf(),
        grid.channel_count() > 0,
    ensures
        grid.with_frames(chunked(values, grid.channel_count())) == grid.with_interleaved(values),
{
    let by_frame = grid.with_frames(chunked(values, grid.channel_count()));
    let by_order = grid.with_interleaved(values);
    assert forall|c: int| 0 <= c < grid.channels.len() implies #[trigger] by_frame.channels[c]
        =~= by_order.channels[c] by {
        assert(grid.channels[c].len() == grid.frames);
        assert forall|f: int| 0 <= f < grid.frames implies by_frame.channels[c][f]
            == by_order.channels[c][f] by {
            lemma_chunked_item(values, grid.channel_count(), f, c);
        }
    }
    assert(by_frame =~~= by_order);
}

/// Writing one more sample of a frame-major run is writing the sample at
/// the coordinates of its position.
pub proof fn lemma_with_interleaved_step<S>(grid: Grid<S>, values: Seq<S>, position: int)
    requires
        grid.wf(),
        0 <= position < values.len(),
        position < grid.size(),
    ensures
        grid.has(grid.interleaved_channel(position), grid.interleaved_frame(position)),
        grid.with_interleaved(values.take(position)).with_sample(
            grid.interleaved_channel(position),
            grid.interleaved_frame(position),
            values[position],
        ) == grid.with_interleaved(values.take(position + 1)),
{
    let channels = grid.channels.len() as int;
    let channel = grid.interleaved_channel(position);
    let frame = grid.interleaved_frame(position);
    lemma_coordinates(position, grid.frames as int, channels);
    let stepped = grid.with_interleaved(values.take(position)).with_sample(
        channel,
        frame,
        values[position],
    );
    let expected = grid.with_interleaved(values.take(position + 1));
    assert forall|c: int| 0 <= c < channels implies #[trigger] stepped.channels[c]
        =~= expected.channels[c] by {
        assert(grid.channels[c].len() == grid.frames);
        assert forall|f: int| 0 <= f < grid.frames implies stepped.channels[c][f]
            == expected.channels[c][f] by {
            lemma_position(f, c, grid.frames as int, channels);
        }
    }
    assert(stepped =~~= expected);
}

/// Samples of a frame-major run beyond the size of the grid are dropped.
pub proof fn lemma_with_interleaved_prefix<S>(grid: Grid<S>, values: Seq<S>, count: int)
    requires
        grid.wf(),
        0 <= count <= values.len(),
        count == values.len() || count >= grid.size(),
    ensures
        grid.with_interleaved(values.take(count)) == grid.with_interleaved(values),
{
    let channels = grid.channels.len() as int;
    let cut = grid.with_interleaved(values.take(count));
    let whole = grid.with_interleaved(values);
    assert forall|c: int| 0 <= c < channels implies #[trigger] cut.channels[c]
        =~= whole.channels[c] by {
        assert(grid.channels[c].len() == grid.frames);
        assert forall|f: int| 0 <= f < grid.frames implies cut.channels[c][f]
            == whole.channels[c][f] by {
            lemma_position(f, c, grid.frames as int, channels);
        }
    }
    assert(cut =~~= whole);
}

/// A write changes samples, never the shape of the grid.
pub proof fn lemma_replaced_shape<S>(
    grid: Grid<S>,
    written: spec_fn(int, int) -> bool,
    value: spec_fn(int, int) -> S,
)
    requires
        grid.wf(),
    ensures
        grid.replaced(written, value).wf(),
        grid.replaced(written, value).frames == grid.frames,
        grid.replaced(written, value).channel_count() == grid.channel_count(),
        grid.replaced(written, value).size() == grid.size(),
        forall|c: int, f: int|
            grid.has(c, f) ==> #[trigger] grid.replaced(written, value).at(c, f) == if written(c, f) {
                value(c, f)
            } else {
                grid.at(c, f)
            },
{
    let after = grid.replaced(written, value);
    assert forall|c: int| 0 <= c < after.channels.len() implies (#[trigger] after.channels[c]).len()
        == after.frames by {
        assert(grid.channels[c].len() == grid.frames);
    }
    assert forall|c: int, f: int| grid.has(c, f) implies #[trigger] after.at(c, f) == if written(
        c,
        f,
    ) {
        value(c, f)
    } else {
        grid.at(c, f)
    } by {
        assert(grid.channels[c].len() == grid.frames);
    }
}

/// Reading in frame-major order what was written in frame-major order gives
/// the written samples back, as far as they reached; the samples beyond them
/// are as before. A pattern of exactly the size of the grid is read back
/// whole.
pub proof fn lemma_interleaved_write_read<S>(grid: Grid<S>, values: Seq<S>)
    requires
        grid.wf(),
    ensures
        grid.with_interleaved(values).interleaved().len() == grid.size(),
        forall|i: int|
            0 <= i < grid.size() ==> #[trigger] grid.with_interleaved(values).interleaved()[i] == if i
                < values.len() {
                values[i]
            } else {
                grid.interleaved()[i]
            },
        values.len() == grid.size() ==> grid.with_interleaved(values).interleaved() == values,
{
    let after = grid.with_interleaved(values);
    let channels = grid.channels.len() as int;
    assert forall|i: int| 0 <= i < grid.size() implies #[trigger] after.interleaved()[i] == if i
        < values.len() {
        values[i]
    } else {
        grid.interleaved()[i]
    } by {
        lemma_coordinates(i, grid.frames as int, channels);
        assert(grid.channels[i % channels].len() == grid.frames);
    }
    if values.len() == grid.size() {
        assert(after.interleaved() =~= values);
    }
}

/// Reading in channel-major order what was written in channel-major order
/// gives the written samples back, as far as they reached; the samples
/// beyond them are as before. A pattern of exactly the size of the grid is
/// read back whole.
pub proof fn lemma_separated_write_read<S>(grid: Grid<S>, values: Seq<S>)
    requires
        grid.wf(),
    ensures
        grid.with_separated(values).separated().len() == grid.size(),
        forall|i: int|
            0 <= i < grid.size() ==> #[trigger] grid.with_separated(values).separated()[i] == if i
                < values.len() {
                values[i]
            } else {
                grid.separated()[i]
            },
        values.len() == grid.size() ==> grid.with_separated(values).separated() == values,
{
    let after = grid.with_separated(values);
    let channels = grid.channels.len() as int;
    assert(grid.frames * grid.channels.len() == channels * grid.frames) by (nonlinear_arith)
        requires
            channels == grid.channels.len(),
    ;
    assert forall|i: int| 0 <= i < grid.size() implies #[trigger] after.separated()[i] == if i
        < values.len() {
        values[i]
    } else {
        grid.separated()[i]
    } by {
        lemma_coordinates(i, channels, grid.frames as int);
        assert(grid.channels[i / (grid.frames as int)].len() == grid.frames);
    }
    if values.len() == grid.size() {
        assert(after.separated() =~= values);
    }
}

/// Writing a frame touches that frame alone, and of it only as many channels
/// as values were given: the channels beyond them keep their sample, and the
/// values beyond the channels are dropped.
pub proof fn lemma_with_frame_truncates<S>(grid: Grid<S>, frame: int, values: Seq<S>)
    requires
        grid.wf(),
        0 <= frame < grid.frames,
    ensures
        grid.with_frame(frame, values).wf(),
        forall|c: int|
            0 <= c < grid.channel_count() && c < values.len() ==> #[trigger] grid.with_frame(
                frame,
                values,
            ).at(c, frame) == values[c],
        forall|c: int|
            values.len() <= c < grid.channel_count() ==> #[trigger] grid.with_frame(frame, values).at(
                c,
                frame,
            ) == grid.at(c, frame),
        forall|c: int, f: int|
            grid.has(c, f) && f != frame ==> #[trigger] grid.with_frame(frame, values).at(c, f)
                == grid.at(c, f),
        grid.with_frame(frame, values) == grid.with_frame(
            frame,
            values.take(
                if values.len() <= grid.channel_count() {
                    values.len() as int
                } else {
                    grid.channel_count() as int
                },
            ),
        ),
{
    lemma_replaced_shape(
        grid,
        |c: int, f: int| f == frame && c < values.len(),
        |c: int, f: int| values[c],
    );
    let kept = if values.len() <= grid.channel_count() {
        values.len() as int
    } else {
        grid.channel_count() as int
    };
    assert(grid.with_frame(frame, values) =~~= grid.with_frame(frame, values.take(kept)));
}

/// Writing frames stops at the end of the shorter of the input and the
/// buffer: frames supplied beyond the frame count are dropped, and frames of
/// the buffer beyond the input are as before.
pub proof fn lemma_with_frames_truncates<S>(grid: Grid<S>, frames: Seq<Seq<S>>)
    requires
        grid.wf(),
    ensures
        grid.with_frames(frames).wf(),
        frames.len() >= grid.frames ==> grid.with_frames(frames) == grid.with_frames(
            frames.take(grid.frames as int),
        ),
        forall|c: int, f: int|
            grid.has(c, f) && f >= frames.len() ==> #[trigger] grid.with_frames(frames).at(c, f)
                == grid.at(c, f),
        forall|f: int|
            0 <= f < grid.frames && f < frames.len() ==> #[trigger] grid.with_frames(frames).frame(f)
                == grid.with_frame(f, frames[f]).frame(f),
{
    lemma_replaced_shape(
        grid,
        |c: int, f: int| f < frames.len() && c < frames[f].len(),
        |c: int, f: int| frames[f][c],
    );
    if frames.len() >= grid.frames {
        assert(grid.with_frames(frames) =~~= grid.with_frames(frames.take(grid.frames as int)));
    }
    assert forall|f: int| 0 <= f < grid.frames && f < frames.len() implies #[trigger] grid.with_frames(
        frames,
    ).frame(f) == grid.with_frame(f, frames[f]).frame(f) by {
        assert forall|c: int| 0 <= c < grid.channels.len() implies grid.with_frames(frames).frame(
            f,
        )[c] == grid.with_frame(f, frames[f]).frame(f)[c] by {
            assert(grid.channels[c].len() == grid.frames);
        }
        assert(grid.with_frames(frames).frame(f) =~= grid.with_frame(f, frames[f]).frame(f));
    }
}

/// The frame-major walk over the addressed samples visits every coordinate
/// of the grid exactly once, each with its sample.
pub proof fn lemma_addressed_interleaved_complete<S>(grid: Grid<S>)
    requires
        grid.wf(),
        grid.frames <= u32::MAX,
        grid.channel_count() <= u16::MAX,
    ensures
        grid.addressed_interleaved().len() == grid.size(),
        forall|i: int|
            0 <= i < grid.size() ==> {
                let (address, sample) = #[trigger] grid.addressed_interleaved()[i];
                grid.has(address.channel as int, address.frame as int) && sample == grid.at(
                    address.channel as int,
                    address.frame as int,
                )
            },
        forall|i: int, j: int|
            0 <= i < j < grid.size() ==> (#[trigger] grid.addressed_interleaved()[i]).0
                != (#[trigger] grid.addressed_interleaved()[j]).0,
        forall|c: int, f: int| #[trigger]
            grid.has(c, f) ==> 0 <= f * grid.channel_count() + c < grid.size()
                && grid.addressed_interleaved()[f * grid.channel_count() + c].0 == (SampleAddress {
                channel: c as u16,
                frame: f as u32,
            }),
{
    let channels = grid.channels.len() as int;
    let walk = grid.addressed_interleaved();
    assert forall|i: int| 0 <= i < grid.size() implies {
        let (address, sample) = #[trigger] walk[i];
        grid.has(address.channel as int, address.frame as int) && sample == grid.at(
            address.channel as int,
            address.frame as int,
        )
    } by {
        lemma_coordinates(i, grid.frames as int, channels);
    }
    assert forall|i: int, j: int| 0 <= i < j < grid.size() implies (#[trigger] walk[i]).0
        != (#[trigger] walk[j]).0 by {
        lemma_coordinates(i, grid.frames as int, channels);
        lemma_coordinates(j, grid.frames as int, channels);
    }
    assert forall|c: int, f: int| #[trigger] grid.has(c, f) implies 0 <= f * grid.channel_count() + c
        < grid.size() && walk[f * grid.channel_count() + c].0 == (SampleAddress {
        channel: c as u16,
        frame: f as u32,
    }) by {
        lemma_position(f, c, grid.frames as int, channels);
    }
}

/// The channel-major walk over the addressed samples visits every coordinate
/// of the grid exactly once, each with its sample.
pub proof fn lemma_addressed_separated_complete<S>(grid: Grid<S>)
    requires
        grid.wf(),
        grid.frames <= u32::MAX,
        grid.channel_count() <= u16::MAX,
    ensures
        grid.addressed_separated().len() == grid.size(),
        forall|i: int|
            0 <= i < grid.size() ==> {
                let (address, sample) = #[trigger] grid.addressed_separated()[i];
                grid.has(address.channel as int, address.frame as int) && sample == grid.at(
                    address.channel as int,
                    address.frame as int,
                )
            },
        forall|i: int, j: int|
            0 <= i < j < grid.size() ==> (#[trigger] grid.addressed_separated()[i]).0
                != (#[trigger] grid.addressed_separated()[j]).0,
        forall|c: int, f: int| #[trigger]
            grid.has(c, f) ==> 0 <= c * grid.frames + f < grid.size() && grid.addressed_separated()[c
                * grid.frames + f].0 == (SampleAddress { channel: c as u16, frame: f as u32 }),
{
    let channels = grid.channels.len() as int;
    let frames = grid.frames as int;
    let walk = grid.addressed_separated();
    assert(grid.frames * grid.channels.len() == channels * frames) by (nonlinear_arith)
        requires
            channels == grid.channels.len(),
            frames == grid.frames,
    ;
    assert forall|i: int| 0 <= i < grid.size() implies {
        let (address, sample) = #[trigger] walk[i];
        grid.has(address.channel as int, address.frame as int) && sample == grid.at(
            address.channel as int,
            address.frame as int,
        )
    } by {
        lemma_coordinates(i, channels, frames);
    }
    assert forall|i: int, j: int| 0 <= i < j < grid.size() implies (#[trigger] walk[i]).0
        != (#[trigger] walk[j]).0 by {
        lemma_coordinates(i, channels, frames);
        lemma_coordinates(j, channels, frames);
    }
    assert forall|c: int, f: int| #[trigger] grid.has(c, f) implies 0 <= c * grid.frames + f
        < grid.size() && walk[c * grid.frames + f].0 == (SampleAddress {
        channel: c as u16,
        frame: f as u32,
    }) by {
        lemma_position(c, f, channels, frames);
    }
}

} // verus!
