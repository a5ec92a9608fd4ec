//! The traversal orders of a grid hold the same samples.
//!
//! Whatever the order in which the samples of a buffer are read, each sample
//! is read the same number of times: the multisets of the frame-major order,
//! of the channel-major order and of the order of the layout are one and the
//! same.
use crate::buffers::grid::{lemma_coordinates, lemma_position, Grid};
use vstd::multiset::Multiset;
use vstd::prelude::*;
use vstd::seq_lib::{lemma_multiset_commutative, to_multiset_build};

verus! {

/// The samples of all rows together, each as often as it occurs.
pub open spec fn total<S>(rows: Seq<Seq<S>>) -> Multiset<S>
    decreases rows.len(),
{
    if rows.len() == 0 {
        Multiset::empty()
    } else {
        total(rows.drop_last()).add(rows.last().to_multiset())
    }
}

/// The grid whose channels are the frames of `grid`.
pub open spec fn transposed<S>(grid: Grid<S>) -> Grid<S> {
    Grid { frames: grid.channels.len(), channels: grid.all_frames() }
}

/// A sequence without items holds no samples.
proof fn lemma_empty_holds_nothing<S>(items: Seq<S>)
    requires
        items.len() == 0,
    ensures
        items.to_multiset() == Multiset::<S>::empty(),
{
    broadcast use vstd::seq_lib::group_to_multiset_ensures;

    assert(items.to_multiset().len() == 0);
    assert(items.to_multiset() =~= Multiset::<S>::empty());
}

/// Rows without items hold no samples.
proof fn lemma_total_of_empty_rows<S>(rows: Seq<Seq<S>>)
    requires
        forall|r: int| 0 <= r < rows.len() ==> (#[trigger] rows[r]).len() == 0,
    ensures
        total(rows) == Multiset::<S>::empty(),
    decreases rows.len(),
{
    if rows.len() > 0 {
        lemma_total_of_empty_rows(rows.drop_last());
        lemma_empty_holds_nothing(rows.last());
        assert(total(rows) =~= Multiset::<S>::empty());
    }
}

/// Appending one item of a column to each row adds the samples of the
/// column.
proof fn lemma_total_with_column<S>(before: Seq<Seq<S>>, column: Seq<S>, after: Seq<Seq<S>>)
    requires
        before.len() == column.len(),
        after.len() == column.len(),
        forall|r: int| 0 <= r < column.len() ==> #[trigger] after[r] == before[r].push(column[r]),
    ensures
        total(after) == total(before).add(column.to_multiset()),
    decreases column.len(),
{
    if column.len() == 0 {
        lemma_empty_holds_nothing(column);
        assert(after =~= before);
        assert(total(after) =~= total(before).add(column.to_multiset()));
    } else {
        let last = column.len() - 1;
        lemma_total_with_column(before.drop_last(), column.drop_last(), after.drop_last());
        assert(after.last() == before.last().push(column.last()));
        to_multiset_build(before.last(), column.last());
        to_multiset_build(column.drop_last(), column.last());
        assert(column.drop_last().push(column.last()) =~= column);
        assert(total(after) =~= total(before).add(column.to_multiset()));
    }
}

/// Summing by channels and summing by frames count the same samples.
proof fn lemma_total_transposed<S>(grid: Grid<S>)
    requires
        grid.wf(),
    ensures
        total(grid.channels) == total(grid.all_frames()),
    decreases grid.channels.len(),
{
    if grid.channels.len() == 0 {
        lemma_total_of_empty_rows(grid.all_frames());
    } else {
        let fewer = Grid { frames: grid.frames, channels: grid.channels.drop_last() };
        let column = grid.channels.last();
        lemma_total_transposed(fewer);
        assert forall|f: int| 0 <= f < column.len() implies #[trigger] grid.all_frames()[f]
            == fewer.all_frames()[f].push(column[f]) by {
            assert(grid.all_frames()[f] =~= fewer.all_frames()[f].push(column[f]));
        }
        lemma_total_with_column(fewer.all_frames(), column, grid.all_frames());
    }
}

/// The channel-major order is the channels one after another.
proof fn lemma_separated_total<S>(grid: Grid<S>)
    requires
        grid.wf(),
    ensures
        grid.separated().to_multiset() == total(grid.channels),
    decreases grid.channels.len(),
{
    let channels = grid.channels.len() as int;
    let frames = grid.frames as int;
    if channels == 0 {
        lemma_empty_holds_nothing(grid.separated());
    } else {
        let fewer = Grid { frames: grid.frames, channels: grid.channels.drop_last() };
        lemma_separated_total(fewer);
        assert(frames * channels == channels * frames) by (nonlinear_arith);
        assert(frames * (channels - 1) == (channels - 1) * frames) by (nonlinear_arith);
        assert((channels - 1) * frames + frames == channels * frames) by (nonlinear_arith);
        let joined = fewer.separated() + grid.channels.last();
        assert(grid.channels.last().len() == frames);
        assert forall|i: int| 0 <= i < grid.size() implies grid.separated()[i] == joined[i] by {
            lemma_coordinates(i, channels, frames);
            if i < (channels - 1) * frames {
                lemma_coordinates(i, channels - 1, frames);
            } else {
                lemma_position(channels - 1, i - (channels - 1) * frames, channels, frames);
            }
        }
        assert(grid.separated() =~= joined);
        lemma_multiset_commutative(fewer.separated(), grid.channels.last());
    }
}

/// The frame-major order of a grid is the channel-major order of the grid
/// with channels and frames exchanged.
proof fn lemma_interleaved_is_separated_transposed<S>(grid: Grid<S>)
    requires
        grid.wf(),
    ensures
        transposed(grid).wf(),
        grid.interleaved() == transposed(grid).separated(),
{
    let channels = grid.channels.len() as int;
    let frames = grid.frames as int;
    let turned = transposed(grid);
    assert(frames * channels == channels * frames) by (nonlinear_arith);
    assert forall|i: int| 0 <= i < grid.size() implies grid.interleaved()[i]
        == turned.separated()[i] by {
        lemma_coordinates(i, frames, channels);
    }
    assert(grid.interleaved() =~= turned.separated());
}

/// The frame-major order and the channel-major order of a grid hold the same
/// samples, each as often as the other.
pub proof fn lemma_orders_hold_the_same_samples<S>(grid: Grid<S>)
    requires
        grid.wf(),
    ensures
        grid.interleaved().to_multiset() == grid.separated().to_multiset(),
{
    lemma_interleaved_is_separated_transposed(grid);
    lemma_separated_total(transposed(grid));
    lemma_total_transposed(grid);
    lemma_separated_total(grid);
}

/// The samples of the walk with addresses are those of the walk without, in
/// either order, so that every way of reading all samples of a buffer reads
/// the same multiset.
pub proof fn lemma_addressed_orders_hold_the_same_samples<S>(grid: Grid<S>)
    requires
        grid.wf(),
    ensures
        grid.addressed_interleaved().map_values(|item: (crate::buffers::SampleAddress, S)| item.1)
            == grid.interleaved(),
        grid.addressed_separated().map_values(|item: (crate::buffers::SampleAddress, S)| item.1)
            == grid.separated(),
        grid.addressed_interleaved().map_values(
            |item: (crate::buffers::SampleAddress, S)| item.1,
        ).to_multiset() == grid.addressed_separated().map_values(
            |item: (crate::buffers::SampleAddress, S)| item.1,
        ).to_multiset(),
        grid.addressed_interleaved().map_values(
            |item: (crate::buffers::SampleAddress, S)| item.1,
        ).to_multiset() == grid.separated().to_multiset(),
{
    assert(grid.addressed_interleaved().map_values(
        |item: (crate::buffers::SampleAddress, S)| item.1,
    ) =~= grid.interleaved());
    assert(grid.addressed_separated().map_values(|item: (crate::buffers::SampleAddress, S)| item.1)
        =~= grid.separated());
    lemma_orders_hold_the_same_samples(grid);
}

} // verus!
