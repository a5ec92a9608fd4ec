use sample_buffers::buffers::interleaved::{InterleavedBuffer, InterleavedBufferMut};
use sample_buffers::buffers::separated::{SeparatedBuffer, SeparatedBufferMut};
use sample_buffers::buffers::{
    Cursor, Run, Runs, SampleAddress, SampleBuffer, SampleBufferMut, SampleSlice,
};
use sample_buffers::types::i16::{BE, LE};
use sample_buffers::types::{i24, u8 as w8, RawSample};

fn drain<C: Cursor>(mut cursor: C) -> Vec<C::Item> {
    let mut items = Vec::new();
    while let Some(item) = cursor.next() {
        items.push(item);
    }
    assert!(cursor.next().is_none());
    items
}

fn drain_runs<R: Runs>(mut runs: R) -> Vec<Vec<<R::Run as Run>::Item>> {
    let mut rows = Vec::new();
    while let Some(run) = runs.next() {
        rows.push(drain(run.into_iter()));
    }
    assert!(runs.next().is_none());
    rows
}

fn address(channel: u16, frame: u32) -> SampleAddress {
    SampleAddress { channel, frame }
}

const INTERLEAVED: [u8; 16] = [1, 0, 2, 0, 3, 0, 4, 0, 5, 0, 6, 0, 7, 0, 8, 0];
const LEFT: [u8; 8] = [1, 0, 3, 0, 5, 0, 7, 0];
const RIGHT: [u8; 8] = [2, 0, 4, 0, 6, 0, 8, 0];

#[test]
fn interleaved_scenario() {
    let buffer = InterleavedBuffer::<LE>::new(&INTERLEAVED, 4, 2);
    assert_eq!(buffer.frame_count(), 4);
    assert_eq!(buffer.channel_count(), 2);
    assert_eq!(drain(buffer.channel(0).into_iter()), vec![1, 3, 5, 7]);
    assert_eq!(drain(buffer.channel(1).into_iter()), vec![2, 4, 6, 8]);
    assert_eq!(drain(buffer.samples_interleaved()), vec![1, 2, 3, 4, 5, 6, 7, 8]);
    assert_eq!(drain(buffer.samples_separated()), vec![1, 3, 5, 7, 2, 4, 6, 8]);
    assert_eq!(drain(buffer.frame(0).into_iter()), vec![1, 2]);
    assert_eq!(drain(buffer.frame(3).into_iter()), vec![7, 8]);
    assert_eq!(drain_runs(buffer.frames()), vec![vec![1, 2], vec![3, 4], vec![5, 6], vec![7, 8]]);
    assert_eq!(drain_runs(buffer.channels()), vec![vec![1, 3, 5, 7], vec![2, 4, 6, 8]]);
}

#[test]
fn separated_scenario() {
    let channels: [&[u8]; 2] = [&LEFT, &RIGHT];
    let buffer = SeparatedBuffer::<LE>::new(&channels, 4);
    assert_eq!(buffer.frame_count(), 4);
    assert_eq!(buffer.channel_count(), 2);
    assert_eq!(drain(buffer.samples_interleaved()), vec![1, 2, 3, 4, 5, 6, 7, 8]);
    assert_eq!(drain(buffer.samples_separated()), vec![1, 3, 5, 7, 2, 4, 6, 8]);
    assert_eq!(drain(buffer.channel(0).into_iter()), vec![1, 3, 5, 7]);
    assert_eq!(drain(buffer.channel(1).into_iter()), vec![2, 4, 6, 8]);
    assert_eq!(drain(buffer.frame(2).into_iter()), vec![5, 6]);
    assert_eq!(drain_runs(buffer.frames()), vec![vec![1, 2], vec![3, 4], vec![5, 6], vec![7, 8]]);
    assert_eq!(drain_runs(buffer.channels()), vec![vec![1, 3, 5, 7], vec![2, 4, 6, 8]]);
    let interleaved = InterleavedBuffer::<LE>::new(&INTERLEAVED, 4, 2);
    assert_eq!(drain(buffer.samples_interleaved()), drain(interleaved.samples_interleaved()));
}

#[test]
fn big_endian_reads_the_bytes_the_other_way_round() {
    let buffer = InterleavedBuffer::<BE>::new(&INTERLEAVED, 4, 2);
    assert_eq!(
        drain(buffer.samples_interleaved()),
        vec![0x100, 0x200, 0x300, 0x400, 0x500, 0x600, 0x700, 0x800]
    );
}

#[test]
fn shape_is_checked_at_construction() {
    assert!(InterleavedBuffer::<LE>::try_new(&INTERLEAVED, 4, 2).is_some());
    assert!(InterleavedBuffer::<LE>::try_new(&INTERLEAVED, 2, 4).is_some());
    assert!(InterleavedBuffer::<LE>::try_new(&INTERLEAVED, 8, 1).is_some());
    assert!(InterleavedBuffer::<LE>::try_new(&INTERLEAVED, 4, 1).is_none());
    assert!(InterleavedBuffer::<LE>::try_new(&INTERLEAVED, 3, 2).is_none());
    assert!(InterleavedBuffer::<LE>::try_new(&INTERLEAVED, 5, 2).is_none());
    assert!(InterleavedBuffer::<LE>::try_new(&INTERLEAVED[..15], 4, 2).is_none());
    assert!(InterleavedBuffer::<LE>::try_new(&INTERLEAVED, 0, 0).is_none());
    assert!(InterleavedBuffer::<LE>::try_new(&INTERLEAVED, u32::MAX, u16::MAX).is_none());
    assert!(InterleavedBuffer::<LE>::try_new(&[], 0, 7).is_some());
    assert!(InterleavedBuffer::<LE>::try_new(&[], 7, 0).is_some());
    assert!(InterleavedBuffer::<w8::NE>::try_new(&INTERLEAVED, 8, 2).is_some());
    assert!(InterleavedBuffer::<i24::LE4B>::try_new(&INTERLEAVED, 2, 2).is_some());
    assert!(InterleavedBuffer::<i24::LE3B>::try_new(&INTERLEAVED, 2, 2).is_none());
    let mut bytes = INTERLEAVED;
    assert!(InterleavedBufferMut::<LE>::try_new(&mut bytes, 4, 2).is_some());
    assert!(InterleavedBufferMut::<LE>::try_new(&mut bytes, 4, 3).is_none());

    let channels: [&[u8]; 2] = [&LEFT, &RIGHT];
    assert!(SeparatedBuffer::<LE>::try_new(&channels, 4).is_some());
    assert!(SeparatedBuffer::<LE>::try_new(&channels, 3).is_none());
    assert!(SeparatedBuffer::<LE>::try_new(&channels, 5).is_none());
    let uneven: [&[u8]; 2] = [&LEFT, &RIGHT[..6]];
    assert!(SeparatedBuffer::<LE>::try_new(&uneven, 4).is_none());
    assert!(SeparatedBuffer::<LE>::try_new(&uneven, 3).is_none());
    let none: [&[u8]; 0] = [];
    assert!(SeparatedBuffer::<LE>::try_new(&none, 9).is_some());
    let mut left = LEFT;
    let mut right = RIGHT;
    let mut regions: [&mut [u8]; 2] = [&mut left, &mut right[..4]];
    assert!(SeparatedBufferMut::<LE>::try_new(&mut regions, 4).is_none());
}

#[test]
fn too_many_channels_are_refused() {
    let region: [u8; 0] = [];
    let many: Vec<&[u8]> = vec![&region[..]; 65_536];
    assert!(SeparatedBuffer::<LE>::try_new(&many, 0).is_none());
    let most: Vec<&[u8]> = vec![&region[..]; 65_535];
    let buffer = SeparatedBuffer::<LE>::try_new(&most, 0).expect("fits the channel index");
    assert_eq!(buffer.channel_count(), 65_535);
    assert_eq!(buffer.frame_count(), 0);
    assert!(drain(buffer.samples()).is_empty());
}

fn check_traversal<B: SampleBuffer<Item = i16>>(buffer: &B, frames: u32, channels: u16, at: impl Fn(u16, u32) -> i16) {
    let walk = drain(buffer.samples());
    assert_eq!(walk.len(), frames as usize * channels as usize);
    let mut seen = vec![false; walk.len()];
    for (address, sample) in &walk {
        assert!(address.channel < channels && address.frame < frames);
        let slot = address.frame as usize * channels as usize + address.channel as usize;
        assert!(!seen[slot], "address visited twice");
        seen[slot] = true;
        assert_eq!(*sample, at(address.channel, address.frame));
    }
    assert!(seen.iter().all(|&s| s));

    let mut native: Vec<i16> = walk.iter().map(|(_, s)| *s).collect();
    let mut interleaved = drain(buffer.samples_interleaved());
    let mut separated = drain(buffer.samples_separated());
    for frame in 0..frames {
        for channel in 0..channels {
            let i = frame as usize * channels as usize + channel as usize;
            assert_eq!(interleaved[i], at(channel, frame));
            let j = channel as usize * frames as usize + frame as usize;
            assert_eq!(separated[j], at(channel, frame));
        }
    }
    native.sort();
    interleaved.sort();
    separated.sort();
    assert_eq!(native, interleaved);
    assert_eq!(native, separated);
}

fn value(channel: u16, frame: u32) -> i16 {
    (channel as i16 * 1000 + frame as i16 * 7 - 400) % 97
}

#[test]
fn every_sample_is_visited_exactly_once() {
    for frames in 0..5u32 {
        for channels in 0..4u16 {
            let mut bytes = Vec::new();
            for frame in 0..frames {
                for channel in 0..channels {
                    bytes.extend_from_slice(&value(channel, frame).to_le_bytes());
                }
            }
            let buffer = InterleavedBuffer::<LE>::new(&bytes, frames, channels);
            check_traversal(&buffer, frames, channels, value);
            let walk = drain(buffer.samples());
            for (i, (a, _)) in walk.iter().enumerate() {
                assert_eq!(*a, address((i % channels as usize) as u16, (i / channels as usize) as u32));
            }

            let regions: Vec<Vec<u8>> = (0..channels)
                .map(|channel| (0..frames).flat_map(|frame| value(channel, frame).to_le_bytes()).collect())
                .collect();
            let borrowed: Vec<&[u8]> = regions.iter().map(|r| &r[..]).collect();
            let buffer = SeparatedBuffer::<LE>::new(&borrowed, frames);
            check_traversal(&buffer, frames, channels, value);
            let walk = drain(buffer.samples());
            for (i, (a, _)) in walk.iter().enumerate() {
                assert_eq!(*a, address((i / frames as usize) as u16, (i % frames as usize) as u32));
            }
        }
    }
}

#[test]
fn raw_samples_are_addressable() {
    let buffer = InterleavedBuffer::<LE>::new(&INTERLEAVED, 4, 2);
    assert_eq!(buffer.offset(address(1, 2)), 5);
    assert_eq!(buffer.offset(address(0, 0)), 0);
    assert_eq!(buffer.frame_range(3), 6..8);
    assert_eq!(buffer.index(address(1, 2)).0, [6, 0]);
    assert_eq!(buffer.channel(1).index(3).0, [8, 0]);
    assert_eq!(buffer.frame(1).index(1).0, [4, 0]);
    assert_eq!(buffer.frame(1).len(), 2);
    let channels: [&[u8]; 2] = [&LEFT, &RIGHT];
    let buffer = SeparatedBuffer::<LE>::new(&channels, 4);
    assert_eq!(buffer.index(address(1, 2)).0, [6, 0]);
    assert_eq!(buffer.frame(3).index(0).0, [7, 0]);
    assert_eq!(buffer.channel(0).index(2).0, [5, 0]);
    let slice = SampleSlice::<LE>::new(&LEFT, 4);
    assert_eq!(slice.len(), 4);
    assert_eq!(slice.index(1).to_primitive(), 3);
    assert_eq!(drain(slice.into_iter()), vec![1, 3, 5, 7]);
}

#[test]
fn cursors_are_independent_and_start_afresh() {
    let buffer = InterleavedBuffer::<LE>::new(&INTERLEAVED, 4, 2);
    let mut first = buffer.samples_interleaved();
    assert_eq!(first.next(), Some(1));
    assert_eq!(first.next(), Some(2));
    let mut second = buffer.samples_interleaved();
    assert_eq!(second.next(), Some(1));
    assert_eq!(first.next(), Some(3));
    assert_eq!(drain(first), vec![4, 5, 6, 7, 8]);
    assert_eq!(drain(second), vec![2, 3, 4, 5, 6, 7, 8]);
}

#[test]
fn write_then_read_interleaved() {
    let pattern: Vec<i16> = vec![100, -200, 300, -400, 500, -600, 700, i16::MIN];
    let mut bytes = [0xaau8; 16];
    let mut buffer = InterleavedBufferMut::<LE>::new(&mut bytes, 4, 2);
    buffer.write_samples_interleaved(&pattern);
    assert_eq!(drain(buffer.as_buffer().samples_interleaved()), pattern);
    assert_eq!(buffer.frame_count(), 4);
    assert_eq!(buffer.channel_count(), 2);
    let mut expected = Vec::new();
    for v in &pattern {
        expected.extend_from_slice(&v.to_le_bytes());
    }
    assert_eq!(bytes.to_vec(), expected);
    assert_eq!(drain(InterleavedBuffer::<LE>::new(&bytes, 4, 2).samples_interleaved()), pattern);

    let mut left = [0u8; 8];
    let mut right = [0u8; 8];
    {
        let mut regions: [&mut [u8]; 2] = [&mut left, &mut right];
        let mut buffer = SeparatedBufferMut::<LE>::new(&mut regions, 4);
        buffer.write_samples_interleaved(&pattern);
        assert_eq!(buffer.sample(address(1, 3)), i16::MIN);
        assert_eq!(buffer.sample(address(0, 1)), 300);
    }
    let regions: [&[u8]; 2] = [&left, &right];
    let buffer = SeparatedBuffer::<LE>::new(&regions, 4);
    assert_eq!(drain(buffer.samples_interleaved()), pattern);
    assert_eq!(drain(buffer.channel(0).into_iter()), vec![100, 300, 500, 700]);
}

#[test]
fn write_then_read_separated() {
    let pattern: Vec<i16> = vec![1, 2, 3, 4, 5, 6, 7, 8];
    let mut bytes = [0u8; 16];
    let mut buffer = InterleavedBufferMut::<BE>::new(&mut bytes, 4, 2);
    buffer.write_samples_separated(&pattern);
    assert_eq!(drain(buffer.as_buffer().samples_separated()), pattern);
    assert_eq!(drain(buffer.as_buffer().samples_interleaved()), vec![1, 5, 2, 6, 3, 7, 4, 8]);
    assert_eq!(bytes, [0, 1, 0, 5, 0, 2, 0, 6, 0, 3, 0, 7, 0, 4, 0, 8]);

    let mut left = [0u8; 8];
    let mut right = [0u8; 8];
    {
        let mut regions: [&mut [u8]; 2] = [&mut left, &mut right];
        let mut buffer = SeparatedBufferMut::<BE>::new(&mut regions, 4);
        buffer.write_samples_separated(&pattern);
    }
    assert_eq!(left, [0, 1, 0, 2, 0, 3, 0, 4]);
    assert_eq!(right, [0, 5, 0, 6, 0, 7, 0, 8]);
    let regions: [&[u8]; 2] = [&left, &right];
    assert_eq!(drain(SeparatedBuffer::<BE>::new(&regions, 4).samples_separated()), pattern);
}

#[test]
fn bulk_writes_stop_at_the_shorter_side() {
    let mut bytes = INTERLEAVED;
    let mut buffer = InterleavedBufferMut::<LE>::new(&mut bytes, 4, 2);
    buffer.write_samples_interleaved(&[10, 20, 30]);
    assert_eq!(drain(buffer.as_buffer().samples_interleaved()), vec![10, 20, 30, 4, 5, 6, 7, 8]);
    buffer.write_samples_interleaved(&[0, 1, 2, 3, 4, 5, 6, 7, 8, 9, 10, 11]);
    assert_eq!(drain(buffer.as_buffer().samples_interleaved()), vec![0, 1, 2, 3, 4, 5, 6, 7]);
    buffer.write_samples_separated(&[-1, -2, -3, -4, -5]);
    assert_eq!(drain(buffer.as_buffer().samples_separated()), vec![-1, -2, -3, -4, -5, 3, 5, 7]);
    buffer.write_samples_separated(&[9, 9, 9, 9, 8, 8, 8, 8, 7, 7, 7, 7, 6]);
    assert_eq!(drain(buffer.as_buffer().samples_separated()), vec![9, 9, 9, 9, 8, 8, 8, 8]);
    buffer.write_samples_separated(&[]);
    buffer.write_samples_interleaved(&[]);
    assert_eq!(drain(buffer.as_buffer().samples_separated()), vec![9, 9, 9, 9, 8, 8, 8, 8]);

    let mut left = LEFT;
    let mut right = RIGHT;
    let mut regions: [&mut [u8]; 2] = [&mut left, &mut right];
    let mut buffer = SeparatedBufferMut::<LE>::new(&mut regions, 4);
    buffer.write_samples_interleaved(&[10, 20, 30]);
    assert_eq!(buffer.sample(address(0, 0)), 10);
    assert_eq!(buffer.sample(address(1, 0)), 20);
    assert_eq!(buffer.sample(address(0, 1)), 30);
    assert_eq!(buffer.sample(address(1, 1)), 4);
    buffer.write_samples_interleaved(&[0, 1, 2, 3, 4, 5, 6, 7, 8, 9, 10, 11]);
    assert_eq!(buffer.sample(address(1, 3)), 7);
    buffer.write_samples_separated(&[-1, -2, -3, -4, -5, -6, -7, -8, -9, -10]);
    assert_eq!(buffer.sample(address(0, 3)), -4);
    assert_eq!(buffer.sample(address(1, 0)), -5);
    assert_eq!(buffer.sample(address(1, 3)), -8);
    buffer.write_samples_separated(&[50, 51, 52, 53, 54]);
    assert_eq!(buffer.sample(address(1, 0)), 54);
    assert_eq!(buffer.sample(address(1, 1)), -6);
}

#[test]
fn write_frame_with_a_short_input_leaves_the_other_channels() {
    let mut bytes = INTERLEAVED;
    let mut buffer = InterleavedBufferMut::<LE>::new(&mut bytes, 4, 2);
    buffer.write_frame(1, &[99]);
    assert_eq!(drain(buffer.as_buffer().samples_interleaved()), vec![1, 2, 99, 4, 5, 6, 7, 8]);
    buffer.write_frame(3, &[70, 80, 90]);
    assert_eq!(drain(buffer.as_buffer().samples_interleaved()), vec![1, 2, 99, 4, 5, 6, 70, 80]);
    buffer.write_frame(0, &[]);
    assert_eq!(drain(buffer.as_buffer().samples_interleaved()), vec![1, 2, 99, 4, 5, 6, 70, 80]);

    let mut left = LEFT;
    let mut right = RIGHT;
    let mut regions: [&mut [u8]; 2] = [&mut left, &mut right];
    let mut buffer = SeparatedBufferMut::<LE>::new(&mut regions, 4);
    buffer.write_frame(1, &[99]);
    assert_eq!(buffer.sample(address(0, 1)), 99);
    assert_eq!(buffer.sample(address(1, 1)), 4);
    buffer.write_frame(2, &[11, 22, 33]);
    assert_eq!(buffer.sample(address(0, 2)), 11);
    assert_eq!(buffer.sample(address(1, 2)), 22);
    assert_eq!(buffer.sample(address(1, 3)), 8);
}

#[test]
fn write_frames_drops_the_excess() {
    let frames: Vec<Vec<i16>> = vec![vec![10, 11], vec![20], vec![30, 31, 32], vec![], vec![50, 51], vec![60, 61]];
    let mut bytes = INTERLEAVED;
    let mut buffer = InterleavedBufferMut::<LE>::new(&mut bytes, 4, 2);
    buffer.write_frames(&frames);
    assert_eq!(drain(buffer.as_buffer().samples_interleaved()), vec![10, 11, 20, 4, 30, 31, 7, 8]);
    buffer.write_frames(&frames[4..5]);
    assert_eq!(drain(buffer.as_buffer().samples_interleaved()), vec![50, 51, 20, 4, 30, 31, 7, 8]);

    let mut left = LEFT;
    let mut right = RIGHT;
    {
        let mut regions: [&mut [u8]; 2] = [&mut left, &mut right];
        let mut buffer = SeparatedBufferMut::<LE>::new(&mut regions, 4);
        buffer.write_frames(&frames);
    }
    let regions: [&[u8]; 2] = [&left, &right];
    let buffer = SeparatedBuffer::<LE>::new(&regions, 4);
    assert_eq!(drain(buffer.samples_interleaved()), vec![10, 11, 20, 4, 30, 31, 7, 8]);
}

#[test]
fn write_channel_and_channels_truncate() {
    let mut bytes = INTERLEAVED;
    let mut buffer = InterleavedBufferMut::<LE>::new(&mut bytes, 4, 2);
    buffer.write_channel(1, &[-2, -4]);
    assert_eq!(drain(buffer.as_buffer().samples_separated()), vec![1, 3, 5, 7, -2, -4, 6, 8]);
    buffer.write_channel(0, &[9, 9, 9, 9, 9, 9]);
    assert_eq!(drain(buffer.as_buffer().samples_separated()), vec![9, 9, 9, 9, -2, -4, 6, 8]);
    let channels: Vec<Vec<i16>> = vec![vec![1], vec![2, 3, 4, 5, 6], vec![7, 7, 7, 7]];
    buffer.write_channels(&channels);
    assert_eq!(drain(buffer.as_buffer().samples_separated()), vec![1, 9, 9, 9, 2, 3, 4, 5]);

    let mut left = LEFT;
    let mut right = RIGHT;
    {
        let mut regions: [&mut [u8]; 2] = [&mut left, &mut right];
        let mut buffer = SeparatedBufferMut::<LE>::new(&mut regions, 4);
        buffer.write_channel(1, &[-2, -4]);
        buffer.write_channels(&channels[..1]);
        buffer.write_channels(&channels);
    }
    let regions: [&[u8]; 2] = [&left, &right];
    let buffer = SeparatedBuffer::<LE>::new(&regions, 4);
    assert_eq!(drain(buffer.samples_separated()), vec![1, 3, 5, 7, 2, 3, 4, 5]);
}

#[test]
fn write_sample_changes_one_sample() {
    let mut bytes = INTERLEAVED;
    let mut buffer = InterleavedBufferMut::<LE>::new(&mut bytes, 4, 2);
    assert_eq!(buffer.offset(address(1, 2)), 5);
    assert_eq!(buffer.frame_range(2), 4..6);
    buffer.write_sample(address(1, 2), -1);
    assert_eq!(buffer.sample(address(1, 2)), -1);
    assert_eq!(buffer.sample(address(0, 2)), 5);
    assert_eq!(buffer.sample(address(1, 3)), 8);
    assert_eq!(bytes, [1, 0, 2, 0, 3, 0, 4, 0, 5, 0, 0xff, 0xff, 7, 0, 8, 0]);

    let mut left = LEFT;
    let mut right = RIGHT;
    {
        let mut regions: [&mut [u8]; 2] = [&mut left, &mut right];
        let mut buffer = SeparatedBufferMut::<LE>::new(&mut regions, 4);
        assert_eq!(buffer.frame_count(), 4);
        assert_eq!(buffer.channel_count(), 2);
        buffer.write_sample(address(0, 3), 0x0102);
    }
    assert_eq!(left, [1, 0, 3, 0, 5, 0, 2, 1]);
    assert_eq!(right, RIGHT);
}

#[test]
fn empty_grids_have_nothing_to_read_or_write() {
    let mut nothing: [u8; 0] = [];
    let buffer = InterleavedBuffer::<LE>::new(&nothing, 3, 0);
    assert!(drain(buffer.samples()).is_empty());
    assert!(drain(buffer.samples_interleaved()).is_empty());
    assert!(drain(buffer.samples_separated()).is_empty());
    assert_eq!(drain_runs(buffer.frames()), vec![Vec::<i16>::new(); 3]);
    assert!(drain_runs(buffer.channels()).is_empty());
    let buffer = InterleavedBuffer::<LE>::new(&nothing, 0, 3);
    assert!(drain(buffer.samples()).is_empty());
    assert!(drain(buffer.samples_separated()).is_empty());
    assert!(drain_runs(buffer.frames()).is_empty());
    assert_eq!(drain_runs(buffer.channels()), vec![Vec::<i16>::new(); 3]);
    let mut buffer = InterleavedBufferMut::<LE>::new(&mut nothing, 0, 3);
    buffer.write_samples_separated(&[1, 2, 3]);
    buffer.write_samples_interleaved(&[1, 2, 3]);
    buffer.write_frames(&[vec![1, 2, 3]]);
    buffer.write_channels(&[vec![1, 2, 3]]);
    buffer.write_channel(2, &[1]);

    let mut none: [&mut [u8]; 0] = [];
    let mut buffer = SeparatedBufferMut::<LE>::new(&mut none, 4);
    buffer.write_samples_interleaved(&[1, 2, 3]);
    buffer.write_samples_separated(&[1, 2, 3]);
    buffer.write_frame(3, &[1, 2]);
    let none: [&[u8]; 0] = [];
    let buffer = SeparatedBuffer::<LE>::new(&none, 4);
    assert!(drain(buffer.samples_interleaved()).is_empty());
    assert!(drain(buffer.samples()).is_empty());
    assert_eq!(drain_runs(buffer.frames()), vec![Vec::<i16>::new(); 4]);
}

#[test]
fn packed_samples_are_written_whole() {
    let mut bytes = [0x55u8; 8];
    let mut buffer = InterleavedBufferMut::<i24::BE4B>::new(&mut bytes, 2, 1);
    let minus_two = i24::I24::new(-2).expect("within range");
    buffer.write_sample(address(0, 1), minus_two);
    let read = buffer.as_buffer();
    assert_eq!(drain(read.samples_interleaved())[1], minus_two);
    assert_eq!(drain(read.samples_interleaved())[0].inner(), 0x55_55_55);
    assert_eq!(bytes[5..], [0xff, 0xff, 0xfe]);
    assert_eq!(bytes[..4], [0x55; 4]);
}

#[test]
fn a_finished_view_leaves_its_samples_in_the_bytes() {
    let mut bytes = INTERLEAVED;
    let mut buffer = InterleavedBufferMut::<BE>::new(&mut bytes, 4, 2);
    buffer.write_sample(address(0, 1), 0x0a0b);
    buffer.finish();
    assert_eq!(bytes[4..6], [0x0a, 0x0b]);
    assert_eq!(bytes[..4], INTERLEAVED[..4]);
    assert_eq!(bytes[6..], INTERLEAVED[6..]);

    let mut left = LEFT;
    let mut right = RIGHT;
    {
        let mut regions: [&mut [u8]; 2] = [&mut left, &mut right];
        let mut buffer = SeparatedBufferMut::<BE>::new(&mut regions, 4);
        buffer.write_sample(address(1, 0), 0x0c0d);
        buffer.finish();
    }
    assert_eq!(left, LEFT);
    assert_eq!(right, [0x0c, 0x0d, 4, 0, 6, 0, 8, 0]);
}
