use sample_buffers::buffers::dispatch::{Layout, LittleBig, Native, Packed24};
use sample_buffers::buffers::separated::SeparatedBuffer;
use sample_buffers::buffers::{
    AudioSource, Cursor, Run, SampleAddress, SampleBuffer, SampleBufferMut,
};
use sample_buffers::samples_formats::{RawSampleFormat, SizedSample};
use sample_buffers::types::{float32, i16 as s16, i24, u24, u8 as w8};

fn drain<C: Cursor>(mut cursor: C) -> Vec<C::Item> {
    let mut items = Vec::new();
    while let Some(item) = cursor.next() {
        items.push(item);
    }
    items
}

const BYTES: [u8; 16] = [1, 0, 2, 0, 3, 0, 4, 0, 5, 0, 6, 0, 7, 0, 8, 0];

#[test]
fn format_selects_the_codec() {
    let le = s16::create_interleaved_buffer(&BYTES, RawSampleFormat::I16(s16::RawFormat::LE), 2, 4)
        .expect("a format of the primitive");
    assert!(matches!(le, Layout::Interleaved(LittleBig::LE(_))));
    assert_eq!(le.frame_count(), 4);
    assert_eq!(le.channel_count(), 2);
    assert_eq!(drain(le.samples_interleaved()), vec![1, 2, 3, 4, 5, 6, 7, 8]);
    assert_eq!(drain(le.samples_separated()), vec![1, 3, 5, 7, 2, 4, 6, 8]);
    assert_eq!(drain(le.channel(1).into_iter()), vec![2, 4, 6, 8]);
    assert_eq!(drain(le.frame(2).into_iter()), vec![5, 6]);
    let walk = drain(le.samples());
    assert_eq!(walk.len(), 8);
    assert_eq!(walk[3], (SampleAddress { channel: 1, frame: 1 }, 4));

    let be = s16::create_interleaved_buffer(&BYTES, RawSampleFormat::I16(s16::RawFormat::BE), 2, 4)
        .expect("a format of the primitive");
    assert!(matches!(be, Layout::Interleaved(LittleBig::BE(_))));
    assert_eq!(drain(be.samples_interleaved())[0], 0x100);
}

#[test]
fn foreign_formats_produce_no_view() {
    assert!(s16::create_interleaved_buffer(&BYTES, RawSampleFormat::U16(sample_buffers::types::u16::RawFormat::LE), 2, 4).is_none());
    assert!(s16::create_interleaved_buffer(&BYTES, RawSampleFormat::I8(sample_buffers::types::i8::RawFormat::NE), 2, 4).is_none());
    assert!(s16::create_interleaved_buffer(&BYTES[..3], RawSampleFormat::F32(float32::RawFormat::LE), 2, 4).is_none());
    assert!(w8::create_interleaved_buffer(&BYTES, RawSampleFormat::I16(s16::RawFormat::LE), 2, 4).is_none());
    let mut bytes = BYTES;
    assert!(i24::create_interleaved_buffer_mut(&mut bytes, RawSampleFormat::U24(u24::RawFormat::LE4B), 2, 2).is_none());
    assert!(s16::supports_format(RawSampleFormat::I16(s16::RawFormat::BE)));
    assert!(!s16::supports_format(RawSampleFormat::U16(sample_buffers::types::u16::RawFormat::BE)));
    assert!(i24::supports_format(RawSampleFormat::I24(i24::RawFormat::LE3B)));
    assert!(!i24::supports_format(RawSampleFormat::U24(u24::RawFormat::LE3B)));
    assert!(float32::supports_format(RawSampleFormat::F32(float32::RawFormat::BE)));
    assert!(!float32::supports_format(RawSampleFormat::U32(sample_buffers::types::u32::RawFormat::BE)));
}

#[test]
fn every_encoding_of_a_packed_primitive_is_routed() {
    let formats = [
        (i24::RawFormat::LE3B, 12usize),
        (i24::RawFormat::BE3B, 12),
        (i24::RawFormat::LE4B, 16),
        (i24::RawFormat::BE4B, 16),
    ];
    let pattern: Vec<i24::I24> = [-8_388_608, -1, 0x01_02_03, 8_388_607]
        .iter()
        .map(|&v| i24::I24::new(v).expect("within range"))
        .collect();
    for (encoding, len) in formats {
        let mut bytes = vec![0u8; len];
        {
            let mut buffer =
                i24::create_interleaved_buffer_mut(&mut bytes, RawSampleFormat::I24(encoding), 2, 2)
                    .expect("a format of the primitive");
            match (&buffer, encoding) {
                (Layout::Interleaved(Packed24::LE3B(_)), i24::RawFormat::LE3B) => {}
                (Layout::Interleaved(Packed24::BE3B(_)), i24::RawFormat::BE3B) => {}
                (Layout::Interleaved(Packed24::LE4B(_)), i24::RawFormat::LE4B) => {}
                (Layout::Interleaved(Packed24::BE4B(_)), i24::RawFormat::BE4B) => {}
                _ => panic!("the encoding was routed to another codec"),
            }
            assert_eq!(buffer.frame_count(), 2);
            assert_eq!(buffer.channel_count(), 2);
            buffer.write_samples_interleaved(&pattern);
        }
        let buffer = i24::create_interleaved_buffer(&bytes, RawSampleFormat::I24(encoding), 2, 2)
            .expect("a format of the primitive");
        assert_eq!(drain(buffer.samples_interleaved()), pattern);
        match encoding {
            i24::RawFormat::LE3B => assert_eq!(bytes[6..9], [0x03, 0x02, 0x01]),
            i24::RawFormat::BE3B => assert_eq!(bytes[6..9], [0x01, 0x02, 0x03]),
            i24::RawFormat::LE4B => assert_eq!(bytes[8..11], [0x03, 0x02, 0x01]),
            _ => assert_eq!(bytes[9..12], [0x01, 0x02, 0x03]),
        }
    }
}

#[test]
fn one_byte_primitives_have_one_encoding() {
    let buffer = w8::create_interleaved_buffer(&BYTES, RawSampleFormat::U8(w8::RawFormat::NE), 4, 4)
        .expect("a format of the primitive");
    assert!(matches!(buffer, Layout::Interleaved(Native::NE(_))));
    assert_eq!(drain(buffer.samples_interleaved()), BYTES.to_vec());
    assert_eq!(drain(buffer.channel(2).into_iter()), vec![2, 4, 6, 8]);
}

#[test]
fn either_layout_answers_through_one_type() {
    let left = [1u8, 0, 3, 0];
    let right = [2u8, 0, 4, 0];
    let regions: [&[u8]; 2] = [&left, &right];
    let separated: s16::SampleBuffer =
        Layout::Separated(LittleBig::LE(SeparatedBuffer::new(&regions, 2)));
    let interleaved = s16::create_interleaved_buffer(&BYTES[..8], RawSampleFormat::I16(s16::RawFormat::LE), 2, 2)
        .expect("a format of the primitive");
    for buffer in [&separated, &interleaved] {
        assert_eq!(buffer.frame_count(), 2);
        assert_eq!(buffer.channel_count(), 2);
        assert_eq!(drain(buffer.samples_interleaved()), vec![1, 2, 3, 4]);
        assert_eq!(drain(buffer.samples_separated()), vec![1, 3, 2, 4]);
        let mut frames = buffer.frames();
        let mut rows = Vec::new();
        while let Some(frame) = sample_buffers::buffers::Runs::next(&mut frames) {
            rows.push(drain(frame.into_iter()));
        }
        assert_eq!(rows, vec![vec![1, 2], vec![3, 4]]);
    }
    let native_separated: Vec<u16> = drain(separated.samples()).iter().map(|(a, _)| a.channel).collect();
    let native_interleaved: Vec<u16> = drain(interleaved.samples()).iter().map(|(a, _)| a.channel).collect();
    assert_eq!(native_separated, vec![0, 0, 1, 1]);
    assert_eq!(native_interleaved, vec![0, 1, 0, 1]);
}

#[test]
fn a_primitive_makes_its_own_buffers() {
    assert!(<i16 as SizedSample>::supports_format(RawSampleFormat::I16(s16::RawFormat::LE)));
    assert!(!<i16 as SizedSample>::supports_format(RawSampleFormat::I8(sample_buffers::types::i8::RawFormat::NE)));
    assert!(<i24::I24 as SizedSample>::supports_format(RawSampleFormat::I24(i24::RawFormat::BE4B)));
    let buffer = <i16 as SizedSample>::create_interleaved_buffer(&BYTES, RawSampleFormat::I16(s16::RawFormat::LE), 2, 4)
        .expect("a format of the primitive");
    assert_eq!(drain(buffer.samples_separated()), vec![1, 3, 5, 7, 2, 4, 6, 8]);
    assert!(<u8 as SizedSample>::create_interleaved_buffer(&BYTES, RawSampleFormat::I16(s16::RawFormat::LE), 2, 4).is_none());
    let mut bytes = BYTES;
    {
        let mut buffer = <i16 as SizedSample>::create_interleaved_buffer_mut(&mut bytes, RawSampleFormat::I16(s16::RawFormat::BE), 2, 4)
            .expect("a format of the primitive");
        buffer.write_sample(SampleAddress { channel: 1, frame: 3 }, 0x0a0b);
    }
    assert_eq!(bytes[14..], [0x0a, 0x0b]);
    assert_eq!(bytes[..14], BYTES[..14]);
}

struct Ramp {
    next: i16,
}

impl AudioSource for Ramp {
    type Item = i16;
    type Info = u64;

    fn fill_buffer<B: SampleBufferMut<Item = i16>>(&mut self, buffer: &mut B, info: &u64) {
        let start = self.next + *info as i16;
        let count = buffer.frame_count() as i16 * buffer.channel_count() as i16;
        let samples: Vec<i16> = (start..start + count).collect();
        buffer.write_samples_interleaved(&samples);
        self.next = start + count;
    }
}

#[test]
fn a_source_fills_every_sample_and_keeps_its_own_state() {
    let mut source = Ramp { next: 1 };
    let mut bytes = [0u8; 12];
    for (round, expected) in [(0u64, vec![1, 2, 3, 4, 5, 6]), (10, vec![17, 18, 19, 20, 21, 22])] {
        {
            let mut buffer = s16::create_interleaved_buffer_mut(&mut bytes, RawSampleFormat::I16(s16::RawFormat::LE), 3, 2)
                .expect("a format of the primitive");
            source.fill_buffer(&mut buffer, &round);
            assert_eq!(buffer.frame_count(), 2);
            assert_eq!(buffer.channel_count(), 3);
        }
        let buffer = s16::create_interleaved_buffer(&bytes, RawSampleFormat::I16(s16::RawFormat::LE), 3, 2)
            .expect("a format of the primitive");
        assert_eq!(drain(buffer.samples_interleaved()), expected);
    }
}
