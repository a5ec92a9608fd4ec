use sample_buffers::samples::{Sample, SampleFormat};
use sample_buffers::samples_formats::RawSampleFormat;
use sample_buffers::types::{
    float32, float64, i16 as s16, i24, i32 as s32, i64 as s64, i8 as s8, is_native_on,
    is_one_in_little_endian, native_is_little_endian, u16 as w16, u24, u32 as w32, u64 as w64,
    u8 as w8, Encoding, SimpleEncoding, SimpleLittleBigEncoding,
};

fn all_formats() -> Vec<(RawSampleFormat, usize, bool, bool, &'static str)> {
    vec![
        (RawSampleFormat::I8(s8::RawFormat::NE), 1, true, true, "i8:ne"),
        (RawSampleFormat::U8(w8::RawFormat::NE), 1, true, true, "u8:ne"),
        (RawSampleFormat::I16(s16::RawFormat::LE), 2, true, false, "i16:le"),
        (RawSampleFormat::I16(s16::RawFormat::BE), 2, false, true, "i16:be"),
        (RawSampleFormat::U16(w16::RawFormat::LE), 2, true, false, "u16:le"),
        (RawSampleFormat::U16(w16::RawFormat::BE), 2, false, true, "u16:be"),
        (RawSampleFormat::I24(i24::RawFormat::LE3B), 3, true, false, "i24:le3b"),
        (RawSampleFormat::I24(i24::RawFormat::BE3B), 3, false, true, "i24:be3b"),
        (RawSampleFormat::I24(i24::RawFormat::LE4B), 4, true, false, "i24:le4b"),
        (RawSampleFormat::I24(i24::RawFormat::BE4B), 4, false, true, "i24:be4b"),
        (RawSampleFormat::U24(u24::RawFormat::LE3B), 3, true, false, "u24:le3b"),
        (RawSampleFormat::U24(u24::RawFormat::BE3B), 3, false, true, "u24:be3b"),
        (RawSampleFormat::U24(u24::RawFormat::LE4B), 4, true, false, "u24:le4b"),
        (RawSampleFormat::U24(u24::RawFormat::BE4B), 4, false, true, "u24:be4b"),
        (RawSampleFormat::I32(s32::RawFormat::LE), 4, true, false, "i32:le"),
        (RawSampleFormat::I32(s32::RawFormat::BE), 4, false, true, "i32:be"),
        (RawSampleFormat::U32(w32::RawFormat::LE), 4, true, false, "u32:le"),
        (RawSampleFormat::U32(w32::RawFormat::BE), 4, false, true, "u32:be"),
        (RawSampleFormat::I64(s64::RawFormat::LE), 8, true, false, "i64:le"),
        (RawSampleFormat::I64(s64::RawFormat::BE), 8, false, true, "i64:be"),
        (RawSampleFormat::U64(w64::RawFormat::LE), 8, true, false, "u64:le"),
        (RawSampleFormat::U64(w64::RawFormat::BE), 8, false, true, "u64:be"),
        (RawSampleFormat::F32(float32::RawFormat::LE), 4, true, false, "f32:le"),
        (RawSampleFormat::F32(float32::RawFormat::BE), 4, false, true, "f32:be"),
        (RawSampleFormat::F64(float64::RawFormat::LE), 8, true, false, "f64:le"),
        (RawSampleFormat::F64(float64::RawFormat::BE), 8, false, true, "f64:be"),
    ]
}

#[test]
fn every_format_reports_size_order_and_name() {
    for (format, size, le, be, name) in all_formats() {
        assert_eq!(format.sample_size(), size, "{}", name);
        assert_eq!(format.is_le(), le, "{}", name);
        assert_eq!(format.is_be(), be, "{}", name);
        assert_eq!(format.name(), name);
    }
}

#[test]
fn native_order_is_that_of_the_machine() {
    let little = u16::from_ne_bytes([1, 0]) == 1;
    assert_eq!(native_is_little_endian(), little);
    for (format, _, le, be, name) in all_formats() {
        assert_eq!(format.is_ne(), if little { le } else { be }, "{}", name);
    }
}

#[test]
fn native_order_follows_the_machine_whichever_it_is() {
    assert!(is_native_on(true, true, false));
    assert!(!is_native_on(true, false, true));
    assert!(!is_native_on(false, true, false));
    assert!(is_native_on(false, false, true));
    assert!(is_native_on(true, true, true));
    assert!(is_native_on(false, true, true));
}

#[test]
fn raw_formats_report_the_size_of_their_raw_sample() {
    assert_eq!(s16::RawFormat::LE.sample_size(), 2);
    assert_eq!(s16::RawFormat::BE.sample_size(), 2);
    assert_eq!(i24::RawFormat::LE3B.sample_size(), 3);
    assert_eq!(i24::RawFormat::BE3B.sample_size(), 3);
    assert_eq!(i24::RawFormat::LE4B.sample_size(), 4);
    assert_eq!(i24::RawFormat::BE4B.sample_size(), 4);
    assert_eq!(w64::RawFormat::LE.sample_size(), 8);
    assert_eq!(w64::RawFormat::BE.sample_size(), 8);
    assert_eq!(w8::RawFormat::NE.sample_size(), 1);
    assert_eq!(i24::RawFormat::LE4B.name(), "le4b");
    assert_eq!(u24::RawFormat::BE3B.name(), "be3b");
    assert_eq!(w8::RawFormat::NE.name(), "ne");
    assert_eq!(s16::RawFormat::BE.full_name(), "i16:be");
    assert!(w8::RawFormat::NE.is_le() && w8::RawFormat::NE.is_be());
    assert!(i24::RawFormat::LE4B.is_le() && !i24::RawFormat::LE4B.is_be());
    assert!(!u24::RawFormat::BE3B.is_le() && u24::RawFormat::BE3B.is_be());
}

#[test]
fn simple_encodings_describe_themselves() {
    let le = SimpleLittleBigEncoding::<4>::LE;
    let be = SimpleLittleBigEncoding::<4>::BE;
    assert_eq!(le.sample_size(), 4);
    assert_eq!(be.sample_size(), 4);
    assert!(le.is_le() && !le.is_be());
    assert!(!be.is_le() && be.is_be());
    assert_eq!(le.name(), "le");
    assert_eq!(be.name(), "be");
    assert_ne!(le.is_ne(), be.is_ne());
    let ne = SimpleEncoding::<1>::NE;
    assert_eq!(ne.sample_size(), 1);
    assert!(ne.is_le() && ne.is_be() && ne.is_ne());
    assert_eq!(ne.name(), "ne");
    assert_eq!(SimpleLittleBigEncoding::<8>::BE.sample_size(), 8);
}

#[test]
fn sample_formats_describe_the_primitive_and_the_order() {
    let cases = [
        (SampleFormat::I8(SimpleEncoding::NE), 1, true, true, "i8", "ne"),
        (SampleFormat::U8(SimpleEncoding::NE), 1, true, true, "u8", "ne"),
        (SampleFormat::I16(SimpleLittleBigEncoding::LE), 2, true, false, "i16", "le"),
        (SampleFormat::U16(SimpleLittleBigEncoding::BE), 2, false, true, "u16", "be"),
        (SampleFormat::I24(i24::RawFormat::BE4B), 4, false, true, "i24", "be4b"),
        (SampleFormat::U24(u24::RawFormat::LE3B), 3, true, false, "u24", "le3b"),
        (SampleFormat::I32(SimpleLittleBigEncoding::BE), 4, false, true, "i32", "be"),
        (SampleFormat::U32(SimpleLittleBigEncoding::LE), 4, true, false, "u32", "le"),
        (SampleFormat::I64(SimpleLittleBigEncoding::LE), 8, true, false, "i64", "le"),
        (SampleFormat::U64(SimpleLittleBigEncoding::BE), 8, false, true, "u64", "be"),
        (SampleFormat::F32(SimpleLittleBigEncoding::LE), 4, true, false, "f32", "le"),
        (SampleFormat::F64(SimpleLittleBigEncoding::BE), 8, false, true, "f64", "be"),
    ];
    let little = u16::from_ne_bytes([1, 0]) == 1;
    for (format, size, le, be, primitive, encoding) in cases {
        assert_eq!(format.sample_size(), size);
        assert_eq!(format.is_le(), le);
        assert_eq!(format.is_be(), be);
        assert_eq!(format.is_ne(), if little { le } else { be });
        assert_eq!(format.primitive_name(), primitive);
        assert_eq!(format.encoding_name(), encoding);
    }
}

#[test]
fn a_primitive_knows_its_formats() {
    assert!(<i16 as Sample>::supports_format(SampleFormat::I16(SimpleLittleBigEncoding::BE)));
    assert!(!<i16 as Sample>::supports_format(SampleFormat::U16(SimpleLittleBigEncoding::BE)));
    assert!(!<i16 as Sample>::supports_format(SampleFormat::I32(SimpleLittleBigEncoding::LE)));
    assert!(<u8 as Sample>::supports_format(SampleFormat::U8(SimpleEncoding::NE)));
    assert!(!<u8 as Sample>::supports_format(SampleFormat::I8(SimpleEncoding::NE)));
    assert!(<i24::I24 as Sample>::supports_format(SampleFormat::I24(i24::RawFormat::LE3B)));
    assert!(!<i24::I24 as Sample>::supports_format(SampleFormat::U24(u24::RawFormat::LE3B)));
    assert!(<u24::U24 as Sample>::supports_format(SampleFormat::U24(u24::RawFormat::BE4B)));
    assert!(<u64 as Sample>::supports_format(SampleFormat::U64(SimpleLittleBigEncoding::LE)));
    assert!(!<u64 as Sample>::supports_format(SampleFormat::F64(SimpleLittleBigEncoding::LE)));
}

#[test]
fn the_bytes_of_one_tell_the_byte_order() {
    assert!(is_one_in_little_endian(&[1, 0]));
    assert!(!is_one_in_little_endian(&[0, 1]));
    assert!(!is_one_in_little_endian(&[1, 1]));
    assert!(!is_one_in_little_endian(&[0, 0]));
    assert!(is_one_in_little_endian(&1u16.to_le_bytes()));
    assert!(!is_one_in_little_endian(&1u16.to_be_bytes()));
    assert_eq!(is_one_in_little_endian(&1u16.to_ne_bytes()), native_is_little_endian());
}
