use sample_buffers::types::RawSample;
use sample_buffers::types::{
    float32, float64, i16 as s16, i24, i32 as s32, i64 as s64, i8 as s8, u16 as w16, u24,
    u32 as w32, u64 as w64, u8 as w8,
};

fn round_trip<T: RawSample>(p: T::Primitive) -> T::Primitive {
    T::from_primitive(p).to_primitive()
}

#[test]
fn eight_bit_round_trip_is_exhaustive() {
    for v in i8::MIN..=i8::MAX {
        assert_eq!(round_trip::<s8::NE>(v), v);
        assert_eq!(s8::NE::from_primitive(v).0, v.to_le_bytes());
    }
    for v in u8::MIN..=u8::MAX {
        assert_eq!(round_trip::<w8::NE>(v), v);
        assert_eq!(w8::NE::from_primitive(v).0, [v]);
    }
}

#[test]
fn sixteen_bit_round_trip_is_exhaustive() {
    for v in i16::MIN..=i16::MAX {
        assert_eq!(round_trip::<s16::LE>(v), v);
        assert_eq!(round_trip::<s16::BE>(v), v);
    }
    for v in u16::MIN..=u16::MAX {
        assert_eq!(round_trip::<w16::LE>(v), v);
        assert_eq!(round_trip::<w16::BE>(v), v);
    }
}

#[test]
fn sixteen_bit_bytes_match_std() {
    for v in [i16::MIN, -2, -1, 0, 1, 2, 0x0102, 0x7f00, i16::MAX] {
        assert_eq!(s16::LE::from_primitive(v).0, v.to_le_bytes());
        assert_eq!(s16::BE::from_primitive(v).0, v.to_be_bytes());
        assert_eq!(s16::LE(v.to_le_bytes()).to_primitive(), v);
        assert_eq!(s16::BE(v.to_be_bytes()).to_primitive(), v);
    }
    for v in [0u16, 1, 0x0102, 0x8000, 0xff00, u16::MAX] {
        assert_eq!(w16::LE::from_primitive(v).0, v.to_le_bytes());
        assert_eq!(w16::BE::from_primitive(v).0, v.to_be_bytes());
        assert_eq!(w16::LE(v.to_le_bytes()).to_primitive(), v);
        assert_eq!(w16::BE(v.to_be_bytes()).to_primitive(), v);
    }
}

#[test]
fn thirty_two_bit_bytes_match_std() {
    for v in [i32::MIN, -0x0102_0304, -1, 0, 1, 0x0102_0304, 0x7fff_0000, i32::MAX] {
        assert_eq!(s32::LE::from_primitive(v).0, v.to_le_bytes());
        assert_eq!(s32::BE::from_primitive(v).0, v.to_be_bytes());
        assert_eq!(s32::LE(v.to_le_bytes()).to_primitive(), v);
        assert_eq!(s32::BE(v.to_be_bytes()).to_primitive(), v);
        assert_eq!(round_trip::<s32::LE>(v), v);
        assert_eq!(round_trip::<s32::BE>(v), v);
    }
    for v in [0u32, 1, 0x0102_0304, 0x8000_0000, 0xff00_00ff, u32::MAX] {
        assert_eq!(w32::LE::from_primitive(v).0, v.to_le_bytes());
        assert_eq!(w32::BE::from_primitive(v).0, v.to_be_bytes());
        assert_eq!(w32::LE(v.to_le_bytes()).to_primitive(), v);
        assert_eq!(w32::BE(v.to_be_bytes()).to_primitive(), v);
        assert_eq!(round_trip::<w32::LE>(v), v);
        assert_eq!(round_trip::<w32::BE>(v), v);
    }
}

#[test]
fn sixty_four_bit_bytes_match_std() {
    for v in [i64::MIN, -0x0102_0304_0506_0708, -1, 0, 1, 0x0102_0304_0506_0708, i64::MAX] {
        assert_eq!(s64::LE::from_primitive(v).0, v.to_le_bytes());
        assert_eq!(s64::BE::from_primitive(v).0, v.to_be_bytes());
        assert_eq!(s64::LE(v.to_le_bytes()).to_primitive(), v);
        assert_eq!(s64::BE(v.to_be_bytes()).to_primitive(), v);
        assert_eq!(round_trip::<s64::LE>(v), v);
        assert_eq!(round_trip::<s64::BE>(v), v);
    }
    for v in [0u64, 1, 0x0102_0304_0506_0708, 0x8000_0000_0000_0000, u64::MAX] {
        assert_eq!(w64::LE::from_primitive(v).0, v.to_le_bytes());
        assert_eq!(w64::BE::from_primitive(v).0, v.to_be_bytes());
        assert_eq!(w64::LE(v.to_le_bytes()).to_primitive(), v);
        assert_eq!(w64::BE(v.to_be_bytes()).to_primitive(), v);
        assert_eq!(round_trip::<w64::LE>(v), v);
        assert_eq!(round_trip::<w64::BE>(v), v);
    }
}

#[test]
fn float_bit_patterns_match_std() {
    for x in [0.0f32, -0.0, 1.0, -1.0, 0.5, f32::MIN_POSITIVE, f32::MAX, f32::INFINITY] {
        let bits = x.to_bits();
        assert_eq!(float32::LE::from_primitive(bits).0, x.to_le_bytes());
        assert_eq!(float32::BE::from_primitive(bits).0, x.to_be_bytes());
        assert_eq!(f32::from_bits(float32::LE(x.to_le_bytes()).to_primitive()), x);
        assert_eq!(f32::from_bits(float32::BE(x.to_be_bytes()).to_primitive()), x);
    }
    for x in [0.0f64, -0.0, 1.0, -1.0, 0.25, f64::MIN_POSITIVE, f64::MAX, f64::NEG_INFINITY] {
        let bits = x.to_bits();
        assert_eq!(float64::LE::from_primitive(bits).0, x.to_le_bytes());
        assert_eq!(float64::BE::from_primitive(bits).0, x.to_be_bytes());
        assert_eq!(f64::from_bits(float64::LE(x.to_le_bytes()).to_primitive()), x);
        assert_eq!(f64::from_bits(float64::BE(x.to_be_bytes()).to_primitive()), x);
    }
}

#[test]
fn twenty_four_bit_round_trip_over_boundaries() {
    let signed = [-8_388_608, -8_388_607, -65_537, -65_536, -257, -256, -1, 0, 1, 255, 256, 65_535, 65_536, 8_388_606, 8_388_607];
    for v in signed {
        let p = i24::I24::new(v).expect("within range");
        assert_eq!(round_trip::<i24::LE3B>(p), p);
        assert_eq!(round_trip::<i24::BE3B>(p), p);
        assert_eq!(round_trip::<i24::LE4B>(p), p);
        assert_eq!(round_trip::<i24::BE4B>(p), p);
        assert_eq!(round_trip::<i24::LE3B>(p).inner(), v);
        let bytes = v.to_le_bytes();
        assert_eq!(i24::LE3B::from_primitive(p).0, [bytes[0], bytes[1], bytes[2]]);
        assert_eq!(i24::BE3B::from_primitive(p).0, [bytes[2], bytes[1], bytes[0]]);
    }
    let unsigned = [0, 1, 255, 256, 65_535, 65_536, 8_388_607, 8_388_608, 16_777_214, 16_777_215];
    for v in unsigned {
        let p = u24::U24::new(v).expect("within range");
        assert_eq!(round_trip::<u24::LE3B>(p), p);
        assert_eq!(round_trip::<u24::BE3B>(p), p);
        assert_eq!(round_trip::<u24::LE4B>(p), p);
        assert_eq!(round_trip::<u24::BE4B>(p), p);
        assert_eq!(round_trip::<u24::BE4B>(p).inner(), v);
        let bytes = v.to_le_bytes();
        assert_eq!(u24::LE3B::from_primitive(p).0, [bytes[0], bytes[1], bytes[2]]);
        assert_eq!(u24::BE3B::from_primitive(p).0, [bytes[2], bytes[1], bytes[0]]);
    }
}

#[test]
fn twenty_four_bit_round_trip_over_a_stride() {
    let mut v: i32 = -8_388_608;
    while v <= 8_388_607 {
        let p = i24::I24::new(v).expect("within range");
        assert_eq!(round_trip::<i24::LE3B>(p).inner(), v);
        assert_eq!(round_trip::<i24::BE4B>(p).inner(), v);
        let q = u24::U24::new(v + 8_388_608).expect("within range");
        assert_eq!(round_trip::<u24::BE3B>(q).inner(), v + 8_388_608);
        assert_eq!(round_trip::<u24::LE4B>(q).inner(), v + 8_388_608);
        v += 4_099;
    }
}

#[test]
fn twenty_four_bit_range_is_checked() {
    assert!(i24::I24::new(8_388_608).is_none());
    assert!(i24::I24::new(-8_388_609).is_none());
    assert!(i24::I24::new(i32::MAX).is_none());
    assert!(i24::I24::new(i32::MIN).is_none());
    assert!(i24::I24::new(8_388_607).is_some());
    assert!(i24::I24::new(-8_388_608).is_some());
    assert!(u24::U24::new(-1).is_none());
    assert!(u24::U24::new(16_777_216).is_none());
    assert!(u24::U24::new(i32::MAX).is_none());
    assert!(u24::U24::new(0).is_some());
    assert!(u24::U24::new(16_777_215).is_some());
}

#[test]
fn unused_byte_is_ignored_by_equality_and_decode() {
    for pad in [0u8, 1, 0x7f, 0x80, 0xff] {
        assert_eq!(i24::LE4B([0x01, 0x02, 0x83, pad]), i24::LE4B([0x01, 0x02, 0x83, 0]));
        assert_eq!(i24::BE4B([pad, 0x83, 0x02, 0x01]), i24::BE4B([0, 0x83, 0x02, 0x01]));
        assert_eq!(u24::LE4B([0x01, 0x02, 0x83, pad]), u24::LE4B([0x01, 0x02, 0x83, 0]));
        assert_eq!(u24::BE4B([pad, 0x83, 0x02, 0x01]), u24::BE4B([0, 0x83, 0x02, 0x01]));
        assert_eq!(i24::LE4B([0x01, 0x02, 0x83, pad]).to_primitive().inner(), -8_191_487);
        assert_eq!(i24::BE4B([pad, 0x83, 0x02, 0x01]).to_primitive().inner(), -8_191_487);
        assert_eq!(u24::LE4B([0x01, 0x02, 0x83, pad]).to_primitive().inner(), 0x83_02_01);
        assert_eq!(u24::BE4B([pad, 0x83, 0x02, 0x01]).to_primitive().inner(), 0x83_02_01);
    }
    assert_ne!(i24::LE4B([0x01, 0x02, 0x03, 9]), i24::LE4B([0x01, 0x02, 0x04, 9]));
    assert_ne!(i24::BE4B([9, 0x01, 0x02, 0x03]), i24::BE4B([9, 0x02, 0x02, 0x03]));
    assert_ne!(u24::LE4B([0x01, 0x02, 0x03, 9]), u24::LE4B([0x00, 0x02, 0x03, 9]));
    assert_ne!(u24::BE4B([9, 0x01, 0x02, 0x03]), u24::BE4B([9, 0x01, 0x03, 0x03]));
}

#[test]
fn equilibrium_is_silence() {
    assert_eq!(s8::equilibrium(), 0);
    assert_eq!(s16::equilibrium(), 0);
    assert_eq!(s32::equilibrium(), 0);
    assert_eq!(s64::equilibrium(), 0);
    assert_eq!(i24::equilibrium().inner(), 0);
    assert_eq!(w8::equilibrium(), 128);
    assert_eq!(w16::equilibrium(), 32_768);
    assert_eq!(w32::equilibrium(), 2_147_483_648);
    assert_eq!(w64::equilibrium(), 9_223_372_036_854_775_808);
    assert_eq!(u24::equilibrium().inner(), 8_388_608);
    assert_eq!(f32::from_bits(float32::equilibrium()), 0.0);
    assert_eq!(f64::from_bits(float64::equilibrium()), 0.0);
    assert_eq!(s8::DEFAULT, 0);
    assert_eq!(w8::DEFAULT, 1 << 7);
    assert_eq!(w16::DEFAULT, 1 << 15);
    assert_eq!(w32::DEFAULT, 1 << 31);
    assert_eq!(w64::DEFAULT, 1 << 63);
    assert_eq!(u24::DEFAULT, 1 << 23);
}

#[test]
fn default_raw_sample_decodes_to_equilibrium() {
    assert_eq!(s8::NE::default().to_primitive(), 0);
    assert_eq!(w8::NE::default().to_primitive(), 128);
    assert_eq!(w8::NE::default().0, [0x80]);
    assert_eq!(s16::LE::default().to_primitive(), 0);
    assert_eq!(s16::BE::default().to_primitive(), 0);
    assert_eq!(w16::LE::default().to_primitive(), 32_768);
    assert_eq!(w16::LE::default().0, [0x00, 0x80]);
    assert_eq!(w16::BE::default().to_primitive(), 32_768);
    assert_eq!(w16::BE::default().0, [0x80, 0x00]);
    assert_eq!(s32::LE::default().to_primitive(), 0);
    assert_eq!(s32::BE::default().to_primitive(), 0);
    assert_eq!(w32::LE::default().to_primitive(), 1 << 31);
    assert_eq!(w32::BE::default().0, [0x80, 0, 0, 0]);
    assert_eq!(s64::LE::default().to_primitive(), 0);
    assert_eq!(s64::BE::default().to_primitive(), 0);
    assert_eq!(w64::LE::default().to_primitive(), 1 << 63);
    assert_eq!(w64::BE::default().to_primitive(), 1 << 63);
    assert_eq!(i24::LE3B::default().to_primitive(), i24::equilibrium());
    assert_eq!(i24::BE4B::default().to_primitive(), i24::equilibrium());
    assert_eq!(u24::LE3B::default().to_primitive(), u24::equilibrium());
    assert_eq!(u24::LE3B::default().0, [0x00, 0x00, 0x80]);
    assert_eq!(u24::BE3B::default().0, [0x80, 0x00, 0x00]);
    assert_eq!(u24::LE4B::default().to_primitive(), u24::equilibrium());
    assert_eq!(u24::BE4B::default().to_primitive(), u24::equilibrium());
    assert_eq!(float32::LE::default().to_primitive(), 0);
    assert_eq!(float64::BE::default().to_primitive(), 0);
}

#[test]
fn conversions_agree_with_the_codec() {
    let raw = s16::LE::from(-2i16);
    assert_eq!(raw.0, [0xfe, 0xff]);
    assert_eq!(i16::from(raw), -2);
    let raw = w32::BE::from(0x0102_0304u32);
    assert_eq!(raw.0, [1, 2, 3, 4]);
    assert_eq!(u32::from(raw), 0x0102_0304);
    assert_eq!(u32::from(float32::LE([0, 0, 0x80, 0x3f])), 1.0f32.to_bits());
}

#[test]
fn raw_samples_are_read_from_and_written_to_a_region() {
    let mut region = [0u8, 1, 2, 3, 4, 5, 6, 7, 8, 9];
    assert_eq!(s16::LE::load(&region, 3).0, [3, 4]);
    assert_eq!(i24::BE3B::load(&region, 7).0, [7, 8, 9]);
    assert_eq!(w64::LE::load(&region, 2).0, [2, 3, 4, 5, 6, 7, 8, 9]);
    w32::BE::from_primitive(0xa1b2_c3d4).store(&mut region, 5);
    assert_eq!(region, [0, 1, 2, 3, 4, 0xa1, 0xb2, 0xc3, 0xd4, 9]);
    w8::NE::from_primitive(0xee).store(&mut region, 0);
    assert_eq!(region, [0xee, 1, 2, 3, 4, 0xa1, 0xb2, 0xc3, 0xd4, 9]);
    assert_eq!(s16::LE::size(), 2);
    assert_eq!(i24::LE3B::size(), 3);
    assert_eq!(i24::BE4B::size(), 4);
    assert_eq!(w64::BE::size(), 8);
    assert_eq!(s8::NE::size(), 1);
}
