use sample_buffers::types::i24::{equilibrium, Primitive, BE3B, BE4B, LE3B, LE4B};

#[test]
fn i24_test_le3b() {
    {
        // default
        let primitive = equilibrium();
        let raw = LE3B::default();
        assert_eq!(Primitive::from(raw), primitive);
        assert_eq!(LE3B::from(primitive), raw);
    }

    {
        // zero
        let primitive = Primitive::new(0).expect("out of valid range");
        let raw = LE3B([0x00, 0x00, 0x00]);
        assert_eq!(Primitive::from(raw), primitive);
        assert_eq!(LE3B::from(primitive), raw);
    }

    {
        // min
        let primitive = Primitive::new(-8_388_608).expect("out of valid range");
        let raw = LE3B([0x00, 0x00, 0x80]);
        assert_eq!(Primitive::from(raw), primitive);
        assert_eq!(LE3B::from(primitive), raw);
    }

    {
        // max
        let primitive = Primitive::new(8_388_607).expect("out of valid range");
        let raw = LE3B([0xff, 0xff, 0x7f]);
        assert_eq!(Primitive::from(raw), primitive);
        assert_eq!(LE3B::from(primitive), raw);
    }

    {
        // least significant byte
        let primitive = Primitive::new(0x00_00_01).expect("out of valid range");
        let raw = LE3B([0x01, 0x00, 0x00]);
        assert_eq!(Primitive::from(raw), primitive);
        assert_eq!(LE3B::from(primitive), raw);
    }

    {
        // middle byte
        let primitive = Primitive::new(0x00_01_00).expect("out of valid range");
        let raw = LE3B([0x00, 0x01, 0x00]);
        assert_eq!(Primitive::from(raw), primitive);
        assert_eq!(LE3B::from(primitive), raw);
    }

    {
        // most significant byte
        let primitive = Primitive::new(0x01_00_00).expect("out of valid range");
        let raw = LE3B([0x00, 0x00, 0x01]);
        assert_eq!(Primitive::from(raw), primitive);
        assert_eq!(LE3B::from(primitive), raw);
    }

    {
        // -1
        let primitive = Primitive::new(-1).expect("out of valid range");
        let raw = LE3B([0xff, 0xff, 0xff]);
        assert_eq!(Primitive::from(raw), primitive);
        assert_eq!(LE3B::from(primitive), raw);
    }
}

#[test]
fn i24_test_be3b() {
    {
        // default
        let primitive = equilibrium();
        let raw = BE3B::default();
        assert_eq!(Primitive::from(raw), primitive);
        assert_eq!(BE3B::from(primitive), raw);
    }

    {
        // zero
        let primitive = Primitive::new(0).expect("out of valid range");
        let raw = BE3B([0x00, 0x00, 0x00]);
        assert_eq!(Primitive::from(raw), primitive);
        assert_eq!(BE3B::from(primitive), raw);
    }

    {
        // min
        let primitive = Primitive::new(-8_388_608).expect("out of valid range");
        let raw = BE3B([0x80, 0x00, 0x00]);
        assert_eq!(Primitive::from(raw), primitive);
        assert_eq!(BE3B::from(primitive), raw);
    }

    {
        // max
        let primitive = Primitive::new(8_388_607).expect("out of valid range");
        let raw = BE3B([0x7f, 0xff, 0xff]);
        assert_eq!(Primitive::from(raw), primitive);
        assert_eq!(BE3B::from(primitive), raw);
    }

    {
        // least significant byte
        let primitive = Primitive::new(0x00_00_01).expect("out of valid range");
        let raw = BE3B([0x00, 0x00, 0x01]);
        assert_eq!(Primitive::from(raw), primitive);
        assert_eq!(BE3B::from(primitive), raw);
    }

    {
        // middle byte
        let primitive = Primitive::new(0x00_01_00).expect("out of valid range");
        let raw = BE3B([0x00, 0x01, 0x00]);
        assert_eq!(Primitive::from(raw), primitive);
        assert_eq!(BE3B::from(primitive), raw);
    }

    {
        // most significant byte
        let primitive = Primitive::new(0x01_00_00).expect("out of valid range");
        let raw = BE3B([0x01, 0x00, 0x00]);
        assert_eq!(Primitive::from(raw), primitive);
        assert_eq!(BE3B::from(primitive), raw);
    }

    {
        // -1
        let primitive = Primitive::new(-1).expect("out of valid range");
        let raw = BE3B([0xff, 0xff, 0xff]);
        assert_eq!(Primitive::from(raw), primitive);
        assert_eq!(BE3B::from(primitive), raw);
    }
}

#[test]
fn i24_test_le4b() {
    let undefined = 123;
    {
        // default
        let primitive = equilibrium();
        let raw = LE4B::default();
        assert_eq!(Primitive::from(raw), primitive);
        assert_eq!(LE4B::from(primitive), raw);
    }

    {
        // zero
        let primitive = Primitive::new(0).expect("out of valid range");
        let raw = LE4B([0x00, 0x00, 0x00, undefined]);
        assert_eq!(Primitive::from(raw), primitive);
        assert_eq!(LE4B::from(primitive), raw);
    }

    {
        // min
        let primitive = Primitive::new(-8_388_608).expect("out of valid range");
        let raw = LE4B([0x00, 0x00, 0x80, undefined]);
        assert_eq!(Primitive::from(raw), primitive);
        assert_eq!(LE4B::from(primitive), raw);
    }

    {
        // max
        let primitive = Primitive::new(8_388_607).expect("out of valid range");
        let raw = LE4B([0xff, 0xff, 0x7f, undefined]);
        assert_eq!(Primitive::from(raw), primitive);
        assert_eq!(LE4B::from(primitive), raw);
    }

    {
        // least significant byte
        let primitive = Primitive::new(0x00_00_01).expect("out of valid range");
        let raw = LE4B([0x01, 0x00, 0x00, undefined]);
        assert_eq!(Primitive::from(raw), primitive);
        assert_eq!(LE4B::from(primitive), raw);
    }

    {
        // middle byte
        let primitive = Primitive::new(0x00_01_00).expect("out of valid range");
        let raw = LE4B([0x00, 0x01, 0x00, undefined]);
        assert_eq!(Primitive::from(raw), primitive);
        assert_eq!(LE4B::from(primitive), raw);
    }

    {
        // most significant byte
        let primitive = Primitive::new(0x01_00_00).expect("out of valid range");
        let raw = LE4B([0x00, 0x00, 0x01, undefined]);
        assert_eq!(Primitive::from(raw), primitive);
        assert_eq!(LE4B::from(primitive), raw);
    }

    {
        // -1
        let primitive = Primitive::new(-1).expect("out of valid range");
        let raw = LE4B([0xff, 0xff, 0xff, undefined]);
        assert_eq!(Primitive::from(raw), primitive);
        assert_eq!(LE4B::from(primitive), raw);
    }
}

#[test]
fn i24_test_be4b() {
    let undefined = 123;
    {
        // default
        let primitive = equilibrium();
        let raw = BE4B::default();
        assert_eq!(Primitive::from(raw), primitive);
        assert_eq!(BE4B::from(primitive), raw);
    }

    {
        // zero
        let primitive = Primitive::new(0).expect("out of valid range");
        let raw = BE4B([undefined, 0x00, 0x00, 0x00]);
        assert_eq!(Primitive::from(raw), primitive);
        assert_eq!(BE4B::from(primitive), raw);
    }

    {
        // min
        let primitive = Primitive::new(-8_388_608).expect("out of valid range");
        let raw = BE4B([undefined, 0x80, 0x00, 0x00]);
        assert_eq!(Primitive::from(raw), primitive);
        assert_eq!(BE4B::from(primitive), raw);
    }

    {
        // max
        let primitive = Primitive::new(8_388_607).expect("out of valid range");
        let raw = BE4B([undefined, 0x7f, 0xff, 0xff]);
        assert_eq!(Primitive::from(raw), primitive);
        assert_eq!(BE4B::from(primitive), raw);
    }

    {
        // least significant byte
        let primitive = Primitive::new(0x00_00_01).expect("out of valid range");
        let raw = BE4B([undefined, 0x00, 0x00, 0x01]);
        assert_eq!(Primitive::from(raw), primitive);
        assert_eq!(BE4B::from(primitive), raw);
    }

    {
        // middle byte
        let primitive = Primitive::new(0x00_01_00).expect("out of valid range");
        let raw = BE4B([undefined, 0x00, 0x01, 0x00]);
        assert_eq!(Primitive::from(raw), primitive);
        assert_eq!(BE4B::from(primitive), raw);
    }

    {
        // most significant byte
        let primitive = Primitive::new(0x01_00_00).expect("out of valid range");
        let raw = BE4B([undefined, 0x01, 0x00, 0x00]);
        assert_eq!(Primitive::from(raw), primitive);
        assert_eq!(BE4B::from(primitive), raw);
    }

    {
        // -1
        let primitive = Primitive::new(-1).expect("out of valid range");
        let raw = BE4B([undefined, 0xff, 0xff, 0xff]);
        assert_eq!(Primitive::from(raw), primitive);
        assert_eq!(BE4B::from(primitive), raw);
    }
}
