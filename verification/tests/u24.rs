use sample_buffers::types::u24::{equilibrium, Primitive, BE3B, BE4B, LE3B, LE4B};

#[test]
fn u24_test_le3b() {
    {
        // default
        let primitive = equilibrium();
        let raw = LE3B::default();
        assert_eq!(Primitive::from(raw), primitive);
        assert_eq!(LE3B::from(primitive), raw);
    }

    {
        // min/zero
        let primitive = Primitive::new(0).expect("out of valid range");
        let raw = LE3B([0x00, 0x00, 0x00]);
        assert_eq!(Primitive::from(raw), primitive);
        assert_eq!(LE3B::from(primitive), raw);
    }

    {
        // max
        let primitive = Primitive::new(0xff_ff_ff).expect("out of valid range");
        let raw = LE3B([0xff, 0xff, 0xff]);
        assert_eq!(Primitive::from(raw), primitive);
        assert_eq!(LE3B::from(primitive), raw);
    }

    {
        // least significant byte
        let primitive = Primitive::new(0x00_00_01).expect("out of valid range");
        let raw = LE3B([0x01, 0x00, 0x00]);
        assert_eq!(Primitive::from(raw), primitive);
        assert_eq!(LE3B::from(primitive), raw);
    }

    {
        // middle byte
        let primitive = Primitive::new(0x00_01_00).expect("out of valid range");
        let raw = LE3B([0x00, 0x01, 0x00]);
        assert_eq!(Primitive::from(raw), primitive);
        assert_eq!(LE3B::from(primitive), raw);
    }

    {
        // most significant byte
        let primitive = Primitive::new(0x01_00_00).expect("out of valid range");
        let raw = LE3B([0x00, 0x00, 0x01]);
        assert_eq!(Primitive::from(raw), primitive);
        assert_eq!(LE3B::from(primitive), raw);
    }

    {
        // most significant bit
        let primitive = Primitive::new(0x80_00_00).expect("out of valid range");
        let raw = LE3B([0x00, 0x00, 0x80]);
        assert_eq!(Primitive::from(raw), primitive);
        assert_eq!(LE3B::from(primitive), raw);
    }
}

#[test]
fn u24_test_be3b() {
    {
        // default
        let primitive = equilibrium();
        let raw = BE3B::default();
        assert_eq!(Primitive::from(raw), primitive);
        assert_eq!(BE3B::from(primitive), raw);
    }

    {
        // min/zero
        let primitive = Primitive::new(0).expect("out of valid range");
        let raw = BE3B([0x00, 0x00, 0x00]);
        assert_eq!(Primitive::from(raw), primitive);
        assert_eq!(BE3B::from(primitive), raw);
    }

    {
        // max
        let primitive = Primitive::new(0xff_ff_ff).expect("out of valid range");
        let raw = BE3B([0xff, 0xff, 0xff]);
        assert_eq!(Primitive::from(raw), primitive);
        assert_eq!(BE3B::from(primitive), raw);
    }

    {
        // least significant byte
        let primitive = Primitive::new(0x00_00_01).expect("out of valid range");
        let raw = BE3B([0x00, 0x00, 0x01]);
        assert_eq!(Primitive::from(raw), primitive);
        assert_eq!(BE3B::from(primitive), raw);
    }

    {
        // middle byte
        let primitive = Primitive::new(0x00_01_00).expect("out of valid range");
        let raw = BE3B([0x00, 0x01, 0x00]);
        assert_eq!(Primitive::from(raw), primitive);
        assert_eq!(BE3B::from(primitive), raw);
    }

    {
        // most significant byte
        let primitive = Primitive::new(0x01_00_00).expect("out of valid range");
        let raw = BE3B([0x01, 0x00, 0x00]);
        assert_eq!(Primitive::from(raw), primitive);
        assert_eq!(BE3B::from(primitive), raw);
    }

    {
        // most significant bit
        let primitive = Primitive::new(0x80_00_00).expect("out of valid range");
        let raw = BE3B([0x80, 0x00, 0x00]);
        assert_eq!(Primitive::from(raw), primitive);
        assert_eq!(BE3B::from(primitive), raw);
    }
}

#[test]
fn u24_test_le4b() {
    let undefined = 123;
    {
        // default
        let primitive = equilibrium();
        let raw = LE4B::default();
        assert_eq!(Primitive::from(raw), primitive);
        assert_eq!(LE4B::from(primitive), raw);
    }

    {
        // min/zero
        let primitive = Primitive::new(0).expect("out of valid range");
        let raw = LE4B([0x00, 0x00, 0x00, undefined]);
        assert_eq!(Primitive::from(raw), primitive);
        assert_eq!(LE4B::from(primitive), raw);
    }

    {
        // max
        let primitive = Primitive::new(0xff_ff_ff).expect("out of valid range");
        let raw = LE4B([0xff, 0xff, 0xff, undefined]);
        assert_eq!(Primitive::from(raw), primitive);
        assert_eq!(LE4B::from(primitive), raw);
    }

    {
        // least significant byte
        let primitive = Primitive::new(0x00_00_01).expect("out of valid range");
        let raw = LE4B([0x01, 0x00, 0x00, undefined]);
        assert_eq!(Primitive::from(raw), primitive);
        assert_eq!(LE4B::from(primitive), raw);
    }

    {
        // middle byte
        let primitive = Primitive::new(0x00_01_00).expect("out of valid range");
        let raw = LE4B([0x00, 0x01, 0x00, undefined]);
        assert_eq!(Primitive::from(raw), primitive);
        assert_eq!(LE4B::from(primitive), raw);
    }

    {
        // most significant byte
        let primitive = Primitive::new(0x01_00_00).expect("out of valid range");
        let raw = LE4B([0x00, 0x00, 0x01, undefined]);
        assert_eq!(Primitive::from(raw), primitive);
        assert_eq!(LE4B::from(primitive), raw);
    }

    {
        // most significant bit
        let primitive = Primitive::new(0x80_00_00).expect("out of valid range");
        let raw = LE4B([0x00, 0x00, 0x80, undefined]);
        assert_eq!(Primitive::from(raw), primitive);
        assert_eq!(LE4B::from(primitive), raw);
    }
}

#[test]
fn u24_test_be4b() {
    let undefined = 123;
    {
        // default
        let primitive = equilibrium();
        let raw = BE4B::default();
        assert_eq!(Primitive::from(raw), primitive);
        assert_eq!(BE4B::from(primitive), raw);
    }

    {
        // min/zero
        let primitive = Primitive::new(0).expect("out of valid range");
        let raw = BE4B([undefined, 0x00, 0x00, 0x00]);
        assert_eq!(Primitive::from(raw), primitive);
        assert_eq!(BE4B::from(primitive), raw);
    }

    {
        // max
        let primitive = Primitive::new(0xff_ff_ff).expect("out of valid range");
        let raw = BE4B([undefined, 0xff, 0xff, 0xff]);
        assert_eq!(Primitive::from(raw), primitive);
        assert_eq!(BE4B::from(primitive), raw);
    }

    {
        // least significant byte
        let primitive = Primitive::new(0x00_00_01).expect("out of valid range");
        let raw = BE4B([undefined, 0x00, 0x00, 0x01]);
        assert_eq!(Primitive::from(raw), primitive);
        assert_eq!(BE4B::from(primitive), raw);
    }

    {
        // middle byte
        let primitive = Primitive::new(0x00_01_00).expect("out of valid range");
        let raw = BE4B([undefined, 0x00, 0x01, 0x00]);
        assert_eq!(Primitive::from(raw), primitive);
        assert_eq!(BE4B::from(primitive), raw);
    }

    {
        // most significant byte
        let primitive = Primitive::new(0x01_00_00).expect("out of valid range");
        let raw = BE4B([undefined, 0x01, 0x00, 0x00]);
        assert_eq!(Primitive::from(raw), primitive);
        assert_eq!(BE4B::from(primitive), raw);
    }

    {
        // most significant bit
        let primitive = Primitive::new(0x80_00_00).expect("out of valid range");
        let raw = BE4B([undefined, 0x80, 0x00, 0x00]);
        assert_eq!(Primitive::from(raw), primitive);
        assert_eq!(BE4B::from(primitive), raw);
    }
}
