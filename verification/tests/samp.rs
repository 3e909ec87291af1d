use fon::samp::{Samp16, Samp24, Sample};

#[test]
fn ch16_roundtrip() {
    assert_eq!(-32768, i16::from(Samp16::min_value()));
    assert_eq!(0, i16::from(Samp16::mid_value()));
    assert_eq!(32767, i16::from(Samp16::max_value()));

    assert_eq!(Samp16::min_value(), Samp16::new(i16::from(Samp16::min_value())));
    assert_eq!(Samp16::mid_value(), Samp16::new(i16::from(Samp16::mid_value())));
    assert_eq!(Samp16::max_value(), Samp16::new(i16::from(Samp16::max_value())));
}

#[test]
fn ch24_roundtrip() {
    assert_eq!(-8388608, i32::from(Samp24::min_value()));
    assert_eq!(0, i32::from(Samp24::mid_value()));
    assert_eq!(8388607, i32::from(Samp24::max_value()));

    assert_eq!(Samp24::min_value(), Samp24::new(i32::from(Samp24::min_value())));
    assert_eq!(Samp24::mid_value(), Samp24::new(i32::from(Samp24::mid_value())));
    assert_eq!(Samp24::max_value(), Samp24::new(i32::from(Samp24::max_value())));
}

#[test]
fn ch16_to_ch24() {
    assert_eq!(Samp24::min_value(), Samp24::from(Samp16::min_value()));
    assert_eq!(Samp24::new(128), Samp24::from(Samp16::mid_value()));
    assert_eq!(Samp24::max_value(), Samp24::from(Samp16::max_value()));
}

#[test]
fn ch24_to_ch16() {
    assert_eq!(Samp16::min_value(), Samp16::from(Samp24::min_value()));
    assert_eq!(Samp16::mid_value(), Samp16::from(Samp24::mid_value()));
    assert_eq!(Samp16::max_value(), Samp16::from(Samp24::max_value()));
}

#[test]
fn ch16_arith() {
    // Test addition
    assert_eq!(Samp16::new(-1), Samp16::new(-32768) + Samp16::new(32767));
    assert_eq!(Samp16::new(8192), Samp16::new(-8192) + Samp16::new(16384));
    assert_eq!(Samp16::max_value(), Samp16::mid_value() + Samp16::max_value());
    assert_eq!(Samp16::min_value(), Samp16::new(-16384) + Samp16::new(-16384));
    // Test subtraction
    assert_eq!(Samp16::new(0), Samp16::new(-32768) - Samp16::new(-32768));
    assert_eq!(Samp16::new(0), Samp16::new(32767) - Samp16::new(32767));
    assert_eq!(Samp16::new(-32767), Samp16::new(0) - Samp16::new(32767));
    // Test multiplication
    assert_eq!(Samp16::new(0), Samp16::new(0) * Samp16::new(32767));
    assert_eq!(Samp16::new(32767), Samp16::new(32767) * Samp16::new(32767));
    assert_eq!(Samp16::new(-32768), Samp16::new(32767) * Samp16::new(-32768));
    assert_eq!(Samp16::new(-32768), Samp16::new(-32768) * Samp16::new(32767));
    assert_eq!(Samp16::new(32767), Samp16::new(-32768) * Samp16::new(-32768));
    assert_eq!(Samp16::new(-16384), Samp16::new(32767) * Samp16::new(-16384));
    // Test negation
    assert_eq!(Samp16::min_value(), -Samp16::max_value());
    assert_eq!(Samp16::max_value(), -Samp16::min_value());
    assert_eq!(Samp16::new(-1), -Samp16::new(0));
    assert_eq!(Samp16::new(0), -Samp16::new(-1));
}

#[test]
fn ch24_arith() {
    // Test addition
    assert_eq!(Samp24::new(-1), Samp24::new(-8388608) + Samp24::new(8388607));
    assert_eq!(
        Samp24::new(2097152),
        Samp24::new(-2097152) + Samp24::new(4194304)
    );
    assert_eq!(Samp24::max_value(), Samp24::mid_value() + Samp24::max_value());
    assert_eq!(Samp24::min_value(), Samp24::new(-4194304) + Samp24::new(-4194304));
    // Test subtraction
    assert_eq!(Samp24::new(0), Samp24::new(-8388608) - Samp24::new(-8388608));
    assert_eq!(Samp24::new(0), Samp24::new(8388607) - Samp24::new(8388607));
    assert_eq!(Samp24::new(-8388607), Samp24::new(0) - Samp24::new(8388607));
    // Test multiplication
    assert_eq!(Samp24::new(0), Samp24::new(0) * Samp24::new(8388607));
    assert_eq!(Samp24::new(8388607), Samp24::new(8388607) * Samp24::new(8388607));
    assert_eq!(
        Samp24::new(-8388608),
        Samp24::new(8388607) * Samp24::new(-8388608)
    );
    assert_eq!(
        Samp24::new(-8388608),
        Samp24::new(-8388608) * Samp24::new(8388607)
    );
    assert_eq!(
        Samp24::new(8388607),
        Samp24::new(-8388608) * Samp24::new(-8388608)
    );
    assert_eq!(
        Samp24::new(-4194304),
        Samp24::new(8388607) * Samp24::new(-4194304)
    );
    // Test negation
    assert_eq!(Samp24::min_value(), -Samp24::max_value());
    assert_eq!(Samp24::max_value(), -Samp24::min_value());
    assert_eq!(Samp24::new(-1), -Samp24::new(0));
    assert_eq!(Samp24::new(0), -Samp24::new(-1));
}

#[test]
fn ch16_saturation() {
    assert_eq!(Samp16::max_value(), Samp16::new(24576) + Samp16::new(16384));
    assert_eq!(Samp16::min_value(), Samp16::new(-16384) + Samp16::new(-24576));
    assert_eq!(Samp16::min_value(), Samp16::new(-16384) - Samp16::new(24576));
}

#[test]
fn ch24_saturation() {
    assert_eq!(Samp24::max_value(), Samp24::new(6291456) + Samp24::new(4194304));
    assert_eq!(Samp24::min_value(), Samp24::new(-4194304) + Samp24::new(-6291456));
    assert_eq!(Samp24::min_value(), Samp24::new(-4194304) - Samp24::new(6291456));
}

#[test]
fn ch16_roundtrip_every_code() {
    for v in i16::MIN..=i16::MAX {
        assert_eq!(v, i16::from(Samp16::new(v)));
        assert_eq!(Samp16::new(v), Samp16::from_code(i32::from(v)));
        assert_eq!(i32::from(v), Samp16::new(v).code());
        // Promotion to 24 bits and back is lossless.
        assert_eq!(Samp16::new(v), Samp16::from(Samp24::from(Samp16::new(v))));
    }
}

#[test]
fn ch24_roundtrip_sampled_codes() {
    let mut v: i32 = -8_388_608;
    while v <= 8_388_607 {
        assert_eq!(v, i32::from(Samp24::new(v)));
        assert_eq!(v, Samp24::new(v).code());
        assert_eq!(Samp24::new(v), Samp24::from_le_bytes(Samp24::new(v).to_le_bytes()));
        v += 257;
    }
    assert_eq!(8_388_607, i32::from(Samp24::new(8_388_607)));
}

#[test]
fn ch24_new_saturates() {
    assert_eq!(Samp24::max_value(), Samp24::new(8_388_608));
    assert_eq!(Samp24::max_value(), Samp24::new(i32::MAX));
    assert_eq!(Samp24::min_value(), Samp24::new(-8_388_609));
    assert_eq!(Samp24::min_value(), Samp24::new(i32::MIN));
    assert_eq!(Samp16::max_value(), Samp16::from_code(32_768));
    assert_eq!(Samp16::min_value(), Samp16::from_code(-32_769));
}

#[test]
fn ch16_to_ch24_exact_bytes() {
    // The 16-bit code is the upper two bytes; the low byte is the code's
    // upper byte with its top bit flipped.
    assert_eq!(0x12_34_92, i32::from(Samp24::from(Samp16::new(0x1234))));
    assert_eq!(1 * 256 + 128, i32::from(Samp24::from(Samp16::new(1))));
    assert_eq!(-1 * 256 + 127, i32::from(Samp24::from(Samp16::new(-1))));
    assert_eq!(-256 * 256 + 127, i32::from(Samp24::from(Samp16::new(-256))));
    assert_eq!(-257 * 256 + 126, i32::from(Samp24::from(Samp16::new(-257))));
    assert_eq!(Samp24::new(0x12_34_92), Samp24::from_samp16(Samp16::new(0x1234)));
    assert_eq!(Samp24::new(0x12_34_92), Samp16::new(0x1234).into_samp24());
    assert_eq!(Samp24::new(0x12_34_92), fon::samp::convert::<Samp16, Samp24>(Samp16::new(0x1234)));
}

#[test]
fn ch24_to_ch16_takes_upper_bytes() {
    assert_eq!(Samp16::new(0x1234), Samp16::from(Samp24::new(0x12_34_56)));
    assert_eq!(Samp16::new(-1), Samp16::from(Samp24::new(-1)));
    assert_eq!(Samp16::new(-1), Samp16::from(Samp24::new(-256)));
    assert_eq!(Samp16::new(-2), Samp16::from(Samp24::new(-257)));
    assert_eq!(Samp16::new(0x1234), Samp16::from_samp24(Samp24::new(0x12_34_56)));
    assert_eq!(Samp16::new(0x1234), Samp24::new(0x12_34_56).into_samp16());
    assert_eq!(Samp16::new(0x1234), fon::samp::convert::<Samp24, Samp16>(Samp24::new(0x12_34_56)));
    assert_eq!(Samp16::new(7), fon::samp::convert::<Samp16, Samp16>(Samp16::new(7)));
    assert_eq!(Samp24::new(7), fon::samp::convert::<Samp24, Samp24>(Samp24::new(7)));
}

#[test]
fn ch24_bytes_low_byte_first() {
    assert_eq!([0x56, 0x34, 0x12], Samp24::new(0x12_34_56).to_le_bytes());
    assert_eq!([0xff, 0xff, 0xff], Samp24::new(-1).to_le_bytes());
    assert_eq!([0x00, 0x00, 0x80], Samp24::min_value().to_le_bytes());
    assert_eq!([0xff, 0xff, 0x7f], Samp24::max_value().to_le_bytes());
    assert_eq!(Samp24::new(0x12_34_56), Samp24::from_le_bytes([0x56, 0x34, 0x12]));
    assert_eq!(Samp24::new(-2), Samp24::from_le_bytes([0xfe, 0xff, 0xff]));
    assert_eq!(Samp24::min_value(), Samp24::from_le_bytes([0x00, 0x00, 0x80]));
}

#[test]
fn multiplication_rounds_toward_zero() {
    assert_eq!(Samp16::new(0), Samp16::new(1) * Samp16::new(-32766));
    assert_eq!(Samp16::new(-1), Samp16::new(1) * Samp16::new(-32767));
    assert_eq!(Samp16::new(-1), Samp16::new(2) * Samp16::new(-16384));
    assert_eq!(Samp16::new(1), Samp16::new(2) * Samp16::new(16384));
    assert_eq!(Samp16::new(8191), Samp16::new(16384) * Samp16::new(16383));
    assert_eq!(Samp24::new(-1), Samp24::new(2) * Samp24::new(-4194304));
    assert_eq!(Samp24::new(0), Samp24::new(1) * Samp24::new(-8388606));
}

#[test]
fn negation_flips_every_bit() {
    for v in [-32768i16, -12345, -1, 0, 1, 77, 32767] {
        assert_eq!(Samp16::new(!v), -Samp16::new(v));
        assert_eq!(Samp16::new(v), -(-Samp16::new(v)));
    }
    for v in [-8388608i32, -123456, -1, 0, 1, 77, 8388607] {
        assert_eq!(Samp24::new(!v), -Samp24::new(v));
        assert_eq!(Samp24::new(v), -(-Samp24::new(v)));
    }
}

#[test]
fn lerp_is_saturating_interpolation() {
    // a + t * (b - a), with the highest code standing for a gain of one.
    assert_eq!(Samp16::new(100), Samp16::new(100).lerp(Samp16::new(200), Samp16::new(0)));
    assert_eq!(Samp16::new(200), Samp16::new(100).lerp(Samp16::new(200), Samp16::max_value()));
    assert_eq!(Samp16::new(150), Samp16::new(100).lerp(Samp16::new(200), Samp16::new(16384)));
    // The difference saturates first: 32767 - (-32768) is limited to 32767.
    assert_eq!(
        Samp16::new(-1),
        Samp16::min_value().lerp(Samp16::max_value(), Samp16::max_value())
    );
    assert_eq!(Samp24::new(1500), Samp24::new(1000).lerp(Samp24::new(2000), Samp24::new(4194304)));
}

#[test]
fn assigning_operators() {
    let mut a = Samp16::new(24576);
    a += Samp16::new(16384);
    assert_eq!(Samp16::max_value(), a);
    a -= Samp16::new(32767);
    assert_eq!(Samp16::new(0), a);
    a -= Samp16::new(5);
    a *= Samp16::new(-32768);
    assert_eq!(Samp16::new(5), a);
    let mut b = Samp24::new(6291456);
    b += Samp24::new(4194304);
    assert_eq!(Samp24::max_value(), b);
    b -= Samp24::new(8388607);
    b -= Samp24::new(3);
    b *= Samp24::new(8388607);
    assert_eq!(Samp24::new(-3), b);
}

#[test]
fn samples_are_ordered_by_code() {
    assert!(Samp16::new(-1) < Samp16::new(0));
    assert!(Samp16::min_value() < Samp16::max_value());
    assert!(Samp16::new(5) >= Samp16::new(5));
    assert!(Samp24::new(-1) < Samp24::new(0));
    assert!(Samp24::new(255) < Samp24::new(256));
    assert!(Samp24::new(-257) < Samp24::new(-256));
    assert!(Samp24::min_value() < Samp24::max_value());
    assert_eq!(Samp16::new(0), Samp16::default());
    assert_eq!(Samp24::new(0), Samp24::default());
}

#[test]
fn ratios_are_quantized_downward() {
    assert_eq!(Samp16::new(16383), Samp16::from_ratio(1, 2));
    assert_eq!(Samp16::new(10922), Samp16::from_ratio(1, 3));
    assert_eq!(Samp16::new(21845), Samp16::from_ratio(2, 3));
    assert_eq!(Samp16::new(-16384), Samp16::from_ratio(-1, 2));
    assert_eq!(Samp16::new(0), Samp16::from_ratio(0, 7));
    assert_eq!(Samp16::new(-1), Samp16::from_ratio(-1, u32::MAX));
    assert_eq!(Samp16::max_value(), Samp16::from_ratio(1, 1));
    assert_eq!(Samp16::max_value(), Samp16::from_ratio(2, 1));
    assert_eq!(Samp16::max_value(), Samp16::from_ratio(i64::MAX, 1));
    assert_eq!(Samp16::min_value(), Samp16::from_ratio(-1, 1));
    assert_eq!(Samp16::min_value(), Samp16::from_ratio(i64::MIN, u32::MAX));
    assert_eq!(Samp24::new(4194303), Samp24::from_ratio(1, 2));
    assert_eq!(Samp24::new(-4194304), Samp24::from_ratio(-1, 2));
    assert_eq!(Samp24::max_value(), Samp24::from_ratio(5, 5));
    assert_eq!(Samp24::min_value(), Samp24::from_ratio(-7, 5));
    // A ratio over nothing is as large as can be.
    assert_eq!(Samp16::max_value(), Samp16::from_ratio(1, 0));
    assert_eq!(Samp16::min_value(), Samp16::from_ratio(-1, 0));
    assert_eq!(Samp16::mid_value(), Samp16::from_ratio(0, 0));
    assert_eq!(Samp24::max_value(), Samp24::from_ratio(1, 0));
    assert_eq!(Samp24::min_value(), Samp24::from_ratio(-1, 0));
    assert_eq!(Samp24::mid_value(), Samp24::from_ratio(0, 0));
}

#[test]
fn ratio_roundtrip() {
    assert_eq!((1, 65_535), Samp16::mid_value().as_ratio());
    assert_eq!((65_535, 65_535), Samp16::max_value().as_ratio());
    assert_eq!((-65_535, 65_535), Samp16::min_value().as_ratio());
    assert_eq!((1, 16_777_215), Samp24::mid_value().as_ratio());
    assert_eq!((16_777_215, 16_777_215), Samp24::max_value().as_ratio());
    assert_eq!((-16_777_215, 16_777_215), Samp24::min_value().as_ratio());
    for v in i16::MIN..=i16::MAX {
        let (num, den) = Samp16::new(v).as_ratio();
        assert_eq!(Samp16::new(v), Samp16::from_ratio(i64::from(num), den));
    }
    let mut v: i32 = -8_388_608;
    while v <= 8_388_607 {
        let (num, den) = Samp24::new(v).as_ratio();
        assert_eq!(Samp24::new(v), Samp24::from_ratio(i64::from(num), den));
        v += 4099;
    }
}

fn ratio_as_f32((num, den): (i32, u32)) -> f32 {
    num as f32 / den as f32
}

#[test]
fn ch16() {
    assert_eq!(-1.0, ratio_as_f32(Samp16::min_value().as_ratio()));
    assert_eq!(0.000015259022, ratio_as_f32(Samp16::mid_value().as_ratio()));
    assert_eq!(1.0, ratio_as_f32(Samp16::max_value().as_ratio()));

    let back = |s: Samp16| Samp16::from_ratio(i64::from(s.as_ratio().0), s.as_ratio().1);
    assert_eq!(Samp16::min_value(), back(Samp16::min_value()));
    assert_eq!(Samp16::mid_value(), back(Samp16::mid_value()));
    assert_eq!(Samp16::max_value(), back(Samp16::max_value()));
}

#[test]
fn ch24() {
    assert_eq!(-1.0, ratio_as_f32(Samp24::min_value().as_ratio()));
    assert_eq!(0.00000005960465, ratio_as_f32(Samp24::mid_value().as_ratio()));
    assert_eq!(1.0, ratio_as_f32(Samp24::max_value().as_ratio()));

    let back = |s: Samp24| Samp24::from_ratio(i64::from(s.as_ratio().0), s.as_ratio().1);
    assert_eq!(Samp24::min_value(), back(Samp24::min_value()));
    assert_eq!(Samp24::mid_value(), back(Samp24::mid_value()));
    assert_eq!(Samp24::max_value(), back(Samp24::max_value()));
}

#[test]
fn gain_scales_the_real_value() {
    assert_eq!(Samp16::new(1000), Samp16::new(1000).gain(1, 1));
    assert_eq!(Samp16::new(500), Samp16::new(1000).gain(1, 2));
    assert_eq!(Samp16::new(2001), Samp16::new(1000).gain(2, 1));
    assert_eq!(Samp16::new(-500), Samp16::new(-1000).gain(1, 2));
    assert_eq!(Samp16::new(0), Samp16::new(1000).gain(0, 1));
    assert_eq!(Samp16::new(-1), Samp16::new(0).gain(-1, 3));
    // A gain of minus one is the negation.
    for v in [-32768i16, -1000, -1, 0, 1, 1000, 32767] {
        assert_eq!(-Samp16::new(v), Samp16::new(v).gain(-1, 1));
        assert_eq!(Samp16::new(v), Samp16::new(v).gain(7, 7));
    }
    // More than one may clip.
    assert_eq!(Samp16::max_value(), Samp16::new(20000).gain(2, 1));
    assert_eq!(Samp16::min_value(), Samp16::new(-20000).gain(2, 1));
    assert_eq!(Samp16::max_value(), Samp16::new(1).gain(i64::MAX, 1));
    assert_eq!(Samp16::min_value(), Samp16::new(1).gain(i64::MIN, 1));
    assert_eq!(Samp16::max_value(), Samp16::new(0).gain(1, 0));
    assert_eq!(Samp16::min_value(), Samp16::new(-1).gain(1, 0));
    assert_eq!(Samp16::mid_value(), Samp16::new(5).gain(0, 0));
    assert_eq!(Samp24::new(500_000), Samp24::new(1_000_000).gain(1, 2));
    assert_eq!(Samp24::max_value(), Samp24::new(5_000_000).gain(2, 1));
    assert_eq!(-Samp24::new(77), Samp24::new(77).gain(-1, 1));
}
