use fon::frame::{Frame, Gains, Mix};
use fon::layout::Angle;
use fon::pos::{
    Back, BackL, BackR, Center, Front, FrontL, FrontR, Left, Lfe, Mono, Right, SurroundL,
    SurroundR,
};
use fon::samp::{Samp16, Samp24, Sample};

fn s16(v: i16) -> Samp16 {
    Samp16::new(v)
}

fn s24(v: i32) -> Samp24 {
    Samp24::new(v)
}

fn gains(near: i16, far: i16) -> Gains<Samp16> {
    Gains::new(s16(near), s16(far)).unwrap()
}

fn unit_gains() -> [Gains<Samp16>; 8] {
    [Gains::on_near(); 8]
}

#[test]
fn frames_hold_their_samples_in_channel_order() {
    assert_eq!(&[s16(1)], Frame::<Samp16, 1>::new(s16(1)).samples());
    assert_eq!(&[s16(1), s16(2)], Frame::<Samp16, 2>::new(s16(1), s16(2)).samples());
    assert_eq!(
        &[s16(1), s16(2), s16(3)],
        Frame::<Samp16, 3>::new(s16(1), s16(2), s16(3)).samples()
    );
    assert_eq!(
        &[s16(1), s16(2), s16(3), s16(4)],
        Frame::<Samp16, 4>::new(s16(1), s16(2), s16(3), s16(4)).samples()
    );
    assert_eq!(
        &[s16(1), s16(2), s16(3), s16(4), s16(5)],
        Frame::<Samp16, 5>::new(s16(1), s16(2), s16(3), s16(4), s16(5)).samples()
    );
    assert_eq!(
        &[s16(1), s16(2), s16(3), s16(4), s16(5), s16(6)],
        Frame::<Samp16, 6>::new(s16(1), s16(2), s16(3), s16(4), s16(5), s16(6)).samples()
    );
    assert_eq!(
        &[s16(1), s16(2), s16(3), s16(4), s16(5), s16(6), s16(7)],
        Frame::<Samp16, 7>::new(s16(1), s16(2), s16(3), s16(4), s16(5), s16(6), s16(7)).samples()
    );
    assert_eq!(
        &[s16(1), s16(2), s16(3), s16(4), s16(5), s16(6), s16(7), s16(8)],
        Frame::<Samp16, 8>::new(s16(1), s16(2), s16(3), s16(4), s16(5), s16(6), s16(7), s16(8))
            .samples()
    );
    assert_eq!(&[s24(9); 5], Frame::<Samp24, 5>::splat(s24(9)).samples());
    assert_eq!(&[s24(0); 7], Frame::<Samp24, 7>::default().samples());
}

#[test]
fn samples_can_be_changed_in_place() {
    let mut frame = Frame::<Samp16, 3>::new(s16(1), s16(2), s16(3));
    frame.samples_mut()[1] = s16(20);
    assert_eq!(Frame::<Samp16, 3>::new(s16(1), s16(20), s16(3)), frame);
}

#[test]
fn positions_index_their_channels() {
    let f1 = Frame::<Samp16, 1>::new(s16(10));
    assert_eq!(s16(10), f1[Mono]);
    let f2 = Frame::<Samp16, 2>::new(s16(10), s16(11));
    assert_eq!((s16(10), s16(11)), (f2[Left], f2[Right]));
    let f3 = Frame::<Samp16, 3>::new(s16(10), s16(11), s16(12));
    assert_eq!((s16(10), s16(11), s16(12)), (f3[Left], f3[Right], f3[Center]));
    let f4 = Frame::<Samp16, 4>::new(s16(10), s16(11), s16(12), s16(13));
    assert_eq!(
        (s16(10), s16(11), s16(12), s16(13)),
        (f4[FrontL], f4[FrontR], f4[SurroundL], f4[SurroundR])
    );
    let f5 = Frame::<Samp16, 5>::new(s16(10), s16(11), s16(12), s16(13), s16(14));
    assert_eq!(
        (s16(10), s16(11), s16(12), s16(13), s16(14)),
        (f5[FrontL], f5[FrontR], f5[Front], f5[SurroundL], f5[SurroundR])
    );
    let f6 = Frame::<Samp16, 6>::new(s16(10), s16(11), s16(12), s16(13), s16(14), s16(15));
    assert_eq!(
        (s16(10), s16(11), s16(12), s16(13), s16(14), s16(15)),
        (f6[FrontL], f6[FrontR], f6[Front], f6[Lfe], f6[SurroundL], f6[SurroundR])
    );
    let f7 =
        Frame::<Samp16, 7>::new(s16(10), s16(11), s16(12), s16(13), s16(14), s16(15), s16(16));
    assert_eq!(
        (s16(10), s16(11), s16(12), s16(13), s16(14), s16(15), s16(16)),
        (f7[FrontL], f7[FrontR], f7[Front], f7[Lfe], f7[Back], f7[Left], f7[Right])
    );
    let f8 = Frame::<Samp16, 8>::new(
        s16(10),
        s16(11),
        s16(12),
        s16(13),
        s16(14),
        s16(15),
        s16(16),
        s16(17),
    );
    assert_eq!(
        (s16(10), s16(11), s16(12), s16(13), s16(14), s16(15), s16(16), s16(17)),
        (f8[FrontL], f8[FrontR], f8[Front], f8[Lfe], f8[BackL], f8[BackR], f8[Left], f8[Right])
    );
}

#[test]
fn positions_index_mutably() {
    let mut frame = Frame::<Samp24, 6>::default();
    frame[Lfe] = s24(5);
    frame[SurroundR] = s24(6);
    frame[FrontL] = s24(7);
    assert_eq!(Frame::<Samp24, 6>::new(s24(7), s24(0), s24(0), s24(5), s24(0), s24(6)), frame);
}

#[test]
fn frame_arithmetic_is_channel_by_channel() {
    let a = Frame::<Samp16, 3>::new(s16(24576), s16(-16384), s16(100));
    let b = Frame::<Samp16, 3>::new(s16(16384), s16(-24576), s16(-30));
    assert_eq!(Frame::<Samp16, 3>::new(s16(32767), s16(-32768), s16(70)), a + b);
    assert_eq!(Frame::<Samp16, 3>::new(s16(8192), s16(8192), s16(130)), a - b);
    assert_eq!(Frame::<Samp16, 3>::new(s16(12288), s16(12288), s16(0)), a * b);
    assert_eq!(Frame::<Samp16, 3>::new(s16(-24577), s16(16383), s16(-101)), -a);
    assert_eq!(a, -(-a));
}

#[test]
fn frame_lerp_is_channel_by_channel() {
    let mut a = Frame::<Samp16, 2>::new(s16(100), s16(-100));
    a.lerp(Frame::<Samp16, 2>::new(s16(200), s16(100)), s16(16384));
    assert_eq!(Frame::<Samp16, 2>::new(s16(150), s16(0)), a);
    let mut b = Frame::<Samp16, 2>::new(s16(100), s16(-100));
    b.lerp(Frame::<Samp16, 2>::new(s16(200), s16(100)), s16(0));
    assert_eq!(Frame::<Samp16, 2>::new(s16(100), s16(-100)), b);
}

#[test]
fn pan_adds_to_the_two_speakers_of_the_arc() {
    let frame = Frame::<Samp16, 6>::new(s16(1), s16(2), s16(3), s16(4), s16(5), s16(6));
    // Straight ahead: the front speaker begins the arc to front right.
    let out = frame.pan(s16(1000), Angle::from_degrees(0), Gains::on_near());
    assert_eq!(Frame::<Samp16, 6>::new(s16(1), s16(2), s16(1003), s16(4), s16(5), s16(6)), out);
    // Half way between front and front right, with equal gains.
    let out = frame.pan(s16(1000), Angle::from_degrees(15), gains(23170, 23170));
    assert_eq!(Frame::<Samp16, 6>::new(s16(1), s16(709), s16(710), s16(4), s16(5), s16(6)), out);
    // Straight behind: between the two surround speakers.
    let out = frame.pan(s16(1000), Angle::from_degrees(180), gains(19660, -26214));
    assert_eq!(Frame::<Samp16, 6>::new(s16(1), s16(2), s16(3), s16(4), s16(-795), s16(605)), out);
    // The low frequency channel is never panned to.
    for degrees in 0..360 {
        let out = frame.pan(s16(1000), Angle::from_degrees(degrees), gains(23170, 23170));
        assert_eq!(s16(4), out[Lfe]);
    }
}

#[test]
fn pan_converts_the_sample_first() {
    let frame = Frame::<Samp24, 2>::default();
    let out = frame.pan(s16(0x1234), Angle::from_degrees(0), Gains::on_near());
    assert_eq!(Frame::<Samp24, 2>::new(s24(0x12_34_92), s24(0)), out);
    let frame = Frame::<Samp16, 1>::new(s16(5));
    let out = frame.pan(s24(0x12_34_56), Angle::from_degrees(77), gains(23170, 23170));
    // One channel gets both shares.
    assert_eq!(Frame::<Samp16, 1>::new(s16(5 + 3295 + 3295)), out);
}

#[test]
fn pan_saturates() {
    let frame = Frame::<Samp16, 2>::new(s16(30000), s16(-30000));
    let out = frame
        .pan(s16(20000), Angle::from_degrees(0), Gains::on_near())
        .pan(s16(-20000), Angle::from_degrees(0), gains(0, 32767));
    assert_eq!(Frame::<Samp16, 2>::new(s16(32767), s16(-32768)), out);
}

#[test]
fn mono_goes_to_the_first_two_channels() {
    let mono = Frame::<Samp16, 1>::new(s16(1234));
    let mix = Mix::<Samp16, Samp16, 1, 2>::unity();
    assert_eq!(Frame::<Samp16, 2>::new(s16(1234), s16(1234)), mono.to(&mix));
    // Whatever the gains are.
    let mix = Mix::<Samp16, Samp16, 1, 2>::new([gains(19660, 26214); 8]);
    assert_eq!(Frame::<Samp16, 2>::new(s16(1234), s16(1234)), mono.to(&mix));
    let mix = Mix::<Samp16, Samp16, 1, 6>::unity();
    assert_eq!(
        Frame::<Samp16, 6>::new(s16(1234), s16(1234), s16(0), s16(0), s16(0), s16(0)),
        mono.to(&mix)
    );
    let mix = Mix::<Samp16, Samp24, 1, 3>::unity();
    assert_eq!(
        Frame::<Samp24, 3>::new(s24(1234 * 256 + 132), s24(1234 * 256 + 132), s24(0)),
        mono.to(&mix)
    );
    let mix = Mix::<Samp16, Samp16, 1, 1>::unity();
    assert_eq!(mono, mono.to(&mix));
}

#[test]
fn stereo_goes_to_the_first_two_channels_or_their_mean() {
    let stereo = Frame::<Samp16, 2>::new(s16(1000), s16(-400));
    let mix = Mix::<Samp16, Samp16, 2, 1>::unity();
    assert_eq!(Frame::<Samp16, 1>::new(s16(300)), stereo.to(&mix));
    let mix = Mix::<Samp16, Samp16, 2, 1>::new([gains(19660, 26214); 8]);
    assert_eq!(Frame::<Samp16, 1>::new(s16(300)), stereo.to(&mix));
    let mix = Mix::<Samp16, Samp16, 2, 5>::unity();
    assert_eq!(
        Frame::<Samp16, 5>::new(s16(1000), s16(-400), s16(0), s16(0), s16(0)),
        stereo.to(&mix)
    );
    // The mean is rounded down, and never leaves the range.
    let mix = Mix::<Samp16, Samp16, 2, 1>::unity();
    assert_eq!(
        Frame::<Samp16, 1>::new(s16(3)),
        Frame::<Samp16, 2>::new(s16(3), s16(4)).to(&mix)
    );
    assert_eq!(
        Frame::<Samp16, 1>::new(s16(-4)),
        Frame::<Samp16, 2>::new(s16(-3), s16(-4)).to(&mix)
    );
    assert_eq!(
        Frame::<Samp16, 1>::new(s16(32767)),
        Frame::<Samp16, 2>::new(s16(32767), s16(32767)).to(&mix)
    );
    assert_eq!(
        Frame::<Samp16, 1>::new(s16(-32768)),
        Frame::<Samp16, 2>::new(s16(-32768), s16(-32768)).to(&mix)
    );
    let mix = Mix::<Samp24, Samp16, 2, 1>::unity();
    assert_eq!(
        Frame::<Samp16, 1>::new(s16(0x1200)),
        Frame::<Samp24, 2>::new(s24(0x12_34_56), s24(0x11_cc_00)).to(&mix)
    );
}

#[test]
fn the_same_layout_is_copied() {
    let frame = Frame::<Samp16, 6>::new(s16(1), s16(-2), s16(3), s16(-4), s16(5), s16(-6));
    let mix = Mix::<Samp16, Samp16, 6, 6>::new([gains(19660, 26214); 8]);
    assert_eq!(frame, frame.to(&mix));
    let mix = Mix::<Samp16, Samp24, 6, 6>::unity();
    assert_eq!(
        Frame::<Samp24, 6>::new(
            s24(256 + 128),
            s24(-2 * 256 + 127),
            s24(3 * 256 + 128),
            s24(-4 * 256 + 127),
            s24(5 * 256 + 128),
            s24(-6 * 256 + 127)
        ),
        frame.to(&mix)
    );
}

#[test]
fn surround_5_1_to_7_1_with_unit_gains() {
    // Front left, front right, front and the low frequency channel have
    // their own speakers; the surround speakers begin the arcs to the side
    // speakers' neighbours.
    let frame = Frame::<Samp16, 6>::new(s16(1), s16(2), s16(3), s16(4), s16(5), s16(6));
    let mix = Mix::<Samp16, Samp16, 6, 8>::new(unit_gains());
    // Left surround is on the arc from back left to left, right surround on
    // the arc from right to back right.
    assert_eq!(
        Frame::<Samp16, 8>::new(s16(1), s16(2), s16(3), s16(4), s16(5), s16(0), s16(0), s16(6)),
        frame.to(&mix)
    );
}

#[test]
fn surround_5_1_to_stereo_with_gains() {
    let frame =
        Frame::<Samp16, 6>::new(s16(1000), s16(2000), s16(3000), s16(4000), s16(5000), s16(6000));
    let mut pairs = unit_gains();
    pairs[2] = gains(23170, 23170);
    let mix = Mix::<Samp16, Samp16, 6, 2>::new(pairs);
    // Every channel at a third of its level; front in both channels with
    // equal gains, every other channel in the first.
    assert_eq!(
        Frame::<Samp16, 2>::new(s16(333 + 666 + 706 + 1333 + 1666 + 1999), s16(706)),
        frame.to(&mix)
    );
}

#[test]
fn low_frequency_channel_goes_behind_where_there_is_none() {
    let frame = Frame::<Samp16, 6>::new(s16(0), s16(0), s16(0), s16(4000), s16(0), s16(0));
    let mut pairs = unit_gains();
    pairs[3] = gains(19660, 26214);
    // Five channels: straight behind is between the two surround speakers.
    let mix = Mix::<Samp16, Samp16, 6, 5>::new(pairs);
    // 4000 at five sixths is 3333.
    assert_eq!(
        Frame::<Samp16, 5>::new(s16(0), s16(0), s16(0), s16(2666), s16(1999)),
        frame.to(&mix)
    );
    // Seven channels have the channel: it is copied.
    let mix = Mix::<Samp16, Samp16, 6, 7>::new(pairs);
    assert_eq!(
        Frame::<Samp16, 7>::new(s16(0), s16(0), s16(0), s16(4000), s16(0), s16(0), s16(0)),
        frame.to(&mix)
    );
}

#[test]
fn mix_can_be_copied() {
    let mix = Mix::<Samp16, Samp16, 6, 2>::new(unit_gains());
    let copy = mix.clone();
    let frame = Frame::<Samp16, 6>::new(s16(10), s16(20), s16(30), s16(40), s16(50), s16(60));
    assert_eq!(frame.to(&mix), frame.to(&copy));
}

#[test]
fn constant_power_gains_add_up_to_one() {
    // The cosine and the sine of the share of a quarter turn that a
    // placement describes, as gains.
    fn trigonometric(place: &fon::layout::Placement) -> Gains<Samp16> {
        let x = f64::from(place.offset) / f64::from(place.width) * core::f64::consts::FRAC_PI_2;
        let code = |gain: f64| Samp16::new((gain * 32_767.5).floor() as i16);
        Gains::new(code(x.cos()), code(x.sin())).unwrap()
    }
    fn power<const N: usize>(degrees: i32) -> f64 {
        let angle = Angle::from_degrees(degrees);
        let pair = trigonometric(&fon::layout::locate(N, angle));
        let frame = Frame::<Samp16, N>::default().pan(Samp16::max_value(), angle, pair);
        // Weights of the speakers that the sample went to.
        let place = fon::layout::locate(N, angle);
        let weight = |gain: Samp16| (f64::from(i16::from(gain)) + 0.5) / 32_767.5;
        if place.near == place.far {
            return weight(frame.samples()[place.near]);
        }
        for (channel, sample) in frame.samples().iter().enumerate() {
            if channel != place.near && channel != place.far {
                assert_eq!(Samp16::new(0), *sample);
            }
        }
        weight(frame.samples()[place.near]).powi(2) + weight(frame.samples()[place.far]).powi(2)
    }
    for degrees in (-360..720).step_by(7) {
        assert!((power::<1>(degrees) - 1.0).abs() < 1e-3);
        assert!((power::<2>(degrees) - 1.0).abs() < 1e-3);
        assert!((power::<3>(degrees) - 1.0).abs() < 1e-3);
        assert!((power::<4>(degrees) - 1.0).abs() < 1e-3);
        assert!((power::<5>(degrees) - 1.0).abs() < 1e-3);
        assert!((power::<6>(degrees) - 1.0).abs() < 1e-3);
        assert!((power::<7>(degrees) - 1.0).abs() < 1e-3);
        assert!((power::<8>(degrees) - 1.0).abs() < 1e-3);
    }
}

#[test]
fn gains_are_of_constant_power() {
    // The squares add up to one: accepted.
    assert!(Gains::new(Samp16::max_value(), s16(0)).is_some());
    assert!(Gains::new(s16(0), Samp16::max_value()).is_some());
    assert!(Gains::new(Samp16::min_value(), s16(0)).is_some());
    assert!(Gains::new(s16(23170), s16(23170)).is_some());
    assert!(Gains::new(s16(-23170), s16(23170)).is_some());
    assert!(Gains::new(s16(19660), s16(26214)).is_some());
    assert!(Gains::new(s24(4_194_304), s24(7_264_747)).is_some());
    // They do not: refused.
    assert!(Gains::new(s16(0), s16(0)).is_none());
    assert!(Gains::new(s16(16384), s16(16384)).is_none());
    assert!(Gains::new(Samp16::max_value(), Samp16::max_value()).is_none());
    assert!(Gains::new(Samp16::max_value(), s16(1000)).is_none());
    assert!(Gains::new(s16(23170), s16(23000)).is_none());
    assert!(Gains::new(s24(4_194_304), s24(4_194_304)).is_none());
    // The tolerance is one part in 4096.
    assert!(Gains::new(s16(32763), s16(0)).is_some());
    assert!(Gains::new(s16(32762), s16(0)).is_none());
    assert!(Gains::new(s16(32767), s16(511)).is_some());
    assert!(Gains::new(s16(32767), s16(512)).is_none());
    let pair = gains(19660, -26214);
    assert_eq!((s16(19660), s16(-26214)), (pair.near(), pair.far()));
    let unit = Gains::<Samp24>::on_near();
    assert_eq!((Samp24::max_value(), s24(0)), (unit.near(), unit.far()));
    let copy = pair.clone();
    assert_eq!((pair.near(), pair.far()), (copy.near(), copy.far()));
}

#[test]
fn frame_gain_is_channel_by_channel() {
    let mut frame = Frame::<Samp16, 3>::new(s16(1000), s16(-1000), s16(20000));
    frame.gain(1, 2);
    assert_eq!(Frame::<Samp16, 3>::new(s16(500), s16(-500), s16(10000)), frame);
    frame.gain(4, 1);
    assert_eq!(Frame::<Samp16, 3>::new(s16(2002), s16(-1998), s16(32767)), frame);
}

#[test]
fn surround_3_0_is_panned_by_direction() {
    // Left is nearest to left surround, right to front right, and the
    // center is the front speaker.
    let frame = Frame::<Samp16, 3>::new(s16(100), s16(200), s16(300));
    let mix = Mix::<Samp16, Samp16, 3, 5>::new(unit_gains());
    assert_eq!(
        Frame::<Samp16, 5>::new(s16(0), s16(200), s16(300), s16(100), s16(0)),
        frame.to(&mix)
    );
    // To one channel: every channel at a third of its level.
    let mix = Mix::<Samp16, Samp16, 3, 1>::new(unit_gains());
    assert_eq!(Frame::<Samp16, 1>::new(s16(33 + 66 + 99)), frame.to(&mix));
}

#[test]
fn surround_7_1_to_5_1_keeps_the_low_frequency_channel() {
    let frame = Frame::<Samp16, 8>::new(
        s16(0),
        s16(0),
        s16(0),
        s16(6000),
        s16(0),
        s16(0),
        s16(0),
        s16(0),
    );
    let mix = Mix::<Samp16, Samp16, 8, 6>::new([gains(23170, 23170); 8]);
    // Six eighths of 6000, whatever the gains are.
    assert_eq!(
        Frame::<Samp16, 6>::new(s16(0), s16(0), s16(0), s16(4499), s16(0), s16(0)),
        frame.to(&mix)
    );
}
