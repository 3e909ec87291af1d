use fon::pos::{
    Back, BackL, BackR, Center, Front, FrontL, FrontR, Left, Lfe, Mono, Position, Right,
    SurroundL, SurroundR,
};
use fon::layout::{
    arc, arc_count, heading_of, locate, speaker_azimuth, Angle, Arc, Placement, TICKS_PER_DEGREE,
    TICKS_PER_HALF_TURN, TICKS_PER_QUARTER_TURN, TICKS_PER_TURN,
};

#[test]
fn angles_leave_full_turns_out() {
    assert_eq!(0, Angle::from_degrees(0).ticks());
    assert_eq!(0, Angle::from_degrees(360).ticks());
    assert_eq!(0, Angle::from_degrees(-720).ticks());
    assert_eq!(30 * TICKS_PER_DEGREE, Angle::from_degrees(30).ticks());
    assert_eq!(330 * TICKS_PER_DEGREE, Angle::from_degrees(-30).ticks());
    assert_eq!(250 * TICKS_PER_DEGREE, Angle::from_degrees(-110).ticks());
    assert_eq!(359 * TICKS_PER_DEGREE, Angle::from_degrees(-1).ticks());
    assert_eq!(Angle::from_degrees(-90), Angle::from_degrees(270));
    assert_eq!(5, Angle::from_ticks(5).ticks());
    assert_eq!(5, Angle::from_ticks(TICKS_PER_TURN + 5).ticks());
    assert_eq!(TICKS_PER_TURN - 1, Angle::from_ticks(TICKS_PER_TURN - 1).ticks());
    assert_eq!(360 * TICKS_PER_DEGREE, TICKS_PER_TURN);
    assert_eq!(180 * TICKS_PER_DEGREE, TICKS_PER_HALF_TURN);
    assert_eq!(90 * TICKS_PER_DEGREE, TICKS_PER_QUARTER_TURN);
}

#[test]
fn arcs_go_once_around() {
    assert_eq!(0, arc_count(1));
    assert_eq!(0, arc_count(2));
    assert_eq!(0, arc_count(9));
    let counts = [(3, 4), (4, 4), (5, 5), (6, 5), (7, 6), (8, 7)];
    for (count, total) in counts {
        assert_eq!(total, arc_count(count));
        let mut at = 0;
        for k in 0..total {
            let a = arc(count, k);
            assert_eq!(at, a.start);
            assert!(a.width > 0);
            assert!(a.near < count && a.far < count && a.near != a.far);
            at += a.width;
        }
        assert_eq!(360, at);
        assert_eq!(Arc { start: 0, width: 0, near: 0, far: 0 }, arc(count, total));
    }
}

#[test]
fn arcs_of_surround_5_1() {
    assert_eq!(Arc { start: 0, width: 30, near: 2, far: 1 }, arc(6, 0));
    assert_eq!(Arc { start: 30, width: 80, near: 1, far: 5 }, arc(6, 1));
    assert_eq!(Arc { start: 110, width: 140, near: 5, far: 4 }, arc(6, 2));
    assert_eq!(Arc { start: 250, width: 80, near: 4, far: 0 }, arc(6, 3));
    assert_eq!(Arc { start: 330, width: 30, near: 0, far: 2 }, arc(6, 4));
}

#[test]
fn arcs_join_the_speakers() {
    for count in 3..=8usize {
        let lead = if count == 4 { 30 } else { 0 };
        for k in 0..arc_count(count) {
            let a = arc(count, k);
            let begin = (a.start + 360 - lead) % 360;
            let end = (a.start + a.width + 360 - lead) % 360;
            let near = speaker_azimuth(count, a.near).unwrap();
            let far = speaker_azimuth(count, a.far).unwrap();
            // The center speaker of three channels is ahead and behind.
            assert!(near == begin || (count == 3 && a.near == 2 && begin == 180));
            assert!(far == end || (count == 3 && a.far == 2 && end == 180));
        }
    }
}

#[test]
fn speaker_directions() {
    assert_eq!(None, speaker_azimuth(1, 0));
    assert_eq!(Some(270), speaker_azimuth(2, 0));
    assert_eq!(Some(90), speaker_azimuth(2, 1));
    assert_eq!(Some(0), speaker_azimuth(3, 2));
    assert_eq!(Some(330), speaker_azimuth(4, 0));
    assert_eq!(Some(250), speaker_azimuth(4, 2));
    assert_eq!(Some(110), speaker_azimuth(5, 4));
    assert_eq!(None, speaker_azimuth(6, 3));
    assert_eq!(Some(180), speaker_azimuth(7, 4));
    assert_eq!(Some(210), speaker_azimuth(8, 4));
    assert_eq!(Some(150), speaker_azimuth(8, 5));
    assert_eq!(Some(270), speaker_azimuth(8, 6));
    assert_eq!(Some(90), speaker_azimuth(8, 7));
    assert_eq!(None, speaker_azimuth(8, 8));
    assert_eq!(None, speaker_azimuth(0, 0));
    // A channel without a direction is heard from behind.
    assert_eq!(Angle::from_degrees(180), heading_of(6, 3));
    assert_eq!(Angle::from_degrees(180), heading_of(1, 0));
    assert_eq!(Angle::from_degrees(330), heading_of(6, 0));
}

#[test]
fn locate_in_one_and_two_channels() {
    assert_eq!(
        Placement { near: 0, far: 0, offset: 0, width: TICKS_PER_QUARTER_TURN },
        locate(1, Angle::from_degrees(123))
    );
    assert_eq!(
        Placement {
            near: 0,
            far: 1,
            offset: TICKS_PER_QUARTER_TURN,
            width: TICKS_PER_HALF_TURN
        },
        locate(2, Angle::from_degrees(0))
    );
    assert_eq!(
        Placement {
            near: 0,
            far: 1,
            offset: 360 * TICKS_PER_DEGREE,
            width: TICKS_PER_HALF_TURN
        },
        locate(2, Angle::from_degrees(270))
    );
}

#[test]
fn locate_on_arcs() {
    let deg = TICKS_PER_DEGREE;
    // Quadraphonic: the arcs are counted from the front left speaker.
    assert_eq!(
        Placement { near: 0, far: 1, offset: 30 * deg, width: 60 * deg },
        locate(4, Angle::from_degrees(0))
    );
    assert_eq!(
        Placement { near: 0, far: 1, offset: 0, width: 60 * deg },
        locate(4, Angle::from_degrees(-30))
    );
    assert_eq!(
        Placement { near: 1, far: 3, offset: 0, width: 80 * deg },
        locate(4, Angle::from_degrees(30))
    );
    assert_eq!(
        Placement { near: 3, far: 2, offset: 70 * deg, width: 140 * deg },
        locate(4, Angle::from_degrees(180))
    );
    assert_eq!(
        Placement { near: 2, far: 0, offset: 80 * deg - 1, width: 80 * deg },
        locate(4, Angle::from_ticks(330 * deg - 1))
    );
    // Surround 7.1.
    assert_eq!(
        Placement { near: 2, far: 1, offset: 0, width: 30 * deg },
        locate(8, Angle::from_degrees(0))
    );
    assert_eq!(
        Placement { near: 5, far: 4, offset: 30 * deg, width: 60 * deg },
        locate(8, Angle::from_degrees(180))
    );
    assert_eq!(
        Placement { near: 0, far: 2, offset: 30 * deg - 1, width: 30 * deg },
        locate(8, Angle::from_ticks(TICKS_PER_TURN - 1))
    );
    // Three channels: the center is ahead and behind.
    assert_eq!(
        Placement { near: 2, far: 0, offset: 0, width: 90 * deg },
        locate(3, Angle::from_degrees(180))
    );
    assert_eq!(
        Placement { near: 0, far: 2, offset: 45 * deg, width: 90 * deg },
        locate(3, Angle::from_degrees(315))
    );
}

#[test]
fn a_speaker_begins_its_arc() {
    for count in 3..=8usize {
        for slot in 0..count {
            if speaker_azimuth(count, slot).is_some() {
                let place = locate(count, heading_of(count, slot));
                assert_eq!(slot, place.near);
                assert_eq!(0, place.offset);
            }
        }
    }
}

#[test]
fn positions_name_their_channels() {
    use_positions();
}

fn use_positions() {
    assert_eq!(0, Position::<1>::index(&Mono));
    assert_eq!((0, 1), (Position::<2>::index(&Left), Position::<2>::index(&Right)));
    assert_eq!(2, Position::<3>::index(&Center));
    assert_eq!((2, 3), (Position::<4>::index(&SurroundL), Position::<4>::index(&SurroundR)));
    assert_eq!((3, 4), (Position::<5>::index(&SurroundL), Position::<5>::index(&SurroundR)));
    assert_eq!((3, 4, 5), (
        Position::<6>::index(&Lfe),
        Position::<6>::index(&SurroundL),
        Position::<6>::index(&SurroundR)
    ));
    assert_eq!((4, 5, 6), (
        Position::<7>::index(&Back),
        Position::<7>::index(&Left),
        Position::<7>::index(&Right)
    ));
    assert_eq!((0, 1, 2, 3, 4, 5, 6, 7), (
        Position::<8>::index(&FrontL),
        Position::<8>::index(&FrontR),
        Position::<8>::index(&Front),
        Position::<8>::index(&Lfe),
        Position::<8>::index(&BackL),
        Position::<8>::index(&BackR),
        Position::<8>::index(&Left),
        Position::<8>::index(&Right)
    ));
    // Each position stands where the layout has its channel's speaker.
    assert_eq!(Some(330), speaker_azimuth(8, Position::<8>::index(&FrontL)));
    assert_eq!(Some(210), speaker_azimuth(8, Position::<8>::index(&BackL)));
    assert_eq!(Some(180), speaker_azimuth(7, Position::<7>::index(&Back)));
}
