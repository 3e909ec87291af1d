//! Speaker layouts on the circle around the listener.
//!
//! Directions are measured clockwise from straight ahead: a quarter turn is
//! to the right, half a turn is behind, three quarters of a turn are to the
//! left.  Each layout of three to eight channels divides the full turn into
//! arcs between neighbouring speakers; a sound at some direction is played by
//! the two speakers at the ends of the arc that the direction falls in.

use vstd::prelude::*;

verus! {

/// Ticks in one degree.
pub const TICKS_PER_DEGREE: u32 = 65_536;

/// Ticks in a full turn.
pub const TICKS_PER_TURN: u32 = 23_592_960;

/// Ticks in half a turn.
pub const TICKS_PER_HALF_TURN: u32 = 11_796_480;

/// Ticks in a quarter turn.
pub const TICKS_PER_QUARTER_TURN: u32 = 5_898_240;

/// A direction: ticks clockwise from straight ahead, less than a full turn.
#[derive(Clone, Copy, Debug, PartialEq, Eq, Structural)]
pub struct Angle(u32);

impl View for Angle {
    type V = int;

    closed spec fn view(&self) -> int {
        self.0 as int
    }
}

impl Angle {
    #[verifier::type_invariant]
    spec fn inv(self) -> bool {
        self.0 < TICKS_PER_TURN
    }

    /// The direction `ticks` ticks clockwise from straight ahead; full
    /// turns are left out.
    pub fn from_ticks(ticks: u32) -> (angle: Self)
        ensures
            angle@ == ticks % TICKS_PER_TURN,
    {
        Angle(ticks % TICKS_PER_TURN)
    }

    /// The direction `degrees` degrees clockwise from straight ahead, or
    /// counterclockwise where `degrees` is negative; full turns are left
    /// out.
    pub fn from_degrees(degrees: i32) -> (angle: Self)
        ensures
            angle@ == (degrees as int % 360) * TICKS_PER_DEGREE,
    {
        let d: i32 = degrees % 360;
        let d: i32 = if d < 0 {
            d + 360
        } else {
            d
        };
        Angle(d as u32 * TICKS_PER_DEGREE)
    }

    /// Ticks clockwise from straight ahead.
    pub fn ticks(self) -> (ticks: u32)
        ensures
            ticks == self@,
            ticks < TICKS_PER_TURN,
    {
        proof {
            use_type_invariant(&self);
        }
        self.0
    }
}

/// An arc of the circle between two neighbouring speakers.
#[derive(Clone, Copy, Debug, PartialEq, Eq, Structural)]
pub struct Arc {
    /// Where the arc begins, in degrees of the layout's own turn.
    pub start: u16,
    /// Degrees from the beginning of the arc to its end.
    pub width: u16,
    /// Channel of the speaker at the beginning of the arc.
    pub near: usize,
    /// Channel of the speaker at the end of the arc.
    pub far: usize,
}

/// Degrees by which a layout's own turn is ahead of the listener's: the
/// arcs of a layout are counted from its first speaker where no speaker is
/// straight ahead.
pub open spec fn rotation(count: nat) -> int {
    if count == 4 {
        30
    } else {
        0
    }
}

/// Number of arcs of the layout of `count` channels.  The layouts of one
/// and of two channels have none.
pub open spec fn arc_total(count: nat) -> nat {
    if count == 3 || count == 4 {
        4
    } else if count == 5 || count == 6 {
        5
    } else if count == 7 {
        6
    } else if count == 8 {
        7
    } else {
        0
    }
}

/// The `k`-th arc of the layout of `count` channels, clockwise from the
/// beginning of the layout's own turn; an empty arc where the layout has no
/// such arc.
pub open spec fn arc_at(count: nat, k: nat) -> Arc {
    if count == 3 {
        if k == 0 {
            Arc { start: 0, width: 90, near: 2, far: 1 }
        } else if k == 1 {
            Arc { start: 90, width: 90, near: 1, far: 2 }
        } else if k == 2 {
            Arc { start: 180, width: 90, near: 2, far: 0 }
        } else if k == 3 {
            Arc { start: 270, width: 90, near: 0, far: 2 }
        } else {
            Arc { start: 0, width: 0, near: 0, far: 0 }
        }
    } else if count == 4 {
        if k == 0 {
            Arc { start: 0, width: 60, near: 0, far: 1 }
        } else if k == 1 {
            Arc { start: 60, width: 80, near: 1, far: 3 }
        } else if k == 2 {
            Arc { start: 140, width: 140, near: 3, far: 2 }
        } else if k == 3 {
            Arc { start: 280, width: 80, near: 2, far: 0 }
        } else {
            Arc { start: 0, width: 0, near: 0, far: 0 }
        }
    } else if count == 5 {
        if k == 0 {
            Arc { start: 0, width: 30, near: 2, far: 1 }
        } else if k == 1 {
            Arc { start: 30, width: 80, near: 1, far: 4 }
        } else if k == 2 {
            Arc { start: 110, width: 140, near: 4, far: 3 }
        } else if k == 3 {
            Arc { start: 250, width: 80, near: 3, far: 0 }
        } else if k == 4 {
            Arc { start: 330, width: 30, near: 0, far: 2 }
        } else {
            Arc { start: 0, width: 0, near: 0, far: 0 }
        }
    } else if count == 6 {
        if k == 0 {
            Arc { start: 0, width: 30, near: 2, far: 1 }
        } else if k == 1 {
            Arc { start: 30, width: 80, near: 1, far: 5 }
        } else if k == 2 {
            Arc { start: 110, width: 140, near: 5, far: 4 }
        } else if k == 3 {
            Arc { start: 250, width: 80, near: 4, far: 0 }
        } else if k == 4 {
            Arc { start: 330, width: 30, near: 0, far: 2 }
        } else {
            Arc { start: 0, width: 0, near: 0, far: 0 }
        }
    } else if count == 7 {
        if k == 0 {
            Arc { start: 0, width: 30, near: 2, far: 1 }
        } else if k == 1 {
            Arc { start: 30, width: 60, near: 1, far: 6 }
        } else if k == 2 {
            Arc { start: 90, width: 90, near: 6, far: 4 }
        } else if k == 3 {
            Arc { start: 180, width: 90, near: 4, far: 5 }
        } else if k == 4 {
            Arc { start: 270, width: 60, near: 5, far: 0 }
        } else if k == 5 {
            Arc { start: 330, width: 30, near: 0, far: 2 }
        } else {
            Arc { start: 0, width: 0, near: 0, far: 0 }
        }
    } else if count == 8 {
        if k == 0 {
            Arc { start: 0, width: 30, near: 2, far: 1 }
        } else if k == 1 {
            Arc { start: 30, width: 60, near: 1, far: 7 }
        } else if k == 2 {
            Arc { start: 90, width: 60, near: 7, far: 5 }
        } else if k == 3 {
            Arc { start: 150, width: 60, near: 5, far: 4 }
        } else if k == 4 {
            Arc { start: 210, width: 60, near: 4, far: 6 }
        } else if k == 5 {
            Arc { start: 270, width: 60, near: 6, far: 0 }
        } else if k == 6 {
            Arc { start: 330, width: 30, near: 0, far: 2 }
        } else {
            Arc { start: 0, width: 0, near: 0, far: 0 }
        }
    } else {
        Arc { start: 0, width: 0, near: 0, far: 0 }
    }
}

/// Direction of the speaker of channel `slot` in the layout of `count`
/// channels, in degrees clockwise from straight ahead; `None` for a speaker
/// without a direction and for a channel that the layout does not have.
pub open spec fn azimuth(count: nat, slot: nat) -> Option<int> {
    if count == 1 {
        None
    } else if count == 2 {
        if slot == 0 {
            Some(270)
        } else if slot == 1 {
            Some(90)
        } else {
            None
        }
    } else if count == 3 {
        if slot == 0 {
            Some(270)
        } else if slot == 1 {
            Some(90)
        } else if slot == 2 {
            Some(0)
        } else {
            None
        }
    } else if count == 4 {
        if slot == 0 {
            Some(330)
        } else if slot == 1 {
            Some(30)
        } else if slot == 2 {
            Some(250)
        } else if slot == 3 {
            Some(110)
        } else {
            None
        }
    } else if count == 5 {
        if slot == 0 {
            Some(330)
        } else if slot == 1 {
            Some(30)
        } else if slot == 2 {
            Some(0)
        } else if slot == 3 {
            Some(250)
        } else if slot == 4 {
            Some(110)
        } else {
            None
        }
    } else if count == 6 {
        if slot == 0 {
            Some(330)
        } else if slot == 1 {
            Some(30)
        } else if slot == 2 {
            Some(0)
        } else if slot == 4 {
            Some(250)
        } else if slot == 5 {
            Some(110)
        } else {
            None
        }
    } else if count == 7 {
        if slot == 0 {
            Some(330)
        } else if slot == 1 {
            Some(30)
        } else if slot == 2 {
            Some(0)
        } else if slot == 4 {
            Some(180)
        } else if slot == 5 {
            Some(270)
        } else if slot == 6 {
            Some(90)
        } else {
            None
        }
    } else if count == 8 {
        if slot == 0 {
            Some(330)
        } else if slot == 1 {
            Some(30)
        } else if slot == 2 {
            Some(0)
        } else if slot == 4 {
            Some(210)
        } else if slot == 5 {
            Some(150)
        } else if slot == 6 {
            Some(270)
        } else if slot == 7 {
            Some(90)
        } else {
            None
        }
    } else {
        None
    }
}

/// The speaker of channel `slot` in the layout of `count` channels is heard
/// from the direction `degrees`.  The center speaker of the layout of three
/// channels stands for straight ahead and for straight behind.
pub open spec fn is_at(count: nat, slot: nat, degrees: int) -> bool {
    azimuth(count, slot) == Some(degrees) || (count == 3 && slot == 2 && degrees == 180)
}

/// Where a sound is placed between two speakers.
#[derive(Clone, Copy, Debug, PartialEq, Eq, Structural)]
pub struct Placement {
    /// Channel of the speaker whose gain is the cosine.
    pub near: usize,
    /// Channel of the speaker whose gain is the sine.
    pub far: usize,
    /// Ticks from the first speaker to the sound.
    pub offset: u32,
    /// Ticks that make a quarter turn of the angle whose cosine and sine
    /// are the two gains.
    pub width: u32,
}

/// Where a sound at the direction `ticks` is placed in the layout of
/// `count` channels.
///
/// - One channel: the sound is on the speaker.
/// - Two channels: the angle of the gains is half the sound's distance from
///   a quarter turn before straight ahead.
/// - Three to eight channels: the sound is on the arc that its direction
///   falls in, and the angle of the gains grows from nothing at the beginning
///   of the arc to a quarter turn at its end.
pub open spec fn placement(count: nat, ticks: int) -> Placement {
    if count == 1 {
        Placement { near: 0, far: 0, offset: 0, width: TICKS_PER_QUARTER_TURN }
    } else if count == 2 {
        Placement {
            near: 0,
            far: 1,
            offset: (ticks + TICKS_PER_QUARTER_TURN) as u32,
            width: TICKS_PER_HALF_TURN,
        }
    } else {
        let turned = (ticks + rotation(count) * TICKS_PER_DEGREE) % (TICKS_PER_TURN as int);
        let arc = arc_at(count, arc_index(count, turned));
        Placement {
            near: arc.near,
            far: arc.far,
            offset: (turned - arc.start * TICKS_PER_DEGREE) as u32,
            width: (arc.width * TICKS_PER_DEGREE) as u32,
        }
    }
}

/// The arc holds the direction `turned`, in ticks of the layout's own turn.
pub open spec fn arc_holds(arc: Arc, turned: int) -> bool {
    arc.start * TICKS_PER_DEGREE <= turned < (arc.start + arc.width) * TICKS_PER_DEGREE
}

/// Index of the arc of the layout of `count` channels that holds the
/// direction `turned`, in ticks of the layout's own turn.
pub open spec fn arc_index(count: nat, turned: int) -> nat {
    choose|k: nat| k < arc_total(count) && #[trigger] arc_holds(arc_at(count, k), turned)
}

/// The arcs of a layout of three to eight channels go once around the
/// circle: the first begins where the turn begins, each begins where the one
/// before it ends, the last ends where the turn ends, and none is empty.
/// Both ends of an arc are channels of the layout.
pub proof fn lemma_arcs_tile(count: nat)
    requires
        3 <= count <= 8,
    ensures
        arc_total(count) >= 4,
        arc_at(count, 0).start == 0,
        arc_at(count, (arc_total(count) - 1) as nat).start + arc_at(
            count,
            (arc_total(count) - 1) as nat,
        ).width == 360,
        forall|k: nat|
            k < arc_total(count) ==> {
                &&& (#[trigger] arc_at(count, k)).width > 0
                &&& arc_at(count, k).near < count
                &&& arc_at(count, k).far < count
                &&& arc_at(count, k).near != arc_at(count, k).far
                &&& arc_at(count, k).start + arc_at(count, k).width <= 360
            },
        forall|k: nat|
            k + 1 < arc_total(count) ==> (#[trigger] arc_at(count, k)).start + arc_at(
                count,
                k,
            ).width == arc_at(count, k + 1).start,
{
}

/// Each arc begins at the direction of its first speaker and ends at the
/// direction of its second speaker.
pub proof fn lemma_arcs_join_speakers(count: nat, k: nat)
    requires
        3 <= count <= 8,
        k < arc_total(count),
    ensures
        is_at(
            count,
            arc_at(count, k).near as nat,
            (arc_at(count, k).start - rotation(count)) % 360,
        ),
        is_at(
            count,
            arc_at(count, k).far as nat,
            (arc_at(count, k).start + arc_at(count, k).width - rotation(count)) % 360,
        ),
{
}

/// Every direction falls in exactly one arc of a layout of three to eight
/// channels.
pub proof fn lemma_arc_index(count: nat, turned: int)
    requires
        3 <= count <= 8,
        0 <= turned < TICKS_PER_TURN,
    ensures
        arc_index(count, turned) < arc_total(count),
        arc_holds(arc_at(count, arc_index(count, turned)), turned),
        forall|k: nat|
            k < arc_total(count) && #[trigger] arc_holds(arc_at(count, k), turned) ==> k
                == arc_index(count, turned),
{
    let k = lemma_arc_found(count, turned);
    lemma_arc_is_single(count, turned, k, arc_index(count, turned));
    assert forall|j: nat|
        j < arc_total(count) && #[trigger] arc_holds(arc_at(count, j), turned) implies j
        == arc_index(count, turned) by {
        lemma_arc_is_single(count, turned, j, arc_index(count, turned));
    }
}

/// Some arc holds the direction.
proof fn lemma_arc_found(count: nat, turned: int) -> (k: nat)
    requires
        3 <= count <= 8,
        0 <= turned < TICKS_PER_TURN,
    ensures
        k < arc_total(count),
        arc_holds(arc_at(count, k), turned),
{
    if turned < arc_at(count, 1).start * TICKS_PER_DEGREE {
        0
    } else if turned < arc_at(count, 2).start * TICKS_PER_DEGREE {
        1
    } else if turned < arc_at(count, 3).start * TICKS_PER_DEGREE {
        2
    } else if arc_total(count) == 4 || turned < arc_at(count, 4).start * TICKS_PER_DEGREE {
        3
    } else if arc_total(count) == 5 || turned < arc_at(count, 5).start * TICKS_PER_DEGREE {
        4
    } else if arc_total(count) == 6 || turned < arc_at(count, 6).start * TICKS_PER_DEGREE {
        5
    } else {
        6
    }
}

/// Two arcs that hold one direction are one arc.
proof fn lemma_arc_is_single(count: nat, turned: int, j: nat, k: nat)
    requires
        3 <= count <= 8,
        j < arc_total(count),
        k < arc_total(count),
        arc_holds(arc_at(count, j), turned),
        arc_holds(arc_at(count, k), turned),
    ensures
        j == k,
{
}

/// Number of arcs of the layout of `count` channels.
pub fn arc_count(count: usize) -> (n: usize)
    ensures
        n == arc_total(count as nat),
{
    match count {
        3 | 4 => 4,
        5 | 6 => 5,
        7 => 6,
        8 => 7,
        _ => 0,
    }
}

/// The `k`-th arc of the layout of `count` channels, or an empty arc where
/// the layout has no such arc.
pub fn arc(count: usize, k: usize) -> (a: Arc)
    ensures
        a == arc_at(count as nat, k as nat),
{
    match (count, k) {
        (3, 0) => Arc { start: 0, width: 90, near: 2, far: 1 },
        (3, 1) => Arc { start: 90, width: 90, near: 1, far: 2 },
        (3, 2) => Arc { start: 180, width: 90, near: 2, far: 0 },
        (3, 3) => Arc { start: 270, width: 90, near: 0, far: 2 },
        (4, 0) => Arc { start: 0, width: 60, near: 0, far: 1 },
        (4, 1) => Arc { start: 60, width: 80, near: 1, far: 3 },
        (4, 2) => Arc { start: 140, width: 140, near: 3, far: 2 },
        (4, 3) => Arc { start: 280, width: 80, near: 2, far: 0 },
        (5, 0) => Arc { start: 0, width: 30, near: 2, far: 1 },
        (5, 1) => Arc { start: 30, width: 80, near: 1, far: 4 },
        (5, 2) => Arc { start: 110, width: 140, near: 4, far: 3 },
        (5, 3) => Arc { start: 250, width: 80, near: 3, far: 0 },
        (5, 4) => Arc { start: 330, width: 30, near: 0, far: 2 },
        (6, 0) => Arc { start: 0, width: 30, near: 2, far: 1 },
        (6, 1) => Arc { start: 30, width: 80, near: 1, far: 5 },
        (6, 2) => Arc { start: 110, width: 140, near: 5, far: 4 },
        (6, 3) => Arc { start: 250, width: 80, near: 4, far: 0 },
        (6, 4) => Arc { start: 330, width: 30, near: 0, far: 2 },
        (7, 0) => Arc { start: 0, width: 30, near: 2, far: 1 },
        (7, 1) => Arc { start: 30, width: 60, near: 1, far: 6 },
        (7, 2) => Arc { start: 90, width: 90, near: 6, far: 4 },
        (7, 3) => Arc { start: 180, width: 90, near: 4, far: 5 },
        (7, 4) => Arc { start: 270, width: 60, near: 5, far: 0 },
        (7, 5) => Arc { start: 330, width: 30, near: 0, far: 2 },
        (8, 0) => Arc { start: 0, width: 30, near: 2, far: 1 },
        (8, 1) => Arc { start: 30, width: 60, near: 1, far: 7 },
        (8, 2) => Arc { start: 90, width: 60, near: 7, far: 5 },
        (8, 3) => Arc { start: 150, width: 60, near: 5, far: 4 },
        (8, 4) => Arc { start: 210, width: 60, near: 4, far: 6 },
        (8, 5) => Arc { start: 270, width: 60, near: 6, far: 0 },
        (8, 6) => Arc { start: 330, width: 30, near: 0, far: 2 },
        _ => Arc { start: 0, width: 0, near: 0, far: 0 },
    }
}

/// Where a sound at the direction `angle` is placed in the layout of
/// `count` channels.
pub fn locate(count: usize, angle: Angle) -> (p: Placement)
    requires
        1 <= count <= 8,
    ensures
        p == placement(count as nat, angle@),
        p.near < count,
        p.far < count,
        p.width > 0,
        count >= 3 ==> p.offset < p.width,
{
    let ticks = angle.ticks();
    if count == 1 {
        Placement { near: 0, far: 0, offset: 0, width: TICKS_PER_QUARTER_TURN }
    } else if count == 2 {
        Placement {
            near: 0,
            far: 1,
            offset: ticks + TICKS_PER_QUARTER_TURN,
            width: TICKS_PER_HALF_TURN,
        }
    } else {
        let lead: u32 = if count == 4 {
            30 * TICKS_PER_DEGREE
        } else {
            0
        };
        let turned: u32 = (ticks + lead) % TICKS_PER_TURN;
        proof {
            lemma_arcs_tile(count as nat);
            lemma_arc_index(count as nat, turned as int);
        }
        let total = arc_count(count);
        let mut k: usize = 0;
        let mut here = arc(count, 0);
        while k + 1 < total && turned >= (here.start as u32 + here.width as u32)
            * TICKS_PER_DEGREE
            invariant
                3 <= count <= 8,
                total == arc_total(count as nat),
                k < total,
                here == arc_at(count as nat, k as nat),
                here.start * TICKS_PER_DEGREE <= turned < TICKS_PER_TURN,
                here.start + here.width <= 360,
            decreases total - k,
        {
            proof {
                lemma_arcs_tile(count as nat);
            }
            k += 1;
            here = arc(count, k);
        }
        proof {
            lemma_arcs_tile(count as nat);
            assert(arc_holds(here, turned as int));
        }
        Placement {
            near: here.near,
            far: here.far,
            offset: turned - here.start as u32 * TICKS_PER_DEGREE,
            width: here.width as u32 * TICKS_PER_DEGREE,
        }
    }
}

/// Direction of the speaker of channel `slot` in the layout of `count`
/// channels, in degrees clockwise from straight ahead.
pub fn speaker_azimuth(count: usize, slot: usize) -> (degrees: Option<u16>)
    ensures
        match degrees {
            Some(d) => azimuth(count as nat, slot as nat) == Some(d as int),
            None => azimuth(count as nat, slot as nat) is None,
        },
{
    match (count, slot) {
        (2, 0) => Some(270),
        (2, 1) => Some(90),
        (3, 0) => Some(270),
        (3, 1) => Some(90),
        (3, 2) => Some(0),
        (4, 0) => Some(330),
        (4, 1) => Some(30),
        (4, 2) => Some(250),
        (4, 3) => Some(110),
        (5, 0) => Some(330),
        (5, 1) => Some(30),
        (5, 2) => Some(0),
        (5, 3) => Some(250),
        (5, 4) => Some(110),
        (6, 0) => Some(330),
        (6, 1) => Some(30),
        (6, 2) => Some(0),
        (6, 4) => Some(250),
        (6, 5) => Some(110),
        (7, 0) => Some(330),
        (7, 1) => Some(30),
        (7, 2) => Some(0),
        (7, 4) => Some(180),
        (7, 5) => Some(270),
        (7, 6) => Some(90),
        (8, 0) => Some(330),
        (8, 1) => Some(30),
        (8, 2) => Some(0),
        (8, 4) => Some(210),
        (8, 5) => Some(150),
        (8, 6) => Some(270),
        (8, 7) => Some(90),
        _ => None,
    }
}

/// The channel `slot` of the layout of `count` channels is the one for low
/// frequency effects.
pub open spec fn is_lfe(count: nat, slot: nat) -> bool {
    6 <= count <= 8 && slot == 3
}

/// Direction, in ticks, at which the channel `slot` of the layout of
/// `count` channels is heard when it is played through another layout: that
/// of its speaker, and straight behind for a channel whose speaker has no
/// direction.
pub open spec fn heading(count: nat, slot: nat) -> int {
    match azimuth(count, slot) {
        Some(degrees) => degrees * TICKS_PER_DEGREE,
        None => TICKS_PER_HALF_TURN as int,
    }
}

/// Direction at which the channel `slot` of the layout of `count` channels
/// is heard when it is played through another layout.
pub fn heading_of(count: usize, slot: usize) -> (angle: Angle)
    ensures
        angle@ == heading(count as nat, slot as nat),
{
    match speaker_azimuth(count, slot) {
        Some(degrees) => Angle::from_degrees(degrees as i32),
        None => Angle::from_degrees(180),
    }
}

/// In a layout of three to eight channels, a sound from the direction of a
/// speaker is placed on the arc that begins at that speaker, at its very
/// beginning.
pub proof fn lemma_speaker_begins_arc(count: nat, slot: nat)
    requires
        3 <= count <= 8,
        azimuth(count, slot) is Some,
    ensures
        placement(count, heading(count, slot)).near == slot,
        placement(count, heading(count, slot)).offset == 0,
{
    let degrees = azimuth(count, slot)->0;
    let turned = (degrees * TICKS_PER_DEGREE + rotation(count) * TICKS_PER_DEGREE) % (
    TICKS_PER_TURN as int);
    let k = lemma_arc_found(count, turned);
    lemma_arc_index(count, turned);
    lemma_arcs_tile(count);
}

} // verus!
