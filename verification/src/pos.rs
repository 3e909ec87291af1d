//! Speaker positions within a speaker configuration.
//!
//! Each position is a unit type.  A frame of `N` channels is indexed by the
//! positions that the layout of `N` channels has, and by no others: indexing
//! a stereo frame by [`Lfe`] does not compile.

use crate::layout::azimuth;
use vstd::prelude::*;

verus! {

/// A speaker position that the layout of `N` channels has.
pub trait Position<const N: usize>: Sized {
    /// The channel of the position within a frame of `N` channels.
    spec fn slot() -> int;

    /// Direction of the speaker in degrees clockwise from straight ahead;
    /// `None` for a speaker without a direction.
    spec fn direction() -> Option<int>;

    /// The position is a channel of the layout, and its speaker stands
    /// where the layout has the speaker of that channel.
    proof fn lemma_position()
        ensures
            0 <= Self::slot() < N,
            azimuth(N as nat, Self::slot() as nat) == Self::direction(),
    ;

    /// The channel of the position within a frame of `N` channels.
    fn index(&self) -> (i: usize)
        ensures
            i == Self::slot(),
            i < N,
    ;
}

/// All directions
///  - Mono
#[derive(Copy, Clone, Debug)]
pub struct Mono;

/// Side left (90 degrees left)
///  - Stereo
///  - 3.0
///  - 6.1
///  - 7.1
#[derive(Copy, Clone, Debug)]
pub struct Left;

/// Side right (90 degrees right)
///  - Stereo
///  - 3.0
///  - 6.1
///  - 7.1
#[derive(Copy, Clone, Debug)]
pub struct Right;

/// Center (straight ahead and straight behind)
///  - 3.0
#[derive(Copy, Clone, Debug)]
pub struct Center;

/// Front center (straight ahead)
///  - 5.0
///  - 5.1
///  - 6.1
///  - 7.1
#[derive(Copy, Clone, Debug)]
pub struct Front;

/// Front left (30 degrees left)
///  - 4.0
///  - 5.0
///  - 5.1
///  - 6.1
///  - 7.1
#[derive(Copy, Clone, Debug)]
pub struct FrontL;

/// Front right (30 degrees right)
///  - 4.0
///  - 5.0
///  - 5.1
///  - 6.1
///  - 7.1
#[derive(Copy, Clone, Debug)]
pub struct FrontR;

/// Left surround (110 degrees left)
///  - 4.0
///  - 5.0
///  - 5.1
#[derive(Copy, Clone, Debug)]
pub struct SurroundL;

/// Right surround (110 degrees right)
///  - 4.0
///  - 5.0
///  - 5.1
#[derive(Copy, Clone, Debug)]
pub struct SurroundR;

/// Low frequency effects (no direction)
///  - 5.1
///  - 6.1
///  - 7.1
#[derive(Copy, Clone, Debug)]
pub struct Lfe;

/// Back (straight behind)
///  - 6.1
#[derive(Copy, Clone, Debug)]
pub struct Back;

/// Back left (150 degrees left)
///  - 7.1
#[derive(Copy, Clone, Debug)]
pub struct BackL;

/// Back right (150 degrees right)
///  - 7.1
#[derive(Copy, Clone, Debug)]
pub struct BackR;

impl Position<1> for Mono {
    open spec fn slot() -> int {
        0
    }

    open spec fn direction() -> Option<int> {
        None
    }

    proof fn lemma_position() {
    }

    fn index(&self) -> (i: usize) {
        0
    }
}

impl Position<2> for Left {
    open spec fn slot() -> int {
        0
    }

    open spec fn direction() -> Option<int> {
        Some(270)
    }

    proof fn lemma_position() {
    }

    fn index(&self) -> (i: usize) {
        0
    }
}

impl Position<2> for Right {
    open spec fn slot() -> int {
        1
    }

    open spec fn direction() -> Option<int> {
        Some(90)
    }

    proof fn lemma_position() {
    }

    fn index(&self) -> (i: usize) {
        1
    }
}

impl Position<3> for Left {
    open spec fn slot() -> int {
        0
    }

    open spec fn direction() -> Option<int> {
        Some(270)
    }

    proof fn lemma_position() {
    }

    fn index(&self) -> (i: usize) {
        0
    }
}

impl Position<3> for Right {
    open spec fn slot() -> int {
        1
    }

    open spec fn direction() -> Option<int> {
        Some(90)
    }

    proof fn lemma_position() {
    }

    fn index(&self) -> (i: usize) {
        1
    }
}

impl Position<3> for Center {
    open spec fn slot() -> int {
        2
    }

    open spec fn direction() -> Option<int> {
        Some(0)
    }

    proof fn lemma_position() {
    }

    fn index(&self) -> (i: usize) {
        2
    }
}

impl Position<4> for FrontL {
    open spec fn slot() -> int {
        0
    }

    open spec fn direction() -> Option<int> {
        Some(330)
    }

    proof fn lemma_position() {
    }

    fn index(&self) -> (i: usize) {
        0
    }
}

impl Position<4> for FrontR {
    open spec fn slot() -> int {
        1
    }

    open spec fn direction() -> Option<int> {
        Some(30)
    }

    proof fn lemma_position() {
    }

    fn index(&self) -> (i: usize) {
        1
    }
}

impl Position<4> for SurroundL {
    open spec fn slot() -> int {
        2
    }

    open spec fn direction() -> Option<int> {
        Some(250)
    }

    proof fn lemma_position() {
    }

    fn index(&self) -> (i: usize) {
        2
    }
}

impl Position<4> for SurroundR {
    open spec fn slot() -> int {
        3
    }

    open spec fn direction() -> Option<int> {
        Some(110)
    }

    proof fn lemma_position() {
    }

    fn index(&self) -> (i: usize) {
        3
    }
}

impl Position<5> for FrontL {
    open spec fn slot() -> int {
        0
    }

    open spec fn direction() -> Option<int> {
        Some(330)
    }

    proof fn lemma_position() {
    }

    fn index(&self) -> (i: usize) {
        0
    }
}

impl Position<5> for FrontR {
    open spec fn slot() -> int {
        1
    }

    open spec fn direction() -> Option<int> {
        Some(30)
    }

    proof fn lemma_position() {
    }

    fn index(&self) -> (i: usize) {
        1
    }
}

impl Position<5> for Front {
    open spec fn slot() -> int {
        2
    }

    open spec fn direction() -> Option<int> {
        Some(0)
    }

    proof fn lemma_position() {
    }

    fn index(&self) -> (i: usize) {
        2
    }
}

impl Position<5> for SurroundL {
    open spec fn slot() -> int {
        3
    }

    open spec fn direction() -> Option<int> {
        Some(250)
    }

    proof fn lemma_position() {
    }

    fn index(&self) -> (i: usize) {
        3
    }
}

impl Position<5> for SurroundR {
    open spec fn slot() -> int {
        4
    }

    open spec fn direction() -> Option<int> {
        Some(110)
    }

    proof fn lemma_position() {
    }

    fn index(&self) -> (i: usize) {
        4
    }
}

impl Position<6> for FrontL {
    open spec fn slot() -> int {
        0
    }

    open spec fn direction() -> Option<int> {
        Some(330)
    }

    proof fn lemma_position() {
    }

    fn index(&self) -> (i: usize) {
        0
    }
}

impl Position<6> for FrontR {
    open spec fn slot() -> int {
        1
    }

    open spec fn direction() -> Option<int> {
        Some(30)
    }

    proof fn lemma_position() {
    }

    fn index(&self) -> (i: usize) {
        1
    }
}

impl Position<6> for Front {
    open spec fn slot() -> int {
        2
    }

    open spec fn direction() -> Option<int> {
        Some(0)
    }

    proof fn lemma_position() {
    }

    fn index(&self) -> (i: usize) {
        2
    }
}

impl Position<6> for Lfe {
    open spec fn slot() -> int {
        3
    }

    open spec fn direction() -> Option<int> {
        None
    }

    proof fn lemma_position() {
    }

    fn index(&self) -> (i: usize) {
        3
    }
}

impl Position<6> for SurroundL {
    open spec fn slot() -> int {
        4
    }

    open spec fn direction() -> Option<int> {
        Some(250)
    }

    proof fn lemma_position() {
    }

    fn index(&self) -> (i: usize) {
        4
    }
}

impl Position<6> for SurroundR {
    open spec fn slot() -> int {
        5
    }

    open spec fn direction() -> Option<int> {
        Some(110)
    }

    proof fn lemma_position() {
    }

    fn index(&self) -> (i: usize) {
        5
    }
}

impl Position<7> for FrontL {
    open spec fn slot() -> int {
        0
    }

    open spec fn direction() -> Option<int> {
        Some(330)
    }

    proof fn lemma_position() {
    }

    fn index(&self) -> (i: usize) {
        0
    }
}

impl Position<7> for FrontR {
    open spec fn slot() -> int {
        1
    }

    open spec fn direction() -> Option<int> {
        Some(30)
    }

    proof fn lemma_position() {
    }

    fn index(&self) -> (i: usize) {
        1
    }
}

impl Position<7> for Front {
    open spec fn slot() -> int {
        2
    }

    open spec fn direction() -> Option<int> {
        Some(0)
    }

    proof fn lemma_position() {
    }

    fn index(&self) -> (i: usize) {
        2
    }
}

impl Position<7> for Lfe {
    open spec fn slot() -> int {
        3
    }

    open spec fn direction() -> Option<int> {
        None
    }

    proof fn lemma_position() {
    }

    fn index(&self) -> (i: usize) {
        3
    }
}

impl Position<7> for Back {
    open spec fn slot() -> int {
        4
    }

    open spec fn direction() -> Option<int> {
        Some(180)
    }

    proof fn lemma_position() {
    }

    fn index(&self) -> (i: usize) {
        4
    }
}

impl Position<7> for Left {
    open spec fn slot() -> int {
        5
    }

    open spec fn direction() -> Option<int> {
        Some(270)
    }

    proof fn lemma_position() {
    }

    fn index(&self) -> (i: usize) {
        5
    }
}

impl Position<7> for Right {
    open spec fn slot() -> int {
        6
    }

    open spec fn direction() -> Option<int> {
        Some(90)
    }

    proof fn lemma_position() {
    }

    fn index(&self) -> (i: usize) {
        6
    }
}

impl Position<8> for FrontL {
    open spec fn slot() -> int {
        0
    }

    open spec fn direction() -> Option<int> {
        Some(330)
    }

    proof fn lemma_position() {
    }

    fn index(&self) -> (i: usize) {
        0
    }
}

impl Position<8> for FrontR {
    open spec fn slot() -> int {
        1
    }

    open spec fn direction() -> Option<int> {
        Some(30)
    }

    proof fn lemma_position() {
    }

    fn index(&self) -> (i: usize) {
        1
    }
}

impl Position<8> for Front {
    open spec fn slot() -> int {
        2
    }

    open spec fn direction() -> Option<int> {
        Some(0)
    }

    proof fn lemma_position() {
    }

    fn index(&self) -> (i: usize) {
        2
    }
}

impl Position<8> for Lfe {
    open spec fn slot() -> int {
        3
    }

    open spec fn direction() -> Option<int> {
        None
    }

    proof fn lemma_position() {
    }

    fn index(&self) -> (i: usize) {
        3
    }
}

impl Position<8> for BackL {
    open spec fn slot() -> int {
        4
    }

    open spec fn direction() -> Option<int> {
        Some(210)
    }

    proof fn lemma_position() {
    }

    fn index(&self) -> (i: usize) {
        4
    }
}

impl Position<8> for BackR {
    open spec fn slot() -> int {
        5
    }

    open spec fn direction() -> Option<int> {
        Some(150)
    }

    proof fn lemma_position() {
    }

    fn index(&self) -> (i: usize) {
        5
    }
}

impl Position<8> for Left {
    open spec fn slot() -> int {
        6
    }

    open spec fn direction() -> Option<int> {
        Some(270)
    }

    proof fn lemma_position() {
    }

    fn index(&self) -> (i: usize) {
        6
    }
}

impl Position<8> for Right {
    open spec fn slot() -> int {
        7
    }

    open spec fn direction() -> Option<int> {
        Some(90)
    }

    proof fn lemma_position() {
    }

    fn index(&self) -> (i: usize) {
        7
    }
}

} // verus!
