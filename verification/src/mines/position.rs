//! Positions on the board.

use vstd::prelude::*;
use vstd::std_specs::ops::{AddSpecImpl, SubSpecImpl};
use rand::Rng;

verus! {

/// A point of the grid, or the distance between two of them.
#[derive(Copy, Clone, Debug, PartialEq, Eq, PartialOrd, Ord, Structural)]
pub struct Position {
    pub x: i32,
    pub y: i32,
}

impl Position {
    /// The origin.
    pub fn new() -> (pos: Position)
        ensures
            pos == (Position { x: 0, y: 0 }),
    {
        Position::from(0, 0)
    }

    /// The position with the given coordinates.
    pub fn from(x: i32, y: i32) -> (pos: Position)
        ensures
            pos == (Position { x, y }),
    {
        Position { x, y }
    }

    /// The position with the coordinates of the pair, `x` first.
    pub fn from_tup(pos: (i32, i32)) -> (position: Position)
        ensures
            position == (Position { x: pos.0, y: pos.1 }),
    {
        Position { x: pos.0, y: pos.1 }
    }

    /// The coordinates as a pair, `x` first.
    pub fn xy(&self) -> (pair: (i32, i32))
        ensures
            pair == (self.x, self.y),
    {
        (self.x, self.y)
    }

    /// Whether both coordinates lie at or above zero and below those of
    /// `range`.
    pub open spec fn within(self, range: Position) -> bool {
        0 <= self.x < range.x && 0 <= self.y < range.y
    }
}

impl core::ops::Add for Position {
    type Output = Position;

    /// Adds coordinate by coordinate.
    fn add(self, rhs: Position) -> (sum: Position) {
        Position::from(self.x + rhs.x, self.y + rhs.y)
    }
}

impl AddSpecImpl for Position {
    open spec fn obeys_add_spec() -> bool {
        true
    }

    open spec fn add_req(self, rhs: Position) -> bool {
        i32::MIN <= self.x + rhs.x <= i32::MAX && i32::MIN <= self.y + rhs.y <= i32::MAX
    }

    open spec fn add_spec(self, rhs: Position) -> Position {
        Position { x: (self.x + rhs.x) as i32, y: (self.y + rhs.y) as i32 }
    }
}

impl core::ops::Sub for Position {
    type Output = Position;

    /// Subtracts coordinate by coordinate.
    fn sub(self, rhs: Position) -> (difference: Position) {
        Position::from(self.x - rhs.x, self.y - rhs.y)
    }
}

impl SubSpecImpl for Position {
    open spec fn obeys_sub_spec() -> bool {
        true
    }

    open spec fn sub_req(self, rhs: Position) -> bool {
        i32::MIN <= self.x - rhs.x <= i32::MAX && i32::MIN <= self.y - rhs.y <= i32::MAX
    }

    open spec fn sub_spec(self, rhs: Position) -> Position {
        Position { x: (self.x - rhs.x) as i32, y: (self.y - rhs.y) as i32 }
    }
}

/// Draws a number at or above zero and below `bound`.
///
/// Not proved: the body calls `rand::thread_rng` and `Rng::gen_range` on the
/// half-open range from zero to `bound`. The contract claims only that the
/// number lies in that range; `gen_range` panics on an empty range, which the
/// precondition rules out.
#[verifier::external_body]
fn random_below(bound: i32) -> (n: i32)
    requires
        0 < bound,
    ensures
        0 <= n < bound,
{
    rand::thread_rng().gen_range(0..bound)
}

/// A random position with each coordinate at or above zero and below that of
/// `range`.
pub fn rand_pos_in_range(range: Position) -> (pos: Position)
    requires
        0 < range.x,
        0 < range.y,
    ensures
        pos.within(range),
{
    let x = random_below(range.x);
    let y = random_below(range.y);
    Position::from(x, y)
}

} // verus!
