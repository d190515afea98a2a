//! Facings and the visibility cone.

use vstd::prelude::*;

verus! {

/// A board cell, as `(row, column)`.
pub type Cell = (usize, usize);

/// An agent sees cells whose forward offset is at least 1 and below this.
pub const VIEW_DEPTH: usize = 4;

/// The way an agent faces. `Down` is towards growing rows, `Right` towards
/// growing columns.
#[derive(Clone, Copy, Debug, PartialEq, Eq, Structural)]
pub enum Direction {
    Up,
    Left,
    Right,
    Down,
}

/// The facing after a quarter turn to the left.
pub open spec fn turned_left(direction: Direction) -> Direction {
    match direction {
        Direction::Down => Direction::Right,
        Direction::Right => Direction::Up,
        Direction::Up => Direction::Left,
        Direction::Left => Direction::Down,
    }
}

/// The facing after a quarter turn to the right.
pub open spec fn turned_right(direction: Direction) -> Direction {
    match direction {
        Direction::Down => Direction::Left,
        Direction::Left => Direction::Up,
        Direction::Up => Direction::Right,
        Direction::Right => Direction::Down,
    }
}

impl Direction {
    /// A quarter turn to the left.
    pub fn turn_left(self) -> (turned: Direction)
        ensures
            turned == turned_left(self),
    {
        match self {
            Direction::Down => Direction::Right,
            Direction::Right => Direction::Up,
            Direction::Up => Direction::Left,
            Direction::Left => Direction::Down,
        }
    }

    /// A quarter turn to the right.
    pub fn turn_right(self) -> (turned: Direction)
        ensures
            turned == turned_right(self),
    {
        match self {
            Direction::Down => Direction::Left,
            Direction::Left => Direction::Up,
            Direction::Up => Direction::Right,
            Direction::Right => Direction::Down,
        }
    }
}

/// A left turn undoes a right turn, and a right turn undoes a left turn.
pub proof fn lemma_opposite_turns_cancel(direction: Direction)
    ensures
        turned_right(turned_left(direction)) == direction,
        turned_left(turned_right(direction)) == direction,
{
}

/// Four quarter turns the same way come back to the starting facing.
pub proof fn lemma_four_turns_restore(direction: Direction)
    ensures
        turned_left(turned_left(turned_left(turned_left(direction)))) == direction,
        turned_right(turned_right(turned_right(turned_right(direction)))) == direction,
{
}

/// How far `target` lies ahead of `position` along the facing axis. Zero or
/// negative means beside or behind.
pub open spec fn forward_offset(position: Cell, direction: Direction, target: Cell) -> int {
    match direction {
        Direction::Down => target.0 - position.0,
        Direction::Up => position.0 - target.0,
        Direction::Right => target.1 - position.1,
        Direction::Left => position.1 - target.1,
    }
}

/// How far `target` lies to either side of the facing axis through `position`.
pub open spec fn lateral_offset(position: Cell, direction: Direction, target: Cell) -> int {
    match direction {
        Direction::Down | Direction::Up => distance(position.1, target.1),
        Direction::Right | Direction::Left => distance(position.0, target.0),
    }
}

/// The absolute difference of two coordinates.
pub open spec fn distance(a: usize, b: usize) -> int {
    if a <= b {
        b - a
    } else {
        a - b
    }
}

/// Whether an agent at `position` facing `direction` sees `target`: the target
/// is 1 to `VIEW_DEPTH - 1` cells ahead and no further to the side than ahead.
pub open spec fn is_visible(position: Cell, direction: Direction, target: Cell) -> bool {
    let ahead = forward_offset(position, direction, target);
    1 <= ahead < VIEW_DEPTH && lateral_offset(position, direction, target) <= ahead
}

/// The cone written out facing by facing, in rows and columns: the target is
/// at least 1 and fewer than `VIEW_DEPTH` cells further along the facing axis,
/// and at most that many cells off to the side.
pub proof fn lemma_cone_by_facing(position: Cell, target: Cell)
    ensures
        is_visible(position, Direction::Down, target) <==> {
            &&& position.0 < target.0 < position.0 + VIEW_DEPTH
            &&& distance(position.1, target.1) <= target.0 - position.0
        },
        is_visible(position, Direction::Up, target) <==> {
            &&& target.0 < position.0 < target.0 + VIEW_DEPTH
            &&& distance(position.1, target.1) <= position.0 - target.0
        },
        is_visible(position, Direction::Right, target) <==> {
            &&& position.1 < target.1 < position.1 + VIEW_DEPTH
            &&& distance(position.0, target.0) <= target.1 - position.1
        },
        is_visible(position, Direction::Left, target) <==> {
            &&& target.1 < position.1 < target.1 + VIEW_DEPTH
            &&& distance(position.0, target.0) <= position.1 - target.1
        },
{
}

/// An agent never sees its own cell, and two agents that face the same way
/// never see each other both.
pub proof fn lemma_no_mutual_sight_when_facing_alike(a: Cell, b: Cell, direction: Direction)
    ensures
        !is_visible(a, direction, a),
        !(is_visible(a, direction, b) && is_visible(b, direction, a)),
{
}

fn gap(a: usize, b: usize) -> (d: usize)
    ensures
        d == distance(a, b),
{
    if a <= b {
        b - a
    } else {
        a - b
    }
}

/// Decides whether `target` lies in the cone seen from `position` when facing
/// `direction`. Defined for every pair of cells, on the board or off it.
pub fn in_visible_range(
    position: (usize, usize),
    direction: Direction,
    target: (usize, usize),
) -> (visible: bool)
    ensures
        visible == is_visible(position, direction, target),
        forward_offset(position, direction, target) < 1 ==> !visible,
        forward_offset(position, direction, target) >= VIEW_DEPTH ==> !visible,
        lateral_offset(position, direction, target) > forward_offset(position, direction, target)
            ==> !visible,
{
    match direction {
        Direction::Down => {
            position.0 < target.0 && target.0 - position.0 < VIEW_DEPTH
                && gap(position.1, target.1) <= target.0 - position.0
        },
        Direction::Left => {
            target.1 < position.1 && position.1 - target.1 < VIEW_DEPTH
                && gap(position.0, target.0) <= position.1 - target.1
        },
        Direction::Right => {
            position.1 < target.1 && target.1 - position.1 < VIEW_DEPTH
                && gap(position.0, target.0) <= target.1 - position.1
        },
        Direction::Up => {
            target.0 < position.0 && position.0 - target.0 < VIEW_DEPTH
                && gap(position.1, target.1) <= position.0 - target.0
        },
    }
}

} // verus!
