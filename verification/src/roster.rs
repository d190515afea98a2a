//! Sides, agents and the moves an agent can be given.

use crate::geometry::{turned_left, turned_right, Cell, Direction};
use vstd::prelude::*;

verus! {

/// Number of agents on each side, for the whole match.
pub const ROSTER_SIZE: usize = 10;

/// Column of each side's first agent; the others follow to the right.
pub const SPAWN_COLUMN: usize = 6;

/// Row on which the first side starts, facing down.
pub const FIRST_SPAWN_ROW: usize = 1;

/// Row on which the second side starts, facing up.
pub const SECOND_SPAWN_ROW: usize = 18;

/// One of the two participants of a match.
#[derive(Clone, Copy, Debug, PartialEq, Eq, Structural)]
pub enum Side {
    First,
    Second,
}

/// The side that is not `side`.
pub open spec fn opposite(side: Side) -> Side {
    match side {
        Side::First => Side::Second,
        Side::Second => Side::First,
    }
}

impl Side {
    /// The other side.
    pub fn opponent(self) -> (other: Side)
        ensures
            other == opposite(self),
    {
        match self {
            Side::First => Side::Second,
            Side::Second => Side::First,
        }
    }

    /// 0 for the first side, 1 for the second.
    pub fn index(self) -> (i: usize)
        ensures
            i == (if self == Side::First { 0usize } else { 1usize }),
    {
        match self {
            Side::First => 0,
            Side::Second => 1,
        }
    }
}

/// One unit of a roster: where it stands and which way it faces. An agent is
/// known by its slot in its roster.
#[derive(Clone, Copy, Debug, PartialEq, Eq)]
pub struct Agent {
    pub position: Cell,
    pub direction: Direction,
}

/// What one agent is told to do in a turn.
#[derive(Clone, Copy, Debug, PartialEq, Eq)]
pub enum AgentMove {
    Nothing,
    TurnLeft,
    TurnRight,
    MoveTo(Cell),
}

/// The agent after carrying out `order`: turns change the facing only, a move
/// changes the position only.
pub open spec fn moved(agent: Agent, order: AgentMove) -> Agent {
    match order {
        AgentMove::Nothing => agent,
        AgentMove::TurnLeft => Agent { direction: turned_left(agent.direction), ..agent },
        AgentMove::TurnRight => Agent { direction: turned_right(agent.direction), ..agent },
        AgentMove::MoveTo(target) => Agent { position: target, ..agent },
    }
}

/// The row a side starts on.
pub open spec fn spawn_row(side: Side) -> usize {
    match side {
        Side::First => FIRST_SPAWN_ROW,
        Side::Second => SECOND_SPAWN_ROW,
    }
}

/// The way a side faces at the start: towards the other side.
pub open spec fn spawn_direction(side: Side) -> Direction {
    match side {
        Side::First => Direction::Down,
        Side::Second => Direction::Up,
    }
}

/// The roster a side starts with: `ROSTER_SIZE` agents side by side on the
/// spawn row, from `SPAWN_COLUMN` rightwards.
pub open spec fn spawn_roster(side: Side) -> Seq<Agent> {
    Seq::new(
        ROSTER_SIZE as nat,
        |slot: int|
            Agent {
                position: (spawn_row(side), (SPAWN_COLUMN + slot) as usize),
                direction: spawn_direction(side),
            },
    )
}

impl Agent {
    /// Carries out one order.
    pub fn apply(self, order: AgentMove) -> (after: Agent)
        ensures
            after == moved(self, order),
    {
        match order {
            AgentMove::Nothing => self,
            AgentMove::TurnLeft => Agent {
                position: self.position,
                direction: self.direction.turn_left(),
            },
            AgentMove::TurnRight => Agent {
                position: self.position,
                direction: self.direction.turn_right(),
            },
            AgentMove::MoveTo(target) => Agent { position: target, direction: self.direction },
        }
    }
}

/// Builds the roster a side starts with.
pub fn initial_roster(side: Side) -> (roster: Vec<Agent>)
    ensures
        roster@ == spawn_roster(side),
{
    let (row, direction) = match side {
        Side::First => (FIRST_SPAWN_ROW, Direction::Down),
        Side::Second => (SECOND_SPAWN_ROW, Direction::Up),
    };
    let mut roster: Vec<Agent> = Vec::new();
    let mut slot: usize = 0;
    while slot < ROSTER_SIZE
        invariant
            slot <= ROSTER_SIZE,
            row == spawn_row(side),
            direction == spawn_direction(side),
            roster.len() == slot,
            forall|i: int| 0 <= i < slot ==> #[trigger] roster[i] == spawn_roster(side)[i],
        decreases ROSTER_SIZE - slot,
    {
        roster.push(Agent { position: (row, SPAWN_COLUMN + slot), direction });
        slot += 1;
    }
    roster
}

/// Turning an agent left and then right, or right and then left, leaves it as
/// it was.
pub proof fn lemma_opposite_turns_restore_agent(agent: Agent)
    ensures
        moved(moved(agent, AgentMove::TurnLeft), AgentMove::TurnRight) == agent,
        moved(moved(agent, AgentMove::TurnRight), AgentMove::TurnLeft) == agent,
{
}

/// The agent after carrying out `order` four times in a row.
pub open spec fn turned_four_times(agent: Agent, order: AgentMove) -> Agent {
    moved(moved(moved(moved(agent, order), order), order), order)
}

/// Turning an agent left four times in a row leaves it as it was, and so does
/// turning it right four times.
pub proof fn lemma_four_turns_restore_agent(agent: Agent)
    ensures
        turned_four_times(agent, AgentMove::TurnLeft) == agent,
        turned_four_times(agent, AgentMove::TurnRight) == agent,
{
}

/// No order other than a move changes where an agent stands, and no order
/// other than a turn changes the way it faces.
pub proof fn lemma_orders_touch_one_field(agent: Agent, order: AgentMove)
    ensures
        !(order is MoveTo) ==> moved(agent, order).position == agent.position,
        order is MoveTo || order is Nothing ==> moved(agent, order).direction == agent.direction,
{
}

} // verus!
