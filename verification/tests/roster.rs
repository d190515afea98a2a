use fog_of_war::geometry::Direction;
use fog_of_war::roster::{
    initial_roster, Agent, AgentMove, Side, FIRST_SPAWN_ROW, ROSTER_SIZE, SECOND_SPAWN_ROW,
    SPAWN_COLUMN,
};

#[test]
fn roster_constants() {
    assert_eq!(ROSTER_SIZE, 10);
    assert_eq!(SPAWN_COLUMN, 6);
    assert_eq!(FIRST_SPAWN_ROW, 1);
    assert_eq!(SECOND_SPAWN_ROW, 18);
}

#[test]
fn sides_are_each_other_s_opponent() {
    assert_eq!(Side::First.opponent(), Side::Second);
    assert_eq!(Side::Second.opponent(), Side::First);
    assert_eq!(Side::First.opponent().opponent(), Side::First);
    assert_eq!(Side::First.index(), 0);
    assert_eq!(Side::Second.index(), 1);
}

#[test]
fn first_side_starts_on_row_one_facing_down() {
    let roster = initial_roster(Side::First);
    let expected: Vec<Agent> = (6..=15)
        .map(|col| Agent { position: (1, col), direction: Direction::Down })
        .collect();
    assert_eq!(roster, expected);
}

#[test]
fn second_side_starts_on_row_eighteen_facing_up() {
    let roster = initial_roster(Side::Second);
    let expected: Vec<Agent> = (6..=15)
        .map(|col| Agent { position: (18, col), direction: Direction::Up })
        .collect();
    assert_eq!(roster, expected);
}

#[test]
fn nothing_leaves_the_agent_alone() {
    let agent = Agent { position: (4, 9), direction: Direction::Left };
    assert_eq!(agent.apply(AgentMove::Nothing), agent);
}

#[test]
fn turns_change_the_facing_only() {
    let agent = Agent { position: (4, 9), direction: Direction::Down };
    assert_eq!(
        agent.apply(AgentMove::TurnLeft),
        Agent { position: (4, 9), direction: Direction::Right }
    );
    assert_eq!(
        agent.apply(AgentMove::TurnRight),
        Agent { position: (4, 9), direction: Direction::Left }
    );
}

#[test]
fn a_move_changes_the_position_only() {
    let agent = Agent { position: (4, 9), direction: Direction::Up };
    assert_eq!(
        agent.apply(AgentMove::MoveTo((3, 8))),
        Agent { position: (3, 8), direction: Direction::Up }
    );
}

#[test]
fn turning_back_restores_the_agent() {
    for direction in [Direction::Up, Direction::Left, Direction::Right, Direction::Down] {
        let agent = Agent { position: (7, 7), direction };
        assert_eq!(agent.apply(AgentMove::TurnLeft).apply(AgentMove::TurnRight), agent);
        assert_eq!(agent.apply(AgentMove::TurnRight).apply(AgentMove::TurnLeft), agent);
        let mut turned = agent;
        for _ in 0..4 {
            turned = turned.apply(AgentMove::TurnLeft);
        }
        assert_eq!(turned, agent);
    }
}
