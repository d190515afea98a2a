use fog_of_war::geometry::{in_visible_range, Direction, VIEW_DEPTH};

const ALL: [Direction; 4] = [Direction::Up, Direction::Left, Direction::Right, Direction::Down];

/// The cell `ahead` steps in front and `aside` steps to the side of (10, 10).
fn offset(direction: Direction, ahead: i64, aside: i64) -> (usize, usize) {
    let (row, col) = match direction {
        Direction::Down => (10 + ahead, 10 + aside),
        Direction::Up => (10 - ahead, 10 + aside),
        Direction::Right => (10 + aside, 10 + ahead),
        Direction::Left => (10 + aside, 10 - ahead),
    };
    (row as usize, col as usize)
}

#[test]
fn cone_is_exactly_the_fifteen_cells_ahead() {
    for direction in ALL {
        let mut seen: usize = 0;
        for ahead in -6..=6i64 {
            for aside in -6..=6i64 {
                let expected = 1 <= ahead && ahead < VIEW_DEPTH as i64 && aside.abs() <= ahead;
                let target = offset(direction, ahead, aside);
                assert_eq!(
                    in_visible_range((10, 10), direction, target),
                    expected,
                    "{:?} ahead {} aside {}",
                    direction,
                    ahead,
                    aside
                );
                if expected {
                    seen += 1;
                }
            }
        }
        assert_eq!(seen, 3 + 5 + 7);
    }
}

#[test]
fn cone_facing_down_cell_by_cell() {
    let from = (5, 5);
    let visible = [
        (6, 4), (6, 5), (6, 6),
        (7, 3), (7, 4), (7, 5), (7, 6), (7, 7),
        (8, 2), (8, 3), (8, 4), (8, 5), (8, 6), (8, 7), (8, 8),
    ];
    for target in visible {
        assert!(in_visible_range(from, Direction::Down, target), "{:?}", target);
    }
    let hidden = [
        (5, 5), (5, 4), (5, 6), (4, 5), (9, 5), (6, 3), (6, 7), (7, 2), (7, 8), (8, 1), (8, 9),
    ];
    for target in hidden {
        assert!(!in_visible_range(from, Direction::Down, target), "{:?}", target);
    }
}

#[test]
fn each_facing_looks_its_own_way() {
    let from = (10, 10);
    assert!(in_visible_range(from, Direction::Up, (9, 10)));
    assert!(!in_visible_range(from, Direction::Up, (11, 10)));
    assert!(in_visible_range(from, Direction::Down, (11, 10)));
    assert!(!in_visible_range(from, Direction::Down, (9, 10)));
    assert!(in_visible_range(from, Direction::Left, (10, 9)));
    assert!(!in_visible_range(from, Direction::Left, (10, 11)));
    assert!(in_visible_range(from, Direction::Right, (10, 11)));
    assert!(!in_visible_range(from, Direction::Right, (10, 9)));
}

#[test]
fn own_cell_and_cells_beside_are_not_visible() {
    for direction in ALL {
        assert!(!in_visible_range((10, 10), direction, (10, 10)));
        assert!(!in_visible_range((10, 10), direction, offset(direction, 0, 1)));
        assert!(!in_visible_range((10, 10), direction, offset(direction, 0, -1)));
    }
}

#[test]
fn cells_behind_are_not_visible() {
    for direction in ALL {
        assert!(!in_visible_range((10, 10), direction, offset(direction, -1, 0)));
        assert!(!in_visible_range((10, 10), direction, offset(direction, -2, 1)));
        assert!(!in_visible_range((10, 10), direction, offset(direction, -3, -3)));
    }
}

#[test]
fn depth_ends_after_three_cells() {
    for direction in ALL {
        assert!(in_visible_range((10, 10), direction, offset(direction, 3, 0)));
        assert!(in_visible_range((10, 10), direction, offset(direction, 3, 3)));
        assert!(in_visible_range((10, 10), direction, offset(direction, 3, -3)));
        assert!(!in_visible_range((10, 10), direction, offset(direction, 4, 0)));
        assert!(!in_visible_range((10, 10), direction, offset(direction, 4, 4)));
        assert!(!in_visible_range((10, 10), direction, offset(direction, 5, 0)));
    }
}

#[test]
fn cone_widens_one_cell_per_step() {
    for direction in ALL {
        for ahead in 1..=3i64 {
            assert!(in_visible_range((10, 10), direction, offset(direction, ahead, ahead)));
            assert!(in_visible_range((10, 10), direction, offset(direction, ahead, -ahead)));
            assert!(!in_visible_range((10, 10), direction, offset(direction, ahead, ahead + 1)));
            assert!(!in_visible_range((10, 10), direction, offset(direction, ahead, -ahead - 1)));
        }
    }
}

#[test]
fn seeing_is_not_mutual() {
    // Both face down: the one behind sees the one in front, not the reverse.
    assert!(in_visible_range((5, 5), Direction::Down, (7, 5)));
    assert!(!in_visible_range((7, 5), Direction::Down, (5, 5)));
    // Facing each other, both see.
    assert!(in_visible_range((5, 5), Direction::Down, (7, 5)));
    assert!(in_visible_range((7, 5), Direction::Up, (5, 5)));
}

#[test]
fn visibility_is_total_at_the_ends_of_the_range() {
    let max = usize::MAX;
    for direction in ALL {
        assert!(!in_visible_range((max, max), direction, (0, 0)));
        assert!(!in_visible_range((0, 0), direction, (max, max)));
        assert!(!in_visible_range((max, max), direction, (max, max)));
        assert!(!in_visible_range((0, 0), direction, (0, 0)));
    }
    assert!(in_visible_range((max - 1, max), Direction::Down, (max, max)));
    assert!(in_visible_range((max, max), Direction::Up, (max - 3, max - 3)));
    assert!(in_visible_range((max, max), Direction::Left, (max - 1, max - 1)));
    assert!(!in_visible_range((max, max), Direction::Right, (max, 0)));
    assert!(in_visible_range((0, 0), Direction::Right, (1, 1)));
    assert!(!in_visible_range((0, 0), Direction::Up, (max, 0)));
    assert!(!in_visible_range((0, 0), Direction::Left, (0, max)));
}

#[test]
fn left_turns_cycle_through_all_facings() {
    assert_eq!(Direction::Down.turn_left(), Direction::Right);
    assert_eq!(Direction::Right.turn_left(), Direction::Up);
    assert_eq!(Direction::Up.turn_left(), Direction::Left);
    assert_eq!(Direction::Left.turn_left(), Direction::Down);
}

#[test]
fn right_turns_cycle_through_all_facings() {
    assert_eq!(Direction::Down.turn_right(), Direction::Left);
    assert_eq!(Direction::Left.turn_right(), Direction::Up);
    assert_eq!(Direction::Up.turn_right(), Direction::Right);
    assert_eq!(Direction::Right.turn_right(), Direction::Down);
}

#[test]
fn opposite_turns_cancel() {
    for direction in ALL {
        assert_eq!(direction.turn_left().turn_right(), direction);
        assert_eq!(direction.turn_right().turn_left(), direction);
    }
}

#[test]
fn four_turns_come_full_circle() {
    for direction in ALL {
        assert_eq!(direction.turn_left().turn_left().turn_left().turn_left(), direction);
        assert_eq!(direction.turn_right().turn_right().turn_right().turn_right(), direction);
        assert_ne!(direction.turn_left(), direction);
        assert_ne!(direction.turn_left().turn_left(), direction);
        assert_ne!(direction.turn_left().turn_left().turn_left(), direction);
    }
}
