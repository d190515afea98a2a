use fog_of_war::board::{Board, Square};
use fog_of_war::roster::{initial_roster, AgentMove, Side};
use fog_of_war::session::{
    seat_players, Action, Delivery, Event, Incoming, Notice, Phase, Session,
};

fn nothing() -> Vec<AgentMove> {
    vec![AgentMove::Nothing; 10]
}

fn moves(batch: Vec<AgentMove>) -> Event {
    Event::Received(Incoming::Moves(batch))
}

fn send(to: Side, notice: Notice) -> Action {
    Action::Send(Delivery { to, notice })
}

fn played(to: Side, cells: &[(usize, usize)]) -> Action {
    send(to, Notice::MovePlayed { visible_opponents: cells.to_vec() })
}

/// A session on the empty board, past both start notices.
fn started() -> Session {
    let (mut session, first) = Session::new(Board::empty());
    assert!(matches!(first, Action::Send(_)));
    assert!(matches!(session.step(Event::Delivered), Action::Send(_)));
    assert_eq!(session.step(Event::Delivered), Action::Receive(Side::First));
    session
}

/// Hands in a batch that must be accepted and delivers both notices.
fn play(session: &mut Session, batch: Vec<AgentMove>) {
    assert!(matches!(session.step(moves(batch)), Action::Send(_)));
    assert!(matches!(session.step(Event::Delivered), Action::Send(_)));
    assert!(matches!(session.step(Event::Delivered), Action::Receive(_)));
}

#[test]
fn a_session_opens_with_a_start_notice_for_each_side() {
    let mut rows = vec![vec![Square::Empty; 20]; 20];
    rows[5][5] = Square::Block;
    let board = Board::from_rows(rows.clone()).expect("a board");
    let (mut session, first) = Session::new(board);
    assert_eq!(
        first,
        send(Side::First, Notice::Start { board: rows.clone(), is_first_player: true })
    );
    assert_eq!(session.phase(), Phase::Delivering);
    assert_eq!(
        session.step(Event::Delivered),
        send(Side::Second, Notice::Start { board: rows, is_first_player: false })
    );
    assert_eq!(session.phase(), Phase::Delivering);
    assert_eq!(session.step(Event::Delivered), Action::Receive(Side::First));
    assert_eq!(session.phase(), Phase::AwaitingMoves);
    assert_eq!(session.game().current_side(), Side::First);
    assert_eq!(*session.game().roster(Side::First), initial_roster(Side::First));
}

#[test]
fn nine_entries_get_an_invalid_move_notice_and_the_same_side_is_awaited() {
    let mut session = started();
    assert_eq!(
        session.step(moves(vec![AgentMove::Nothing; 9])),
        send(Side::First, Notice::InvalidMove)
    );
    assert_eq!(session.game().current_side(), Side::First);
    assert_eq!(session.step(Event::Delivered), Action::Receive(Side::First));
    assert_eq!(session.phase(), Phase::AwaitingMoves);
    assert_eq!(session.game().current_side(), Side::First);
    assert_eq!(*session.game().roster(Side::First), initial_roster(Side::First));
}

#[test]
fn an_undecodable_message_is_answered_like_an_invalid_batch() {
    let mut session = started();
    assert_eq!(
        session.step(Event::Received(Incoming::Malformed)),
        send(Side::First, Notice::InvalidMove)
    );
    assert_eq!(session.step(Event::Delivered), Action::Receive(Side::First));
    assert_eq!(session.game().current_side(), Side::First);
}

#[test]
fn an_accepted_batch_is_answered_to_both_sides_submitter_first() {
    let mut session = started();
    assert_eq!(session.step(moves(nothing())), played(Side::First, &[]));
    assert_eq!(session.game().current_side(), Side::Second);
    assert_eq!(session.step(Event::Delivered), played(Side::Second, &[]));
    assert_eq!(session.step(Event::Delivered), Action::Receive(Side::Second));
    // Now the second side submits, and is answered first.
    assert_eq!(session.step(moves(nothing())), played(Side::Second, &[]));
    assert_eq!(session.step(Event::Delivered), played(Side::First, &[]));
    assert_eq!(session.step(Event::Delivered), Action::Receive(Side::First));
}

#[test]
fn each_side_is_told_what_it_sees() {
    let mut session = started();
    let mut advance = nothing();
    for row in [4, 7, 10, 13] {
        advance[0] = AgentMove::MoveTo((row, 6));
        play(&mut session, advance.clone());
        play(&mut session, nothing());
    }
    advance[0] = AgentMove::MoveTo((15, 6));
    assert_eq!(
        session.step(moves(advance)),
        played(Side::First, &[(18, 6), (18, 7), (18, 8), (18, 9)])
    );
    assert_eq!(session.step(Event::Delivered), played(Side::Second, &[(15, 6)]));
    assert_eq!(session.step(Event::Delivered), Action::Receive(Side::Second));
    // The second side idles; the notices carry the full sets again.
    assert_eq!(session.step(moves(nothing())), played(Side::Second, &[(15, 6)]));
    assert_eq!(
        session.step(Event::Delivered),
        played(Side::First, &[(18, 6), (18, 7), (18, 8), (18, 9)])
    );
}

#[test]
fn a_rejected_side_keeps_the_turn_until_it_gets_it_right() {
    let mut session = started();
    play(&mut session, nothing());
    for _ in 0..3 {
        let mut bad = nothing();
        bad[0] = AgentMove::MoveTo((3, 3));
        assert_eq!(session.step(moves(bad)), send(Side::Second, Notice::InvalidMove));
        assert_eq!(session.step(Event::Delivered), Action::Receive(Side::Second));
    }
    assert_eq!(session.step(moves(nothing())), played(Side::Second, &[]));
}

#[test]
fn a_failed_start_notice_ends_the_session() {
    let (mut session, _) = Session::new(Board::empty());
    assert_eq!(session.step(Event::DeliveryFailed), Action::Stop);
    assert_eq!(session.phase(), Phase::Terminated);
}

#[test]
fn a_failed_notice_ends_the_session_without_the_one_queued_behind_it() {
    let mut session = started();
    assert_eq!(session.step(moves(nothing())), played(Side::First, &[]));
    assert_eq!(session.step(Event::DeliveryFailed), Action::Stop);
    assert_eq!(session.phase(), Phase::Terminated);
    assert_eq!(session.step(Event::Delivered), Action::Stop);
    assert_eq!(session.phase(), Phase::Terminated);
}

#[test]
fn a_failed_invalid_move_notice_ends_the_session() {
    let mut session = started();
    assert_eq!(
        session.step(Event::Received(Incoming::Malformed)),
        send(Side::First, Notice::InvalidMove)
    );
    assert_eq!(session.step(Event::DeliveryFailed), Action::Stop);
    assert_eq!(session.phase(), Phase::Terminated);
}

#[test]
fn a_closed_connection_ends_the_session() {
    let mut session = started();
    assert_eq!(session.step(Event::Received(Incoming::Closed)), Action::Stop);
    assert_eq!(session.phase(), Phase::Terminated);
}

#[test]
fn a_terminated_session_stays_terminated() {
    let mut session = started();
    assert_eq!(session.step(Event::Received(Incoming::Closed)), Action::Stop);
    assert_eq!(session.step(moves(nothing())), Action::Stop);
    assert_eq!(session.step(Event::Delivered), Action::Stop);
    assert_eq!(session.step(Event::DeliveryFailed), Action::Stop);
    assert_eq!(session.step(Event::Received(Incoming::Malformed)), Action::Stop);
    assert_eq!(session.phase(), Phase::Terminated);
    assert_eq!(session.game().current_side(), Side::First);
    assert_eq!(*session.game().roster(Side::First), initial_roster(Side::First));
}

#[test]
fn an_event_that_answers_nothing_ends_the_session() {
    let mut session = started();
    assert_eq!(session.step(Event::Delivered), Action::Stop);
    assert_eq!(session.phase(), Phase::Terminated);

    let (mut session, _) = Session::new(Board::empty());
    assert_eq!(session.step(moves(nothing())), Action::Stop);
    assert_eq!(session.phase(), Phase::Terminated);
    assert_eq!(session.game().current_side(), Side::First);
}

#[test]
fn both_players_are_seated() {
    let mut creator_first: usize = 0;
    let mut joiner_first: usize = 0;
    for _ in 0..400 {
        let seated = seat_players("creator", "joiner");
        if seated == ("creator", "joiner") {
            creator_first += 1;
        } else {
            assert_eq!(seated, ("joiner", "creator"));
            joiner_first += 1;
        }
    }
    assert_eq!(creator_first + joiner_first, 400);
    assert!(creator_first > 100, "creator first {} times", creator_first);
    assert!(joiner_first > 100, "joiner first {} times", joiner_first);
}
