//! The course of one match between two connections, as a state machine.
//!
//! A [`Session`] never touches a connection. It hands out one [`Action`] at a
//! time (send this notice, wait for that side, stop); the caller performs it
//! and reports back with an [`Event`], which yields the next action.

use crate::board::{grid_of, Board, Square};
use crate::chance::shuffle_pair;
use crate::geometry::Cell;
use crate::roster::{opposite, AgentMove, Side};
use crate::turn::{
    batch_valid, fresh_match, lemma_turn_keeps_wf, sightings, turn_result, Match, MatchView,
    Outcome,
};
use vstd::prelude::*;

verus! {

/// What the server tells one side during a match.
#[derive(Debug, PartialEq, Eq)]
pub enum Notice {
    /// The match begins on this board; the recipient moves first or second.
    Start { board: Vec<Vec<Square>>, is_first_player: bool },
    /// The recipient's submission was rejected; it is to submit again.
    InvalidMove,
    /// A turn was played; these are all the opposing agents the recipient
    /// sees now.
    MovePlayed { visible_opponents: Vec<Cell> },
}

/// A [`Notice`] as plain values.
pub enum NoticeView {
    Start { board: Seq<Seq<Square>>, is_first_player: bool },
    InvalidMove,
    MovePlayed { visible_opponents: Seq<Cell> },
}

impl View for Notice {
    type V = NoticeView;

    open spec fn view(&self) -> NoticeView {
        match *self {
            Notice::Start { board, is_first_player } => NoticeView::Start {
                board: grid_of(board@),
                is_first_player,
            },
            Notice::InvalidMove => NoticeView::InvalidMove,
            Notice::MovePlayed { visible_opponents } => NoticeView::MovePlayed {
                visible_opponents: visible_opponents@,
            },
        }
    }
}

/// A notice and the side it is for.
#[derive(Debug, PartialEq, Eq)]
pub struct Delivery {
    pub to: Side,
    pub notice: Notice,
}

/// A [`Delivery`] as plain values.
pub struct DeliveryView {
    pub to: Side,
    pub notice: NoticeView,
}

impl View for Delivery {
    type V = DeliveryView;

    open spec fn view(&self) -> DeliveryView {
        DeliveryView { to: self.to, notice: self.notice@ }
    }
}

/// What came of waiting for the side to move.
#[derive(Debug, PartialEq, Eq)]
pub enum Incoming {
    /// A message that decoded to a batch of orders.
    Moves(Vec<AgentMove>),
    /// A message that did not decode.
    Malformed,
    /// No message: the connection failed or was closed.
    Closed,
}

/// An [`Incoming`] as plain values.
pub enum IncomingView {
    Moves(Seq<AgentMove>),
    Malformed,
    Closed,
}

impl View for Incoming {
    type V = IncomingView;

    open spec fn view(&self) -> IncomingView {
        match *self {
            Incoming::Moves(batch) => IncomingView::Moves(batch@),
            Incoming::Malformed => IncomingView::Malformed,
            Incoming::Closed => IncomingView::Closed,
        }
    }
}

/// What happened to the action handed out last.
#[derive(Debug, PartialEq, Eq)]
pub enum Event {
    /// The notice was sent.
    Delivered,
    /// The notice could not be sent.
    DeliveryFailed,
    /// The wait for the side to move ended.
    Received(Incoming),
}

/// An [`Event`] as plain values.
pub enum EventView {
    Delivered,
    DeliveryFailed,
    Received(IncomingView),
}

impl View for Event {
    type V = EventView;

    open spec fn view(&self) -> EventView {
        match *self {
            Event::Delivered => EventView::Delivered,
            Event::DeliveryFailed => EventView::DeliveryFailed,
            Event::Received(incoming) => EventView::Received(incoming@),
        }
    }
}

/// What the caller is to do next.
#[derive(Debug, PartialEq, Eq)]
pub enum Action {
    /// Send the notice to its side, then report `Delivered` or
    /// `DeliveryFailed`.
    Send(Delivery),
    /// Wait for the next message of this side, then report `Received`.
    Receive(Side),
    /// The match is over; drop both connections.
    Stop,
}

/// An [`Action`] as plain values.
pub enum ActionView {
    Send(DeliveryView),
    Receive(Side),
    Stop,
}

impl View for Action {
    type V = ActionView;

    open spec fn view(&self) -> ActionView {
        match *self {
            Action::Send(delivery) => ActionView::Send(delivery@),
            Action::Receive(side) => ActionView::Receive(side),
            Action::Stop => ActionView::Stop,
        }
    }
}

/// Where a session stands.
#[derive(Clone, Copy, Debug, PartialEq, Eq, Structural)]
pub enum Phase {
    /// A notice is being sent; more may be queued behind it.
    Delivering,
    /// Waiting for the batch of the side to move.
    AwaitingMoves,
    /// Over. Nothing is sent or awaited any more.
    Terminated,
}

/// The state of a session as plain values.
pub struct SessionView {
    pub game: MatchView,
    /// Notices still to be sent, after the one in flight.
    pub queue: Seq<DeliveryView>,
    pub phase: Phase,
}

impl SessionView {
    /// What holds of a session at all times: its match is well-formed, and
    /// notices are queued only while one is being sent.
    pub open spec fn wf(self) -> bool {
        &&& self.game.wf()
        &&& self.phase != Phase::Delivering ==> self.queue.len() == 0
    }
}

/// Deliveries as plain values.
pub open spec fn deliveries_view(queue: Seq<Delivery>) -> Seq<DeliveryView> {
    Seq::new(queue.len(), |i: int| queue[i]@)
}

/// Goes on with `queue` left to send: the first queued notice is sent next,
/// and once nothing is queued the side to move is awaited.
pub open spec fn proceed(game: MatchView, queue: Seq<DeliveryView>) -> (SessionView, ActionView) {
    if queue.len() > 0 {
        (
            SessionView { game, queue: queue.drop_first(), phase: Phase::Delivering },
            ActionView::Send(queue.first()),
        )
    } else {
        (
            SessionView { game, queue: Seq::empty(), phase: Phase::AwaitingMoves },
            ActionView::Receive(game.current),
        )
    }
}

/// Ends the session: whatever was queued is dropped and nothing more is sent.
pub open spec fn halted(game: MatchView) -> (SessionView, ActionView) {
    (SessionView { game, queue: Seq::empty(), phase: Phase::Terminated }, ActionView::Stop)
}

/// The notice that tells `side` what it sees of the other side in `game`.
pub open spec fn move_played_for(game: MatchView, side: Side) -> DeliveryView {
    DeliveryView {
        to: side,
        notice: NoticeView::MovePlayed {
            visible_opponents: sightings(game.roster(side), game.roster(opposite(side))),
        },
    }
}

/// The notice that tells `side` that the match begins on `board`.
pub open spec fn start_for(board: Seq<Seq<Square>>, side: Side) -> DeliveryView {
    DeliveryView {
        to: side,
        notice: NoticeView::Start { board, is_first_player: side == Side::First },
    }
}

/// The notice that tells `side` that its submission was rejected.
pub open spec fn invalid_move_for(side: Side) -> DeliveryView {
    DeliveryView { to: side, notice: NoticeView::InvalidMove }
}

/// The notices that answer `batch`, submitted to `game` by the side to move.
/// A rejected batch is answered to the submitter alone. An accepted batch is
/// answered to both sides, the submitter first, each with what it sees after
/// the turn.
pub open spec fn answers(game: MatchView, batch: Seq<AgentMove>) -> Seq<DeliveryView> {
    let side = game.current;
    if batch_valid(game.board, game.roster(side), batch) {
        let after = turn_result(game, batch);
        seq![move_played_for(after, side), move_played_for(after, opposite(side))]
    } else {
        seq![invalid_move_for(side)]
    }
}

/// How a session begins on `board`: both sides are told of the start, the
/// first side first, and then the first side is awaited.
pub open spec fn opening(board: Seq<Seq<Square>>) -> (SessionView, ActionView) {
    proceed(
        fresh_match(board),
        seq![start_for(board, Side::First), start_for(board, Side::Second)],
    )
}

/// The transition function of a session: the state and action that follow
/// when `event` is reported in `state`.
///
/// While a notice is being sent, its delivery leads on to the next queued
/// notice or to the wait for the side to move. While a side is awaited, a
/// batch is judged and answered, and a message that did not decode is
/// answered like a rejected batch. Everything else ends the session: a failed
/// delivery, a closed connection, and any event that does not answer the
/// action handed out last.
pub open spec fn transition(state: SessionView, event: EventView) -> (SessionView, ActionView) {
    match (state.phase, event) {
        (Phase::Delivering, EventView::Delivered) => proceed(state.game, state.queue),
        (Phase::AwaitingMoves, EventView::Received(IncomingView::Moves(batch))) => proceed(
            turn_result(state.game, batch),
            answers(state.game, batch),
        ),
        (Phase::AwaitingMoves, EventView::Received(IncomingView::Malformed)) => proceed(
            state.game,
            seq![invalid_move_for(state.game.current)],
        ),
        _ => halted(state.game),
    }
}

/// Whatever is reported, a well-formed session stays well-formed.
pub proof fn lemma_transition_keeps_wf(state: SessionView, event: EventView)
    requires
        state.wf(),
    ensures
        transition(state, event).0.wf(),
{
    if let EventView::Received(IncomingView::Moves(batch)) = event {
        lemma_turn_keeps_wf(state.game, batch);
    }
}

/// A terminated session stays terminated: whatever is reported, the answer is
/// to stop, and the match is left as it was.
pub proof fn lemma_terminated_is_final(state: SessionView, event: EventView)
    requires
        state.phase == Phase::Terminated,
    ensures
        transition(state, event).0.phase == Phase::Terminated,
        transition(state, event).0.game == state.game,
        transition(state, event).1 == ActionView::Stop,
{
}

/// The match changes in one way only: by a valid batch that arrives while the
/// side to move is awaited. Then the turn passes to the other side. In every
/// other case the match, and with it the side to move, stays as it was.
pub proof fn lemma_match_changes_only_by_valid_batch(state: SessionView, event: EventView)
    ensures
        transition(state, event).0.game != state.game ==> {
            &&& state.phase == Phase::AwaitingMoves
            &&& event matches EventView::Received(IncomingView::Moves(batch))
            &&& batch_valid(state.game.board, state.game.roster(state.game.current), batch)
            &&& transition(state, event).0.game.current == opposite(state.game.current)
        },
{
}

/// While a side is awaited, the next thing asked for is never a wait: a
/// batch or an undecodable message is first answered with a notice to the
/// side that sent it, and everything else stops the session.
pub proof fn lemma_submitter_is_answered_first(state: SessionView, event: EventView)
    requires
        state.phase == Phase::AwaitingMoves,
    ensures
        match transition(state, event).1 {
            ActionView::Send(delivery) => delivery.to == state.game.current,
            ActionView::Receive(_) => false,
            ActionView::Stop => transition(state, event).0.phase == Phase::Terminated,
        },
{
}

/// One match between two connections.
pub struct Session {
    game: Match,
    queue: Vec<Delivery>,
    phase: Phase,
}

impl View for Session {
    type V = SessionView;

    closed spec fn view(&self) -> SessionView {
        SessionView { game: self.game@, queue: deliveries_view(self.queue@), phase: self.phase }
    }
}

impl Session {
    /// The invariant of every session handed out by this module.
    pub open spec fn wf(&self) -> bool {
        self@.wf()
    }

    /// Begins a match on `board` and says what to do first.
    pub fn new(board: Board) -> (begun: (Session, Action))
        requires
            board.wf(),
        ensures
            begun.0.wf(),
            (begun.0@, begun.1@) == opening(board@),
    {
        let to_first = Delivery {
            to: Side::First,
            notice: Notice::Start { board: board.to_rows(), is_first_player: true },
        };
        let to_second = Delivery {
            to: Side::Second,
            notice: Notice::Start { board: board.to_rows(), is_first_player: false },
        };
        let mut queue: Vec<Delivery> = Vec::new();
        queue.push(to_first);
        queue.push(to_second);
        assert(deliveries_view(queue@) =~= seq![
            start_for(board@, Side::First),
            start_for(board@, Side::Second),
        ]);
        let mut session = Session { game: Match::new(board), queue, phase: Phase::Delivering };
        let action = session.advance();
        (session, action)
    }

    /// Where the session stands.
    pub fn phase(&self) -> (phase: Phase)
        ensures
            phase == self@.phase,
    {
        self.phase
    }

    /// The match being played.
    pub fn game(&self) -> (game: &Match)
        ensures
            game@ == self@.game,
    {
        &self.game
    }

    fn advance(&mut self) -> (action: Action)
        requires
            old(self).game.wf(),
        ensures
            final(self).wf(),
            (final(self)@, action@) == proceed(old(self)@.game, old(self)@.queue),
    {
        if self.queue.len() > 0 {
            let delivery = self.queue.remove(0);
            self.phase = Phase::Delivering;
            assert(deliveries_view(self.queue@) =~= deliveries_view(old(self).queue@).drop_first());
            Action::Send(delivery)
        } else {
            self.phase = Phase::AwaitingMoves;
            assert(deliveries_view(self.queue@) =~= Seq::<DeliveryView>::empty());
            Action::Receive(self.game.current_side())
        }
    }

    fn halt(&mut self) -> (action: Action)
        requires
            old(self).game.wf(),
        ensures
            final(self).wf(),
            (final(self)@, action@) == halted(old(self)@.game),
    {
        self.queue = Vec::new();
        self.phase = Phase::Terminated;
        assert(deliveries_view(self.queue@) =~= Seq::<DeliveryView>::empty());
        Action::Stop
    }

    fn answer(&mut self, batch: &Vec<AgentMove>)
        requires
            old(self).game.wf(),
        ensures
            final(self).game.wf(),
            final(self)@.game == turn_result(old(self)@.game, batch@),
            final(self)@.queue == answers(old(self)@.game, batch@),
            final(self)@.phase == old(self)@.phase,
    {
        let side = self.game.current_side();
        let mut queue: Vec<Delivery> = Vec::new();
        match self.game.submit(side, batch) {
            Outcome::Rejected => {
                queue.push(Delivery { to: side, notice: Notice::InvalidMove });
            },
            Outcome::Accepted { seen_by_first, seen_by_second } => {
                let to_first = Delivery {
                    to: Side::First,
                    notice: Notice::MovePlayed { visible_opponents: seen_by_first },
                };
                let to_second = Delivery {
                    to: Side::Second,
                    notice: Notice::MovePlayed { visible_opponents: seen_by_second },
                };
                match side {
                    Side::First => {
                        queue.push(to_first);
                        queue.push(to_second);
                    },
                    Side::Second => {
                        queue.push(to_second);
                        queue.push(to_first);
                    },
                }
            },
        }
        self.queue = queue;
    }

    /// Takes the report on the action handed out last and says what to do
    /// next.
    pub fn step(&mut self, event: Event) -> (action: Action)
        requires
            old(self).wf(),
        ensures
            final(self).wf(),
            (final(self)@, action@) == transition(old(self)@, event@),
    {
        match self.phase {
            Phase::Delivering => match event {
                Event::Delivered => self.advance(),
                _ => self.halt(),
            },
            Phase::AwaitingMoves => match event {
                Event::Received(Incoming::Moves(batch)) => {
                    self.answer(&batch);
                    self.advance()
                },
                Event::Received(Incoming::Malformed) => {
                    let side = self.game.current_side();
                    let mut queue: Vec<Delivery> = Vec::new();
                    queue.push(Delivery { to: side, notice: Notice::InvalidMove });
                    self.queue = queue;
                    assert(deliveries_view(self.queue@) =~= seq![invalid_move_for(side)]);
                    self.advance()
                },
                _ => self.halt(),
            },
            Phase::Terminated => self.halt(),
        }
    }
}

/// Decides by chance which of the two players of a match gets which side: the
/// first of the pair returned plays the first side. Both players are seated,
/// in one order or the other.
pub fn seat_players<C>(creator: C, joiner: C) -> (seated: (C, C))
    ensures
        seated == (creator, joiner) || seated == (joiner, creator),
{
    shuffle_pair(creator, joiner)
}

} // verus!
