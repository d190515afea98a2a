//! One match: the board, both rosters and whose turn it is.
//!
//! A turn is one batch of orders, one per agent of the side to move. The batch
//! is judged as a whole against the positions and facings the agents have
//! before it; if it is valid, all of it is carried out and the turn passes to
//! the other side, and otherwise nothing changes.

use crate::board::{grid_wf, in_bounds, is_free, Board, Square};
use crate::geometry::{in_visible_range, is_visible, Cell};
use crate::roster::{
    initial_roster, moved, opposite, spawn_roster, Agent, AgentMove, Side, ROSTER_SIZE,
};
use vstd::prelude::*;

verus! {

/// Whether `agent` sees `cell`.
pub open spec fn sees(agent: Agent, cell: Cell) -> bool {
    is_visible(agent.position, agent.direction, cell)
}

/// Whether `agent`, as it stands, may carry out `order` on `board`. Only a
/// move is constrained: its target must be an empty cell of the board that
/// the agent sees.
pub open spec fn move_allowed(board: Seq<Seq<Square>>, agent: Agent, order: AgentMove) -> bool {
    match order {
        AgentMove::MoveTo(target) => is_free(board, target) && sees(agent, target),
        _ => true,
    }
}

/// Whether no two entries of the batch order a move to the same cell.
pub open spec fn targets_distinct(batch: Seq<AgentMove>) -> bool {
    forall|i: int, j: int|
        0 <= i < j < batch.len() && (#[trigger] batch[i]) is MoveTo ==> batch[i]
            != #[trigger] batch[j]
}

/// Whether `batch` is a valid turn for `roster` on `board`: one order per
/// agent, each allowed for the agent in its slot, and no target claimed twice.
pub open spec fn batch_valid(
    board: Seq<Seq<Square>>,
    roster: Seq<Agent>,
    batch: Seq<AgentMove>,
) -> bool {
    &&& batch.len() == roster.len()
    &&& forall|i: int| 0 <= i < batch.len() ==> move_allowed(board, roster[i], #[trigger] batch[i])
    &&& targets_distinct(batch)
}

/// Whether two entries of the batch order a move to the same cell.
pub open spec fn shares_target(batch: Seq<AgentMove>) -> bool {
    exists|i: int, j: int|
        0 <= i < j < batch.len() && (#[trigger] batch[i]) is MoveTo && batch[i]
            == #[trigger] batch[j]
}

/// Whether entry `slot` of the batch orders a move that cannot be made: off
/// the board, onto a block, or to a cell that the agent in that slot does not
/// see.
pub open spec fn target_refused(
    board: Seq<Seq<Square>>,
    roster: Seq<Agent>,
    batch: Seq<AgentMove>,
    slot: int,
) -> bool {
    &&& 0 <= slot < batch.len()
    &&& batch[slot] matches AgentMove::MoveTo(target)
    &&& {
        ||| !in_bounds(target)
        ||| board[target.0 as int][target.1 as int] == Square::Block
        ||| slot < roster.len() && !sees(roster[slot], target)
    }
}

/// The roster after each agent has carried out the order in its slot.
pub open spec fn roster_after(roster: Seq<Agent>, batch: Seq<AgentMove>) -> Seq<Agent> {
    Seq::new(roster.len(), |i: int| moved(roster[i], batch[i]))
}

/// Whether some agent of `roster` sees `cell`.
pub open spec fn seen_by(roster: Seq<Agent>, cell: Cell) -> bool {
    exists|i: int| 0 <= i < roster.len() && sees(#[trigger] roster[i], cell)
}

/// Whether some agent of `roster` stands on `cell`.
pub open spec fn occupied_by(roster: Seq<Agent>, cell: Cell) -> bool {
    exists|i: int| 0 <= i < roster.len() && (#[trigger] roster[i]).position == cell
}

/// Whether `cell` holds an opponent that `own` can see.
pub open spec fn spotted(own: Seq<Agent>, opponents: Seq<Agent>, cell: Cell) -> bool {
    occupied_by(opponents, cell) && seen_by(own, cell)
}

/// The cells of the first `count` opponents that `own` can see, in roster
/// order, each cell once.
pub open spec fn sightings_among(own: Seq<Agent>, opponents: Seq<Agent>, count: int) -> Seq<Cell>
    decreases count,
{
    if count <= 0 {
        Seq::empty()
    } else {
        let earlier = sightings_among(own, opponents, count - 1);
        let cell = opponents[count - 1].position;
        if seen_by(own, cell) && !earlier.contains(cell) {
            earlier.push(cell)
        } else {
            earlier
        }
    }
}

/// What `own` is shown of `opponents`: the cells of the opposing agents that
/// at least one own agent sees, in roster order, each cell once.
pub open spec fn sightings(own: Seq<Agent>, opponents: Seq<Agent>) -> Seq<Cell> {
    sightings_among(own, opponents, opponents.len() as int)
}

/// The sightings among the first `count` opponents are the cells that one of
/// these opponents stands on and that some own agent sees, each listed once.
proof fn lemma_sightings_among(own: Seq<Agent>, opponents: Seq<Agent>, count: int)
    requires
        0 <= count <= opponents.len(),
    ensures
        sightings_among(own, opponents, count).no_duplicates(),
        forall|cell: Cell| #[trigger]
            sightings_among(own, opponents, count).contains(cell) <==> seen_by(own, cell)
                && occupied_by(opponents.take(count), cell),
    decreases count,
{
    if count > 0 {
        lemma_sightings_among(own, opponents, count - 1);
        let listed = sightings_among(own, opponents, count);
        let earlier = sightings_among(own, opponents, count - 1);
        let counted = opponents.take(count);
        let counted_earlier = opponents.take(count - 1);
        assert(counted[count - 1].position == opponents[count - 1].position);
        assert forall|cell: Cell| #[trigger]
            listed.contains(cell) <==> seen_by(own, cell) && occupied_by(counted, cell) by {
            if earlier.contains(cell) {
                // Listed before: still listed, and its opponent is still counted.
                let at = earlier.index_of(cell);
                assert(listed[at] == cell);
                let slot = choose|slot: int|
                    0 <= slot < count - 1 && (#[trigger] counted_earlier[slot]).position == cell;
                assert(counted[slot].position == cell);
            } else if occupied_by(counted, cell) {
                // Not listed before: no earlier opponent stands there and is
                // seen, so it is listed now exactly if the newest one does.
                let slot = choose|slot: int|
                    0 <= slot < count && (#[trigger] counted[slot]).position == cell;
                if slot < count - 1 {
                    assert(counted_earlier[slot].position == cell);
                } else if seen_by(own, cell) {
                    assert(listed[earlier.len() as int] == cell);
                }
            }
        }
    }
}

/// A cell is among the sightings exactly if an opposing agent stands on it and
/// at least one own agent sees it, and no cell is listed twice. Read as a set,
/// the sightings are the set of spotted cells.
pub proof fn lemma_sightings_are_the_spotted(own: Seq<Agent>, opponents: Seq<Agent>)
    ensures
        sightings(own, opponents).no_duplicates(),
        forall|cell: Cell| #[trigger]
            sightings(own, opponents).contains(cell) <==> spotted(own, opponents, cell),
        sightings(own, opponents).to_set() == Set::new(
            |cell: Cell| spotted(own, opponents, cell),
        ),
{
    lemma_sightings_among(own, opponents, opponents.len() as int);
    assert(opponents.take(opponents.len() as int) =~= opponents);
    assert(sightings(own, opponents).to_set() =~= Set::new(
        |cell: Cell| spotted(own, opponents, cell),
    ));
}

fn same_cell(a: Cell, b: Cell) -> (same: bool)
    ensures
        same == (a == b),
{
    a.0 == b.0 && a.1 == b.1
}

fn lists(cells: &Vec<Cell>, cell: Cell) -> (found: bool)
    ensures
        found == cells@.contains(cell),
{
    let mut i: usize = 0;
    while i < cells.len()
        invariant
            i <= cells.len(),
            forall|k: int| 0 <= k < i ==> cells[k] != cell,
        decreases cells.len() - i,
    {
        if same_cell(cells[i], cell) {
            return true;
        }
        i += 1;
    }
    false
}

/// Decides whether some agent of `roster` sees `cell`.
pub fn any_sees(roster: &Vec<Agent>, cell: Cell) -> (seen: bool)
    ensures
        seen == seen_by(roster@, cell),
{
    let mut i: usize = 0;
    while i < roster.len()
        invariant
            i <= roster.len(),
            forall|k: int| 0 <= k < i ==> !sees(#[trigger] roster[k], cell),
        decreases roster.len() - i,
    {
        if in_visible_range(roster[i].position, roster[i].direction, cell) {
            return true;
        }
        i += 1;
    }
    false
}

/// Lists what `own` is shown of `opponents`: every cell on which an opposing
/// agent stands and which at least one own agent sees, once.
pub fn visible_opponents(own: &Vec<Agent>, opponents: &Vec<Agent>) -> (cells: Vec<Cell>)
    ensures
        cells@ == sightings(own@, opponents@),
        cells@.no_duplicates(),
        forall|cell: Cell| #[trigger] cells@.contains(cell) <==> spotted(own@, opponents@, cell),
{
    let mut cells: Vec<Cell> = Vec::new();
    let mut i: usize = 0;
    while i < opponents.len()
        invariant
            i <= opponents.len(),
            cells@ == sightings_among(own@, opponents@, i as int),
        decreases opponents.len() - i,
    {
        let cell = opponents[i].position;
        if any_sees(own, cell) && !lists(&cells, cell) {
            cells.push(cell);
        }
        i += 1;
    }
    proof {
        lemma_sightings_are_the_spotted(own@, opponents@);
    }
    cells
}

/// Decides whether `batch` is a valid turn for `roster` on `board`.
pub fn is_valid_batch(board: &Board, roster: &Vec<Agent>, batch: &Vec<AgentMove>) -> (valid: bool)
    requires
        board.wf(),
    ensures
        valid == batch_valid(board@, roster@, batch@),
{
    if batch.len() != roster.len() {
        return false;
    }
    let mut claimed: Vec<Cell> = Vec::new();
    let mut i: usize = 0;
    while i < batch.len()
        invariant
            i <= batch.len(),
            batch.len() == roster.len(),
            board.wf(),
            forall|k: int| 0 <= k < i ==> move_allowed(board@, roster[k], #[trigger] batch[k]),
            forall|k: int, l: int|
                0 <= k < l < i && (#[trigger] batch[k]) is MoveTo ==> batch[k]
                    != #[trigger] batch[l],
            forall|cell: Cell| #[trigger]
                claimed@.contains(cell) <==> exists|k: int|
                    0 <= k < i && #[trigger] batch[k] == AgentMove::MoveTo(cell),
        decreases batch.len() - i,
    {
        match batch[i] {
            AgentMove::MoveTo(target) => {
                let agent = roster[i];
                if !in_visible_range(agent.position, agent.direction, target) || !board.is_free(
                    target,
                ) {
                    return false;
                }
                if lists(&claimed, target) {
                    return false;
                }
                let ghost before = claimed@;
                claimed.push(target);
                proof {
                    assert forall|cell: Cell| #[trigger]
                        claimed@.contains(cell) <==> exists|k: int|
                            0 <= k < i + 1 && #[trigger] batch[k] == AgentMove::MoveTo(cell) by {
                        if before.contains(cell) {
                            assert(claimed@[before.index_of(cell)] == cell);
                        }
                        if cell == target {
                            assert(claimed@[before.len() as int] == cell);
                        }
                    }
                }
            },
            _ => {},
        }
        i += 1;
    }
    true
}

fn apply_batch(roster: &Vec<Agent>, batch: &Vec<AgentMove>) -> (after: Vec<Agent>)
    requires
        batch.len() == roster.len(),
    ensures
        after@ == roster_after(roster@, batch@),
{
    let mut after: Vec<Agent> = Vec::new();
    let mut i: usize = 0;
    while i < roster.len()
        invariant
            i <= roster.len(),
            batch.len() == roster.len(),
            after.len() == i,
            forall|k: int| 0 <= k < i ==> #[trigger] after[k] == moved(roster[k], batch[k]),
        decreases roster.len() - i,
    {
        after.push(roster[i].apply(batch[i]));
        i += 1;
    }
    after
}

/// The state of a match as plain values.
pub struct MatchView {
    pub board: Seq<Seq<Square>>,
    pub first: Seq<Agent>,
    pub second: Seq<Agent>,
    pub current: Side,
}

/// Whether every agent of `roster` stands on an empty cell of `board`.
pub open spec fn stands_free(board: Seq<Seq<Square>>, roster: Seq<Agent>) -> bool {
    forall|i: int| 0 <= i < roster.len() ==> is_free(board, (#[trigger] roster[i]).position)
}

impl MatchView {
    /// The roster of `side`.
    pub open spec fn roster(self, side: Side) -> Seq<Agent> {
        match side {
            Side::First => self.first,
            Side::Second => self.second,
        }
    }

    /// This state with the roster of `side` replaced.
    pub open spec fn with_roster(self, side: Side, roster: Seq<Agent>) -> MatchView {
        match side {
            Side::First => MatchView { first: roster, ..self },
            Side::Second => MatchView { second: roster, ..self },
        }
    }

    /// What holds of a match at all times: the board is a board, both rosters
    /// are complete, and every agent stands on an empty cell of the board.
    pub open spec fn wf(self) -> bool {
        &&& grid_wf(self.board)
        &&& self.first.len() == ROSTER_SIZE
        &&& self.second.len() == ROSTER_SIZE
        &&& stands_free(self.board, self.first)
        &&& stands_free(self.board, self.second)
    }
}

/// A match before its first turn: both sides on their spawn rows, the first
/// side to move.
pub open spec fn fresh_match(board: Seq<Seq<Square>>) -> MatchView {
    MatchView {
        board,
        first: spawn_roster(Side::First),
        second: spawn_roster(Side::Second),
        current: Side::First,
    }
}

/// The match after the side to move has submitted `batch`. A valid batch is
/// carried out and passes the turn; any other batch changes nothing.
pub open spec fn turn_result(state: MatchView, batch: Seq<AgentMove>) -> MatchView {
    let roster = state.roster(state.current);
    if batch_valid(state.board, roster, batch) {
        MatchView {
            current: opposite(state.current),
            ..state.with_roster(state.current, roster_after(roster, batch))
        }
    } else {
        state
    }
}

/// A match on a board starts out well-formed.
pub proof fn lemma_fresh_match_wf(board: Seq<Seq<Square>>)
    requires
        grid_wf(board),
    ensures
        fresh_match(board).wf(),
{
}

/// Whatever is submitted, the match stays well-formed: the board and the
/// roster sizes never change, and no agent ever leaves the empty cells of the
/// board.
pub proof fn lemma_turn_keeps_wf(state: MatchView, batch: Seq<AgentMove>)
    requires
        state.wf(),
    ensures
        turn_result(state, batch).wf(),
        turn_result(state, batch).board == state.board,
        turn_result(state, batch).roster(opposite(state.current)) == state.roster(
            opposite(state.current),
        ),
{
}

/// The turn passes exactly when the batch is valid: a valid batch flips the
/// side to move, once, and any other batch leaves the whole match as it was.
pub proof fn lemma_turn_passes_iff_valid(state: MatchView, batch: Seq<AgentMove>)
    ensures
        batch_valid(state.board, state.roster(state.current), batch) ==> turn_result(
            state,
            batch,
        ).current == opposite(state.current),
        !batch_valid(state.board, state.roster(state.current), batch) ==> turn_result(state, batch)
            == state,
        opposite(opposite(state.current)) == state.current,
{
}

/// Every batch with a defect is invalid: one whose length differs from the
/// roster's, one in which two entries claim the same cell, and one in which
/// some entry orders a move off the board, onto a block or out of sight.
pub proof fn lemma_defective_batch_invalid(
    board: Seq<Seq<Square>>,
    roster: Seq<Agent>,
    batch: Seq<AgentMove>,
)
    ensures
        batch.len() != roster.len() ==> !batch_valid(board, roster, batch),
        shares_target(batch) ==> !batch_valid(board, roster, batch),
        forall|slot: int| #[trigger]
            target_refused(board, roster, batch, slot) ==> !batch_valid(board, roster, batch),
{
}

/// After a valid batch, two agents that were both ordered to move stand on
/// different cells.
pub proof fn lemma_movers_stand_apart(
    board: Seq<Seq<Square>>,
    roster: Seq<Agent>,
    batch: Seq<AgentMove>,
    i: int,
    j: int,
)
    requires
        batch_valid(board, roster, batch),
        0 <= i < j < batch.len(),
        batch[i] is MoveTo,
        batch[j] is MoveTo,
    ensures
        roster_after(roster, batch)[i].position != roster_after(roster, batch)[j].position,
{
}

/// What a submission led to.
#[derive(Debug, PartialEq, Eq)]
pub enum Outcome {
    /// The batch was invalid; nothing changed and the same side is to move.
    Rejected,
    /// The batch was carried out. Each side is shown the opposing agents it
    /// can see now.
    Accepted { seen_by_first: Vec<Cell>, seen_by_second: Vec<Cell> },
}

/// A match in progress.
pub struct Match {
    board: Board,
    first: Vec<Agent>,
    second: Vec<Agent>,
    current: Side,
}

impl View for Match {
    type V = MatchView;

    closed spec fn view(&self) -> MatchView {
        MatchView {
            board: self.board@,
            first: self.first@,
            second: self.second@,
            current: self.current,
        }
    }
}

impl Match {
    /// The invariant of every match handed out by this module.
    pub open spec fn wf(&self) -> bool {
        self@.wf()
    }

    /// Starts a match on `board`.
    pub fn new(board: Board) -> (game: Match)
        requires
            board.wf(),
        ensures
            game.wf(),
            game@ == fresh_match(board@),
    {
        proof {
            lemma_fresh_match_wf(board@);
        }
        Match {
            board,
            first: initial_roster(Side::First),
            second: initial_roster(Side::Second),
            current: Side::First,
        }
    }

    /// The side whose turn it is.
    pub fn current_side(&self) -> (side: Side)
        ensures
            side == self@.current,
    {
        self.current
    }

    /// The board of this match.
    pub fn board(&self) -> (board: &Board)
        ensures
            board@ == self@.board,
    {
        &self.board
    }

    /// The roster of `side` as it stands.
    pub fn roster(&self, side: Side) -> (roster: &Vec<Agent>)
        ensures
            roster@ == self@.roster(side),
    {
        match side {
            Side::First => &self.first,
            Side::Second => &self.second,
        }
    }

    /// What `side` is shown of the other side as the match stands.
    pub fn visible_to(&self, side: Side) -> (cells: Vec<Cell>)
        ensures
            cells@ == sightings(self@.roster(side), self@.roster(opposite(side))),
            cells@.no_duplicates(),
            forall|cell: Cell| #[trigger]
                cells@.contains(cell) <==> spotted(
                    self@.roster(side),
                    self@.roster(opposite(side)),
                    cell,
                ),
    {
        match side {
            Side::First => visible_opponents(&self.first, &self.second),
            Side::Second => visible_opponents(&self.second, &self.first),
        }
    }

    /// Takes the turn of `side`, which must be the side to move.
    ///
    /// A valid batch is carried out as a whole, the turn passes to the other
    /// side, and the outcome carries what each side sees afterwards. Any other
    /// batch is rejected and leaves the match untouched, so that the same side
    /// is to move again.
    pub fn submit(&mut self, side: Side, batch: &Vec<AgentMove>) -> (outcome: Outcome)
        requires
            old(self).wf(),
            side == old(self)@.current,
        ensures
            final(self).wf(),
            final(self)@ == turn_result(old(self)@, batch@),
            outcome is Accepted <==> batch_valid(
                old(self)@.board,
                old(self)@.roster(side),
                batch@,
            ),
            outcome is Rejected ==> final(self)@ == old(self)@,
            outcome is Accepted ==> final(self)@.current == opposite(side),
            outcome is Accepted ==> final(self)@.roster(side) == roster_after(
                old(self)@.roster(side),
                batch@,
            ),
            outcome matches Outcome::Accepted { seen_by_first, seen_by_second } ==> {
                &&& seen_by_first@ == sightings(final(self)@.first, final(self)@.second)
                &&& seen_by_second@ == sightings(final(self)@.second, final(self)@.first)
                &&& seen_by_first@.no_duplicates()
                &&& seen_by_second@.no_duplicates()
                &&& forall|cell: Cell| #[trigger]
                    seen_by_first@.contains(cell) <==> spotted(
                        final(self)@.first,
                        final(self)@.second,
                        cell,
                    )
                &&& forall|cell: Cell| #[trigger]
                    seen_by_second@.contains(cell) <==> spotted(
                        final(self)@.second,
                        final(self)@.first,
                        cell,
                    )
            },
            batch@.len() != old(self)@.roster(side).len() ==> outcome is Rejected,
            shares_target(batch@) ==> outcome is Rejected,
            forall|slot: int| #[trigger]
                target_refused(old(self)@.board, old(self)@.roster(side), batch@, slot)
                    ==> outcome is Rejected,
    {
        proof {
            lemma_turn_keeps_wf(self@, batch@);
            lemma_defective_batch_invalid(self@.board, self@.roster(side), batch@);
        }
        let valid = match side {
            Side::First => is_valid_batch(&self.board, &self.first, batch),
            Side::Second => is_valid_batch(&self.board, &self.second, batch),
        };
        if !valid {
            return Outcome::Rejected;
        }
        match side {
            Side::First => {
                self.first = apply_batch(&self.first, batch);
            },
            Side::Second => {
                self.second = apply_batch(&self.second, batch);
            },
        }
        self.current = side.opponent();
        let seen_by_first = visible_opponents(&self.first, &self.second);
        let seen_by_second = visible_opponents(&self.second, &self.first);
        Outcome::Accepted { seen_by_first, seen_by_second }
    }
}

} // verus!
