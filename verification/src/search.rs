//! The search engine: exhaustive minimax over the game tree.
//!
//! The first player maximizes and the second player minimizes over the
//! total order `OHasWon < Tie < XHasWon`; among equally good moves the one
//! at the lowest cell index is kept.

use vstd::prelude::*;

use crate::board::Board;
use crate::board::GameState;
use crate::board::Square;
use crate::board::Turn;
use crate::board::is_full;
use crate::board::mark_of;
use crate::board::score_of;

verus! {

/// How favorable an outcome is to the first player; the second player
/// prefers the reverse order. An open game never stands as a leaf value,
/// so its place in the order is never consulted.
impl GameState {
    pub open spec fn rank(self) -> int {
        match self {
            GameState::OHasWon => 0,
            GameState::NotFinished => 1,
            GameState::Tie => 2,
            GameState::XHasWon => 3,
        }
    }

    /// Whether `self` is a strictly better outcome than `other` for the
    /// player to move: the first player maximizes, the second minimizes.
    pub fn is_better_for(&self, other: &GameState, turn: &Turn) -> (r: bool)
        ensures
            r == prefers(*turn, *self, *other),
    {
        match turn {
            Turn::X => self.rank_value() > other.rank_value(),
            Turn::O => self.rank_value() < other.rank_value(),
        }
    }

    fn rank_value(&self) -> (r: u8)
        ensures
            r as int == self.rank(),
    {
        match self {
            GameState::OHasWon => 0,
            GameState::NotFinished => 1,
            GameState::Tie => 2,
            GameState::XHasWon => 3,
        }
    }
}

/// Outcome `a` is strictly better than `b` for the player `t` to move.
pub open spec fn prefers(t: Turn, a: GameState, b: GameState) -> bool {
    match t {
        Turn::X => a.rank() > b.rank(),
        Turn::O => a.rank() < b.rank(),
    }
}

/// How many cells at indices `i` and above are empty.
pub open spec fn empties_from(b: Seq<Square>, i: int) -> nat
    decreases 9 - i,
{
    if i < 0 || i >= 9 {
        0
    } else {
        (if b[i] == Square::Empty {
            1nat
        } else {
            0nat
        }) + empties_from(b, i + 1)
    }
}

/// How many cells of the board are empty.
pub open spec fn empty_cells(b: Seq<Square>) -> nat {
    empties_from(b, 0)
}

/// Filling an empty cell lowers the count of empty cells at or after `i`
/// exactly when that cell lies at or after `i`.
proof fn lemma_empties_update(b: Seq<Square>, j: int, m: Square, i: int)
    requires
        b.len() == 9,
        0 <= j < 9,
        b[j] == Square::Empty,
        m != Square::Empty,
        0 <= i <= 9,
    ensures
        empties_from(b.update(j, m), i) == if i <= j {
            empties_from(b, i) - 1
        } else {
            empties_from(b, i) as int
        },
    decreases 9 - i,
{
    if i < 9 {
        lemma_empties_update(b, j, m, i + 1);
    }
}

/// The outcome of the game from board `b` with `t` to move, under optimal
/// play by both sides: a decided board is its own value, and an open board
/// takes the value of the child most favorable to the player to move.
pub open spec fn minimax_value(b: Seq<Square>, t: Turn) -> GameState
    decreases empty_cells(b), 10int,
{
    if score_of(b) != GameState::NotFinished {
        score_of(b)
    } else {
        match search_from(b, t, 0, None) {
            Some(best) => best.0,
            None => GameState::NotFinished,
        }
    }
}

/// The running best (outcome, cell index) after folding the children of `b`
/// at cell indices below `i` into `acc`, continued over the cells at `i` and
/// above. A later child replaces the incumbent only when its outcome is
/// strictly better for `t`, so the first child reaching the best outcome is
/// the one kept.
pub open spec fn search_from(
    b: Seq<Square>,
    t: Turn,
    i: int,
    acc: Option<(GameState, int)>,
) -> Option<(GameState, int)>
    decreases empty_cells(b), 9 - i,
        via search_from_decreases
{
    if i < 0 || i >= 9 || b.len() != 9 {
        acc
    } else {
        let folded = if b[i] == Square::Empty {
            let value = minimax_value(b.update(i, mark_of(t)), t.spec_next());
            match acc {
                None => Some((value, i)),
                Some(best) => if prefers(t, value, best.0) {
                    Some((value, i))
                } else {
                    acc
                },
            }
        } else {
            acc
        };
        search_from(b, t, i + 1, folded)
    }
}

#[via_fn]
proof fn search_from_decreases(b: Seq<Square>, t: Turn, i: int, acc: Option<(GameState, int)>) {
    if 0 <= i < 9 && b.len() == 9 && b[i] == Square::Empty {
        lemma_empties_update(b, i, mark_of(t), 0);
    }
}

/// The board after the optimal move of `t` on `b`: a decided board stays as
/// it is, and on an open board the chosen cell takes `t`'s marker.
pub open spec fn chosen_move(b: Seq<Square>, t: Turn) -> Seq<Square> {
    if score_of(b) != GameState::NotFinished {
        b
    } else {
        match search_from(b, t, 0, None) {
            Some(best) => b.update(best.1, mark_of(t)),
            None => b,
        }
    }
}

/// What the fold accumulator holds after the children of `b` at cell
/// indices below `i` have been folded: nothing when no cell below `i` is
/// empty, and otherwise the outcome and index of the first child whose
/// outcome no other child below `i` beats.
spec fn folded_best(b: Seq<Square>, t: Turn, i: int, acc: Option<(GameState, int)>) -> bool {
    match acc {
        None => forall|k: int| 0 <= k < i ==> b[k] != Square::Empty,
        Some(best) => {
            &&& 0 <= best.1 < i
            &&& b[best.1] == Square::Empty
            &&& best.0 == minimax_value(b.update(best.1, mark_of(t)), t.spec_next())
            &&& forall|k: int|
                0 <= k < best.1 && b[k] == Square::Empty ==> prefers(
                    t,
                    best.0,
                    minimax_value(b.update(k, mark_of(t)), t.spec_next()),
                )
            &&& forall|k: int|
                0 <= k < i && b[k] == Square::Empty ==> !prefers(
                    t,
                    minimax_value(b.update(k, mark_of(t)), t.spec_next()),
                    best.0,
                )
        },
    }
}

/// Folding the remaining children onto an accumulator that correctly
/// summarizes the children already seen yields a correct summary of all
/// nine cells, and yields one at all exactly when there is something to
/// summarize.
proof fn lemma_search_from_props(b: Seq<Square>, t: Turn, i: int, acc: Option<(GameState, int)>)
    requires
        b.len() == 9,
        0 <= i <= 9,
        folded_best(b, t, i, acc),
    ensures
        folded_best(b, t, 9, search_from(b, t, i, acc)),
        search_from(b, t, i, acc) is Some <==> (acc is Some || exists|k: int|
            i <= k < 9 && b[k] == Square::Empty),
    decreases 9 - i,
{
    if i < 9 {
        let folded = if b[i] == Square::Empty {
            let value = minimax_value(b.update(i, mark_of(t)), t.spec_next());
            match acc {
                None => Some((value, i)),
                Some(best) => if prefers(t, value, best.0) {
                    Some((value, i))
                } else {
                    acc
                },
            }
        } else {
            acc
        };
        assert(folded_best(b, t, i + 1, folded));
        lemma_search_from_props(b, t, i + 1, folded);
        if b[i] == Square::Empty {
            assert(i <= i < 9 && b[i] == Square::Empty);
        }
    }
}

/// Optimal play and stable selection: on an open board the search settles
/// on an empty cell whose child has the optimal outcome; no child beats
/// that outcome, and every tied child lies at a higher cell index, so the
/// lowest-indexed child achieving the optimal outcome is the one chosen.
pub proof fn lemma_best_move_stable(b: Seq<Square>, t: Turn)
    requires
        b.len() == 9,
        score_of(b) == GameState::NotFinished,
    ensures
        search_from(b, t, 0, None) is Some,
        ({
            let best = search_from(b, t, 0, None)->Some_0;
            &&& 0 <= best.1 < 9
            &&& b[best.1] == Square::Empty
            &&& best.0 == minimax_value(b, t)
            &&& best.0 == minimax_value(b.update(best.1, mark_of(t)), t.spec_next())
            &&& forall|k: int|
                0 <= k < 9 && b[k] == Square::Empty ==> !prefers(
                    t,
                    minimax_value(b.update(k, mark_of(t)), t.spec_next()),
                    best.0,
                )
            &&& forall|k: int|
                0 <= k < best.1 && b[k] == Square::Empty ==> prefers(
                    t,
                    best.0,
                    minimax_value(b.update(k, mark_of(t)), t.spec_next()),
                )
        }),
{
    lemma_search_from_props(b, t, 0, None);
    assert(!is_full(b));
    assert(exists|k: int| 0 <= k < 9 && b[k] == Square::Empty);
}

/// The search always settles the game: the optimal-play outcome of a board
/// is never the open classification. An open board always has an empty cell
/// to expand, and a full board without a winner evaluates to a tie, so an
/// open outcome can never stand as a leaf value.
pub proof fn lemma_minimax_settles(b: Seq<Square>, t: Turn)
    requires
        b.len() == 9,
    ensures
        minimax_value(b, t) != GameState::NotFinished,
    decreases empty_cells(b),
{
    if score_of(b) == GameState::NotFinished {
        lemma_best_move_stable(b, t);
        let best = search_from(b, t, 0, None)->Some_0;
        lemma_empties_update(b, best.1, mark_of(t), 0);
        lemma_minimax_settles(b.update(best.1, mark_of(t)), t.spec_next());
    }
}

/// The legal children of `b` for the player `t`, in cell-index order: one
/// board per empty cell at index `i` or above, with that cell filled.
pub open spec fn moves_from(b: Seq<Square>, t: Turn, i: int) -> Seq<Seq<Square>>
    decreases 9 - i,
{
    if i < 0 || i >= 9 {
        Seq::empty()
    } else if b[i] == Square::Empty {
        seq![b.update(i, mark_of(t))] + moves_from(b, t, i + 1)
    } else {
        moves_from(b, t, i + 1)
    }
}

impl Board {
    /// A copy of this board with `t`'s marker placed on cell `i`.
    fn with_move(&self, i: usize, turn: &Turn) -> (child: Board)
        requires
            i < 9,
        ensures
            child@ == self@.update(i as int, mark_of(*turn)),
    {
        let mut squares = self.squares;
        let m = match turn {
            Turn::X => Square::X,
            Turn::O => Square::O,
        };
        squares[i] = m;
        Board { squares }
    }

    /// Every board reachable from this one by a single move of `turn`:
    /// one child per empty cell, in cell-index order.
    pub fn get_available_moves(&self, turn: &Turn) -> (moves: Vec<Board>)
        ensures
            moves@.map_values(|child: Board| child@) == moves_from(self@, *turn, 0),
    {
        let mut moves: Vec<Board> = Vec::new();
        let mut i: usize = 0;
        while i < 9
            invariant
                i <= 9,
                moves@.map_values(|child: Board| child@) + moves_from(self@, *turn, i as int)
                    == moves_from(self@, *turn, 0),
            decreases 9 - i,
        {
            let ghost before = moves@.map_values(|child: Board| child@);
            if self.squares[i] == Square::Empty {
                let child = self.with_move(i, turn);
                moves.push(child);
                proof {
                    assert(moves@.map_values(|child: Board| child@) =~= before + seq![
                        self@.update(i as int, mark_of(*turn)),
                    ]);
                    assert(before + seq![self@.update(i as int, mark_of(*turn))] + moves_from(
                        self@,
                        *turn,
                        i + 1,
                    ) =~= before + (seq![self@.update(i as int, mark_of(*turn))] + moves_from(
                        self@,
                        *turn,
                        i + 1,
                    )));
                }
            }
            i = i + 1;
        }
        moves
    }

    /// The optimal move of `turn` on this board: the outcome the game takes
    /// under optimal play by both sides, and the board after the move that
    /// achieves it. A decided board is returned as it is; on an open board
    /// the first empty cell (in index order) reaching the optimal outcome
    /// receives the marker. Some board is always returned.
    pub fn minimax(&self, turn: &Turn) -> (r: Option<(GameState, Board)>)
        ensures
            r is Some,
            r->Some_0.0 == minimax_value(self@, *turn),
            r->Some_0.0 != GameState::NotFinished,
            r->Some_0.1@ == chosen_move(self@, *turn),
        decreases empty_cells(self@),
    {
        match self.score() {
            GameState::OHasWon => Some((GameState::OHasWon, *self)),
            GameState::XHasWon => Some((GameState::XHasWon, *self)),
            GameState::Tie => Some((GameState::Tie, *self)),
            GameState::NotFinished => {
                let mut best: Option<(GameState, Board)> = None;
                let ghost mut folded: Option<(GameState, int)> = None;
                let mut i: usize = 0;
                while i < 9
                    invariant
                        i <= 9,
                        self@.len() == 9,
                        score_of(self@) == GameState::NotFinished,
                        search_from(self@, *turn, i as int, folded) == search_from(
                            self@,
                            *turn,
                            0,
                            None,
                        ),
                        match best {
                            None => folded is None,
                            Some(pair) => {
                                &&& folded is Some
                                &&& pair.0 == folded->Some_0.0
                                &&& 0 <= folded->Some_0.1 < i
                                &&& pair.1@ == self@.update(folded->Some_0.1, mark_of(*turn))
                            },
                        },
                    decreases 9 - i,
                {
                    if self.squares[i] == Square::Empty {
                        let child = self.with_move(i, turn);
                        proof {
                            lemma_empties_update(self@, i as int, mark_of(*turn), 0);
                        }
                        let outcome = child.minimax(&turn.next()).unwrap().0;
                        let replace = match &best {
                            None => true,
                            Some(pair) => outcome.is_better_for(&pair.0, turn),
                        };
                        if replace {
                            best = Some((outcome, child));
                            proof {
                                folded = Some((outcome, i as int));
                            }
                        }
                    }
                    i = i + 1;
                }
                proof {
                    lemma_best_move_stable(self@, *turn);
                    lemma_minimax_settles(self@, *turn);
                }
                best
            },
        }
    }
}

} // verus!
