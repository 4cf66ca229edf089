//! The board model: cells, turns, outcomes, and outcome evaluation.

use vstd::prelude::*;
use vstd::string::StrSliceExecFns;
use vstd::string::StringExecFns;

verus! {

/// One cell of the grid: empty, or owned by one of the two players.
#[derive(PartialEq, Eq, Structural, Clone, Copy, Debug)]
pub enum Square {
    Empty,
    X,
    O,
}

/// Which player moves next.
#[derive(PartialEq, Eq, Structural, Clone, Copy, Debug)]
pub enum Turn {
    X,
    O,
}

/// The classification of a board: still open, won by a player, or tied.
#[derive(PartialEq, Eq, Structural, Clone, Copy, Debug)]
pub enum GameState {
    NotFinished,
    XHasWon,
    OHasWon,
    Tie,
}

/// A 3x3 grid, read left to right, top to bottom.
#[derive(Clone, Copy, Debug)]
pub struct Board {
    /// Reads like English, left to right, top to bottom.
    pub squares: [Square; 9],
}

impl View for Board {
    type V = Seq<Square>;

    open spec fn view(&self) -> Seq<Square> {
        self.squares@
    }
}

/// The marker that the player to move places on the board.
pub open spec fn mark_of(t: Turn) -> Square {
    match t {
        Turn::X => Square::X,
        Turn::O => Square::O,
    }
}

/// The outcome that declares `t` the winner.
pub open spec fn win_of(t: Turn) -> GameState {
    match t {
        Turn::X => GameState::XHasWon,
        Turn::O => GameState::OHasWon,
    }
}

/// Cells `a`, `m`, `c` form a line fully owned by `s`.
pub open spec fn line_owned(b: Seq<Square>, a: int, m: int, c: int, s: Square) -> bool {
    b[a] == s && b[m] == s && b[c] == s
}

/// Some row, column or diagonal is fully owned by `s`:
/// the three columns, the three rows, and the two diagonals.
pub open spec fn wins(b: Seq<Square>, s: Square) -> bool {
    ||| line_owned(b, 0, 3, 6, s)
    ||| line_owned(b, 1, 4, 7, s)
    ||| line_owned(b, 2, 5, 8, s)
    ||| line_owned(b, 0, 1, 2, s)
    ||| line_owned(b, 3, 4, 5, s)
    ||| line_owned(b, 6, 7, 8, s)
    ||| line_owned(b, 0, 4, 8, s)
    ||| line_owned(b, 2, 4, 6, s)
}

/// No cell is empty.
pub open spec fn is_full(b: Seq<Square>) -> bool {
    forall|i: int| 0 <= i < 9 ==> b[i] != Square::Empty
}

/// The outcome of a board: a fully owned line decides it, a full board
/// without one is a tie, and anything else is still open.
pub open spec fn score_of(b: Seq<Square>) -> GameState {
    if wins(b, Square::X) {
        GameState::XHasWon
    } else if wins(b, Square::O) {
        GameState::OHasWon
    } else if is_full(b) {
        GameState::Tie
    } else {
        GameState::NotFinished
    }
}

/// The cell a character of the external representation denotes: the two
/// player markers are recognized in either case, and any other character
/// stands for an empty cell.
pub open spec fn square_of_char(c: char) -> Square {
    if c == 'X' || c == 'x' {
        Square::X
    } else if c == 'O' || c == 'o' {
        Square::O
    } else {
        Square::Empty
    }
}

/// The board a nine-character representation denotes.
pub open spec fn board_of_text(s: Seq<char>) -> Seq<Square> {
    Seq::new(9, |i: int| square_of_char(s[i]))
}

/// The character that renders a cell: `-`, `X` or `O`.
pub open spec fn char_of_square(s: Square) -> char {
    match s {
        Square::Empty => '-',
        Square::X => 'X',
        Square::O => 'O',
    }
}

/// The nine-character rendering of a board.
pub open spec fn text_of_board(b: Seq<Square>) -> Seq<char> {
    Seq::new(b.len(), |i: int| char_of_square(b[i]))
}

/// The board with all nine cells empty.
pub open spec fn empty_board() -> Seq<Square> {
    Seq::new(9, |i: int| Square::Empty)
}

impl Turn {
    /// The other player.
    pub open spec fn spec_next(self) -> Turn {
        match self {
            Turn::X => Turn::O,
            Turn::O => Turn::X,
        }
    }

    /// The other player: turns alternate deterministically.
    pub fn next(&self) -> (r: Turn)
        ensures
            r == self.spec_next(),
    {
        match self {
            Turn::O => Turn::X,
            Turn::X => Turn::O,
        }
    }
}

impl Board {
    /// A fresh board with all nine cells empty.
    pub fn new() -> (b: Board)
        ensures
            b@ == empty_board(),
    {
        let b = Board { squares: [Square::Empty; 9] };
        proof {
            assert(b@ =~= empty_board());
        }
        b
    }

    /// A board holding exactly the given cells.
    pub fn from_squares(squares: [Square; 9]) -> (b: Board)
        ensures
            b@ == squares@,
    {
        Board { squares }
    }

    /// The board a nine-character representation denotes: `X`/`x` and
    /// `O`/`o` mark the players' cells and every other character an empty
    /// one, so a representation of the right length always parses.
    pub fn from_string(s: &str) -> (b: Board)
        requires
            s@.len() == 9,
        ensures
            b@ == board_of_text(s@),
    {
        let mut squares = [Square::Empty; 9];
        let mut i: usize = 0;
        while i < 9
            invariant
                i <= 9,
                s@.len() == 9,
                forall|j: int| 0 <= j < i ==> squares@[j] == square_of_char(s@[j]),
            decreases 9 - i,
        {
            let c = s.get_char(i);
            let cell = if c == 'X' || c == 'x' {
                Square::X
            } else if c == 'O' || c == 'o' {
                Square::O
            } else {
                Square::Empty
            };
            squares[i] = cell;
            i = i + 1;
        }
        let b = Board { squares };
        proof {
            assert(b@ =~= board_of_text(s@));
        }
        b
    }

    /// The nine-character rendering of this board, the inverse of the
    /// representation mapping: empty cells as `-`, the players' cells as
    /// `X` and `O`.
    pub fn to_text(&self) -> (r: String)
        ensures
            r@ == text_of_board(self@),
    {
        let mut r = String::new();
        let mut i: usize = 0;
        proof {
            reveal_strlit("-");
            reveal_strlit("X");
            reveal_strlit("O");
            assert(r@ =~= text_of_board(self@).take(0));
        }
        while i < 9
            invariant
                i <= 9,
                r@ == text_of_board(self@).take(i as int),
            decreases 9 - i,
        {
            let piece = match self.squares[i] {
                Square::Empty => "-",
                Square::X => "X",
                Square::O => "O",
            };
            r.append(piece);
            proof {
                reveal_strlit("-");
                reveal_strlit("X");
                reveal_strlit("O");
                assert(r@ =~= text_of_board(self@).take(i + 1));
            }
            i = i + 1;
        }
        proof {
            assert(text_of_board(self@).take(9) =~= text_of_board(self@));
        }
        r
    }

    /// Whether `s` fully owns some row, column or diagonal.
    fn has_line(&self, s: Square) -> (r: bool)
        ensures
            r == wins(self@, s),
    {
        let q = &self.squares;
        (q[0] == s && q[3] == s && q[6] == s)
            || (q[1] == s && q[4] == s && q[7] == s)
            || (q[2] == s && q[5] == s && q[8] == s)
            || (q[0] == s && q[1] == s && q[2] == s)
            || (q[3] == s && q[4] == s && q[5] == s)
            || (q[6] == s && q[7] == s && q[8] == s)
            || (q[0] == s && q[4] == s && q[8] == s)
            || (q[2] == s && q[4] == s && q[6] == s)
    }

    /// Whether any cell is still empty.
    fn has_empty_cell(&self) -> (r: bool)
        ensures
            r == !is_full(self@),
    {
        let mut i: usize = 0;
        while i < 9
            invariant
                i <= 9,
                forall|j: int| 0 <= j < i ==> self@[j] != Square::Empty,
            decreases 9 - i,
        {
            if self.squares[i] == Square::Empty {
                return true;
            }
            i = i + 1;
        }
        false
    }

    /// The outcome of this board, scanning all eight lines before
    /// concluding that nobody has won.
    pub fn score(&self) -> (r: GameState)
        ensures
            r == score_of(self@),
    {
        if self.has_line(Square::X) {
            GameState::XHasWon
        } else if self.has_line(Square::O) {
            GameState::OHasWon
        } else if self.has_empty_cell() {
            GameState::NotFinished
        } else {
            GameState::Tie
        }
    }
}

/// A board with no fully owned line and at least one empty cell is still open.
pub proof fn lemma_open_board_not_finished(b: Seq<Square>)
    requires
        b.len() == 9,
        !wins(b, Square::X),
        !wins(b, Square::O),
        exists|i: int| 0 <= i < 9 && b[i] == Square::Empty,
    ensures
        score_of(b) == GameState::NotFinished,
{
    let i = choose|i: int| 0 <= i < 9 && b[i] == Square::Empty;
    assert(!is_full(b));
}

/// A fully owned line decides the game for its owner, whatever the rest of
/// the board holds, as long as the opponent owns no line of their own.
pub proof fn lemma_line_decides(b: Seq<Square>, t: Turn)
    requires
        b.len() == 9,
        wins(b, mark_of(t)),
        !wins(b, mark_of(t.spec_next())),
    ensures
        score_of(b) == win_of(t),
{
}

/// A full board without a winning line is a tie.
pub proof fn lemma_full_board_ties(b: Seq<Square>)
    requires
        b.len() == 9,
        is_full(b),
        !wins(b, Square::X),
        !wins(b, Square::O),
    ensures
        score_of(b) == GameState::Tie,
{
}

/// Evaluation is a pure function of the cells: boards with equal cells score
/// equally, so re-evaluating a board can never change its outcome.
pub proof fn lemma_score_stable(b1: Seq<Square>, b2: Seq<Square>)
    requires
        b1 == b2,
    ensures
        score_of(b1) == score_of(b2),
{
}

} // verus!
