//! The stateless query the library answers: given a board representation
//! and a turn token, validate them, run the search, and render the board
//! after the optimal move.

use vstd::prelude::*;
use vstd::string::StrSliceExecFns;

use crate::board::Board;
use crate::board::Turn;
use crate::board::board_of_text;
use crate::board::text_of_board;
use crate::search::chosen_move;

verus! {

/// Why a request is rejected before it reaches the search.
#[derive(PartialEq, Eq, Structural, Clone, Copy, Debug)]
pub enum MoveError {
    /// The board representation does not denote exactly nine cells.
    InvalidBoard,
    /// The turn token names neither player.
    InvalidTurn,
}

/// The player a turn token names: `X`/`x` the first, `O`/`o` the second,
/// and anything else nobody.
pub open spec fn turn_of_text(s: Seq<char>) -> Option<Turn> {
    if s.len() != 1 {
        None
    } else if s[0] == 'X' || s[0] == 'x' {
        Some(Turn::X)
    } else if s[0] == 'O' || s[0] == 'o' {
        Some(Turn::O)
    } else {
        None
    }
}

impl Turn {
    /// The player a turn token names, if any; the mapping is
    /// case-insensitive.
    pub fn from_text(s: &str) -> (r: Option<Turn>)
        ensures
            r == turn_of_text(s@),
    {
        if s.unicode_len() != 1 {
            return None;
        }
        let c = s.get_char(0);
        if c == 'X' || c == 'x' {
            Some(Turn::X)
        } else if c == 'O' || c == 'o' {
            Some(Turn::O)
        } else {
            None
        }
    }
}

/// The answer to one request: parse the board and the turn, search, and
/// render the board after the optimal move. A board representation whose
/// length is not exactly nine characters is rejected first; then a turn
/// token naming neither player; every well-formed request succeeds.
pub fn best_move_for(board_text: &str, turn_text: &str) -> (r: Result<String, MoveError>)
    ensures
        board_text@.len() != 9 ==> r == Err::<String, MoveError>(MoveError::InvalidBoard),
        board_text@.len() == 9 && turn_of_text(turn_text@) is None ==> r == Err::<
            String,
            MoveError,
        >(MoveError::InvalidTurn),
        board_text@.len() == 9 && turn_of_text(turn_text@) is Some ==> {
            &&& r is Ok
            &&& r->Ok_0@ == text_of_board(
                chosen_move(board_of_text(board_text@), turn_of_text(turn_text@)->Some_0),
            )
        },
{
    if board_text.unicode_len() != 9 {
        return Err(MoveError::InvalidBoard);
    }
    let board = Board::from_string(board_text);
    let turn = match Turn::from_text(turn_text) {
        Some(t) => t,
        None => {
            return Err(MoveError::InvalidTurn);
        },
    };
    let best = board.minimax(&turn).unwrap();
    Ok(best.1.to_text())
}

} // verus!
