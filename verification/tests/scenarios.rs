use tictactoe::board::Board;
use tictactoe::board::GameState;
use tictactoe::board::Square;
use tictactoe::board::Turn;

#[test]
fn empty_board_is_a_forced_draw() {
    let board = Board::new();
    assert_eq!(board.minimax(&Turn::X).unwrap().0, GameState::Tie);
}

#[test]
fn x_forces_a_win_from_two_in_a_column() {
    let board = Board::from_string("X--XO----");
    assert_eq!(board.minimax(&Turn::X).unwrap().0, GameState::XHasWon);
}

#[test]
fn o_forces_a_win() {
    let board = Board::from_string("X-OX--O-X");
    assert_eq!(board.minimax(&Turn::O).unwrap().0, GameState::OHasWon);
}

#[test]
fn full_board_without_a_line_is_a_tie() {
    let board = Board::from_string("XOXXOOOXX");
    assert_eq!(board.score(), GameState::Tie);
}

#[test]
fn scoring_twice_gives_the_same_outcome() {
    let board = Board::from_string("X-OX--O-X");
    assert_eq!(board.score(), board.score());
    let open = Board::from_string("X--XO----");
    assert_eq!(open.score(), open.score());
}

#[test]
fn immediate_win_is_taken() {
    let board = Board::from_string("XX-OO----");
    let (outcome, best) = board.minimax(&Turn::X).unwrap();
    assert_eq!(outcome, GameState::XHasWon);
    assert_eq!(best.to_text(), "XXXOO----");
}

#[test]
fn tied_moves_pick_the_lowest_cell_index() {
    // Both empty cells (6 and 8) lose for O: either way X completes a
    // diagonal on the next move. The search must keep the first of the two.
    let board = Board::from_string("XOXXXO-O-");
    let (outcome, best) = board.minimax(&Turn::O).unwrap();
    assert_eq!(outcome, GameState::XHasWon);
    assert_eq!(best.to_text(), "XOXXXOOO-");
}

#[test]
fn terminal_board_is_its_own_best_move() {
    let board = Board::from_string("XXXOO----");
    let (outcome, best) = board.minimax(&Turn::O).unwrap();
    assert_eq!(outcome, GameState::XHasWon);
    assert_eq!(best.to_text(), "XXXOO----");
}

#[test]
fn winning_column_decides_regardless_of_the_rest() {
    let board = Board::from_squares([
        Square::O,
        Square::X,
        Square::Empty,
        Square::O,
        Square::X,
        Square::Empty,
        Square::O,
        Square::Empty,
        Square::X,
    ]);
    assert_eq!(board.score(), GameState::OHasWon);
}

#[test]
fn winning_diagonal_decides() {
    let board = Board::from_string("X-O-X-O-X");
    assert_eq!(board.score(), GameState::XHasWon);
}

#[test]
fn open_board_with_no_line_is_not_finished() {
    let board = Board::from_string("XOXOXO---");
    assert_eq!(board.score(), GameState::NotFinished);
}

#[test]
fn available_moves_fill_each_empty_cell_in_order() {
    let board = Board::from_string("X-O------");
    let moves = board.get_available_moves(&Turn::X);
    assert_eq!(moves.len(), 7);
    assert_eq!(moves[0].to_text(), "XXO------");
    assert_eq!(moves[1].to_text(), "X-OX-----");
    assert_eq!(moves[6].to_text(), "X-O-----X");
    let full = Board::from_string("XOXXOOOXX");
    assert_eq!(full.get_available_moves(&Turn::O).len(), 0);
    assert_eq!(Board::new().get_available_moves(&Turn::O).len(), 9);
}

#[test]
fn turns_alternate() {
    assert_eq!(Turn::X.next(), Turn::O);
    assert_eq!(Turn::O.next(), Turn::X);
    assert_eq!(Turn::X.next().next(), Turn::X);
}
