use tictactoe::api::best_move_for;
use tictactoe::api::MoveError;
use tictactoe::board::Board;
use tictactoe::board::GameState;
use tictactoe::board::Turn;

#[test]
fn unrecognized_characters_parse_as_empty_cells() {
    let board = Board::from_string("a-XxOoZ9!");
    assert_eq!(board.to_text(), "--XXOO---");
    assert_eq!(board.score(), GameState::NotFinished);
}

#[test]
fn rendering_inverts_the_representation_mapping() {
    assert_eq!(Board::new().to_text(), "---------");
    assert_eq!(Board::from_string("XOXXOOOXX").to_text(), "XOXXOOOXX");
    assert_eq!(Board::from_string("x-o-X-O--").to_text(), "X-O-X-O--");
}

#[test]
fn turn_tokens_map_case_insensitively() {
    assert_eq!(Turn::from_text("X"), Some(Turn::X));
    assert_eq!(Turn::from_text("x"), Some(Turn::X));
    assert_eq!(Turn::from_text("O"), Some(Turn::O));
    assert_eq!(Turn::from_text("o"), Some(Turn::O));
    assert_eq!(Turn::from_text("Q"), None);
    assert_eq!(Turn::from_text(""), None);
    assert_eq!(Turn::from_text("XX"), None);
}

#[test]
fn wrong_board_length_is_rejected() {
    assert_eq!(best_move_for("XXXX", "X"), Err(MoveError::InvalidBoard));
    assert_eq!(best_move_for("", "X"), Err(MoveError::InvalidBoard));
    assert_eq!(
        best_move_for("----------", "X"),
        Err(MoveError::InvalidBoard)
    );
}

#[test]
fn unknown_turn_token_is_rejected() {
    assert_eq!(best_move_for("---------", "Q"), Err(MoveError::InvalidTurn));
    assert_eq!(best_move_for("---------", ""), Err(MoveError::InvalidTurn));
    assert_eq!(
        best_move_for("---------", "xx"),
        Err(MoveError::InvalidTurn)
    );
}

#[test]
fn board_length_is_checked_before_the_turn_token() {
    assert_eq!(best_move_for("--", "Q"), Err(MoveError::InvalidBoard));
}

#[test]
fn a_well_formed_request_succeeds() {
    assert_eq!(
        best_move_for("XX-OO----", "x").unwrap(),
        "XXXOO----".to_string()
    );
    assert_eq!(
        best_move_for("XOXXXO-O-", "O").unwrap(),
        "XOXXXOOO-".to_string()
    );
    let answer = best_move_for("---------", "X").unwrap();
    assert_eq!(answer.len(), 9);
    assert_eq!(answer.matches('X').count(), 1);
    assert_eq!(answer.matches('-').count(), 8);
}

#[test]
fn a_terminal_board_is_returned_unchanged() {
    assert_eq!(
        best_move_for("XXXOO----", "O").unwrap(),
        "XXXOO----".to_string()
    );
}
