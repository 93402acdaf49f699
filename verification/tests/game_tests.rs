use tic_rust_toe::board::BoardPosition;
use tic_rust_toe::board::FieldValue;
use tic_rust_toe::game::Game;

#[test]
fn can_retrieve_current_player_mark() {
    let game = Game::new(5, 3);

    assert!(game.get_player_mark() == FieldValue::Xmark);
}

#[test]
fn game_can_be_won_on_a_diagonal() {
    let mut game = Game::new(5, 3);

    assert_eq!(game.conquer_field(&BoardPosition { x: 0, y: 0 }), Ok(false)); // X
    assert_eq!(game.conquer_field(&BoardPosition { x: 1, y: 0 }), Ok(false)); // O
    assert_eq!(game.conquer_field(&BoardPosition { x: 1, y: 1 }), Ok(false)); // X
    assert_eq!(game.conquer_field(&BoardPosition { x: 0, y: 1 }), Ok(false)); // O
    let game_won = game.conquer_field(&BoardPosition { x: 2, y: 2 }).unwrap(); // X

    assert!(game_won);
}

#[test]
fn single_direction_run_wins() {
    let mut game = Game::new(5, 3);

    game.conquer_field(&BoardPosition { x: 0, y: 0 }).unwrap(); // X
    game.conquer_field(&BoardPosition { x: 0, y: 4 }).unwrap(); // O
    game.conquer_field(&BoardPosition { x: 1, y: 0 }).unwrap(); // X
    game.conquer_field(&BoardPosition { x: 1, y: 4 }).unwrap(); // O
    // The scan westward from the new mark sees the two crosses in a row.
    assert_eq!(game.conquer_field(&BoardPosition { x: 2, y: 0 }), Ok(true)); // X
}

#[test]
fn split_run_is_not_combined_across_opposite_directions() {
    let mut game = Game::new(5, 3);

    game.conquer_field(&BoardPosition { x: 1, y: 0 }).unwrap(); // X
    game.conquer_field(&BoardPosition { x: 0, y: 4 }).unwrap(); // O
    game.conquer_field(&BoardPosition { x: 3, y: 0 }).unwrap(); // X
    game.conquer_field(&BoardPosition { x: 1, y: 4 }).unwrap(); // O

    // Connecting the two crosses: each single direction sees a run of two,
    // and runs on opposite sides of the new mark are never added together.
    assert_eq!(game.conquer_field(&BoardPosition { x: 2, y: 0 }), Ok(false)); // X
}

#[test]
fn current_mark_alternates_after_each_move() {
    let mut game = Game::new(5, 3);

    assert_eq!(game.get_player_mark(), FieldValue::Xmark);
    game.conquer_field(&BoardPosition { x: 0, y: 0 }).unwrap();
    assert_eq!(game.get_player_mark(), FieldValue::Circle);
    game.conquer_field(&BoardPosition { x: 1, y: 0 }).unwrap();
    assert_eq!(game.get_player_mark(), FieldValue::Xmark);
    game.conquer_field(&BoardPosition { x: 0, y: 1 }).unwrap();
    assert_eq!(game.get_player_mark(), FieldValue::Circle);
    game.conquer_field(&BoardPosition { x: 1, y: 1 }).unwrap();
    assert_eq!(game.get_player_mark(), FieldValue::Xmark);
}

#[test]
fn turn_advances_even_on_a_rejected_move() {
    let mut game = Game::new(5, 3);

    assert_eq!(game.get_player_mark(), FieldValue::Xmark);
    assert_eq!(game.conquer_field(&BoardPosition { x: 9, y: 0 }), Err(()));
    assert_eq!(game.get_player_mark(), FieldValue::Circle);
    assert_eq!(game.get_field(&BoardPosition { x: 0, y: 0 }), Ok(FieldValue::Nothing));
}

#[test]
fn occupied_cell_is_silently_overwritten() {
    let mut game = Game::new(5, 3);

    game.conquer_field(&BoardPosition { x: 2, y: 2 }).unwrap(); // X
    game.conquer_field(&BoardPosition { x: 2, y: 2 }).unwrap(); // O overwrites

    assert_eq!(game.get_field(&BoardPosition { x: 2, y: 2 }), Ok(FieldValue::Circle));
}

#[test]
fn target_of_one_wins_on_the_first_move() {
    let mut game = Game::new(3, 1);

    assert_eq!(game.conquer_field(&BoardPosition { x: 1, y: 1 }), Ok(true));
}

#[test]
fn diagonal_toward_south_east_is_scanned() {
    let mut game = Game::new(5, 3);

    game.conquer_field(&BoardPosition { x: 2, y: 2 }).unwrap(); // X
    game.conquer_field(&BoardPosition { x: 0, y: 4 }).unwrap(); // O
    game.conquer_field(&BoardPosition { x: 3, y: 3 }).unwrap(); // X
    game.conquer_field(&BoardPosition { x: 1, y: 4 }).unwrap(); // O

    // The scan toward the lower right from (1, 1) runs through (2, 2) and (3, 3).
    assert_eq!(game.conquer_field(&BoardPosition { x: 1, y: 1 }), Ok(true)); // X
}

#[test]
fn game_reports_its_board_size() {
    let game = Game::new(7, 4);

    assert_eq!(game.get_board_size(), 7);
    assert_eq!(game.get_field(&BoardPosition { x: 7, y: 0 }), Err(()));
    assert_eq!(game.get_field(&BoardPosition { x: 6, y: 6 }), Ok(FieldValue::Nothing));
}
