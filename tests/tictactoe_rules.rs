use tictactoe::board::{Piece, TicTacToe, BOARD_SIZE};
use tictactoe::game::{GameOutcome, MoveError, TicTacToeMove};
use tictactoe::player::PlayerKey;

fn key(tag: u8) -> PlayerKey {
    PlayerKey::new(vec![tag; 39])
}

fn players() -> Vec<PlayerKey> {
    vec![key(0xA), key(0xB)]
}

fn place(game: &mut TicTacToe, author: u8, x: usize, y: usize) -> Result<(), MoveError> {
    game.apply_move(TicTacToeMove::Place(Piece { x, y }), key(author), players())
}

fn winner_of(outcome: &GameOutcome) -> Option<Vec<u8>> {
    match outcome {
        GameOutcome::Ongoing => None,
        GameOutcome::Finished(w) => Some(w.0.bytes.clone()),
    }
}

fn cells(pieces: &[Piece]) -> Vec<(usize, usize)> {
    pieces.iter().map(|p| (p.x, p.y)).collect()
}

#[test]
fn player_bounds_are_two() {
    assert_eq!(TicTacToe::min_players(), Some(2));
    assert_eq!(TicTacToe::max_players(), Some(2));
    assert_eq!(BOARD_SIZE, 3);
}

#[test]
fn initial_state_is_empty() {
    let game = TicTacToe::initial(&players());
    assert!(game.player_1.is_empty());
    assert!(game.player_2.is_empty());
    assert!(game.player_resigned.is_none());
    assert_eq!(winner_of(&game.outcome(players())), None);
}

#[test]
fn column_of_first_player_wins() {
    let mut game = TicTacToe::initial(&players());
    assert_eq!(place(&mut game, 0xA, 0, 0), Ok(()));
    assert_eq!(place(&mut game, 0xB, 1, 1), Ok(()));
    assert_eq!(place(&mut game, 0xA, 0, 1), Ok(()));
    assert_eq!(place(&mut game, 0xB, 2, 2), Ok(()));
    assert_eq!(winner_of(&game.outcome(players())), None);
    assert_eq!(place(&mut game, 0xA, 0, 2), Ok(()));
    assert_eq!(cells(&game.player_1), vec![(0, 0), (0, 1), (0, 2)]);
    assert_eq!(cells(&game.player_2), vec![(1, 1), (2, 2)]);
    assert_eq!(winner_of(&game.outcome(players())), Some(vec![0xA; 39]));
}

#[test]
fn placing_twice_on_one_cell_is_occupied() {
    let mut game = TicTacToe::initial(&players());
    assert_eq!(place(&mut game, 0xA, 0, 0), Ok(()));
    assert_eq!(place(&mut game, 0xA, 0, 0), Err(MoveError::Occupied));
    assert_eq!(cells(&game.player_1), vec![(0, 0)]);
    assert!(game.player_2.is_empty());
}

#[test]
fn placing_on_the_other_players_cell_is_occupied() {
    let mut game = TicTacToe::initial(&players());
    assert_eq!(place(&mut game, 0xA, 2, 1), Ok(()));
    assert_eq!(place(&mut game, 0xB, 2, 1), Err(MoveError::Occupied));
    assert_eq!(cells(&game.player_1), vec![(2, 1)]);
    assert!(game.player_2.is_empty());
}

#[test]
fn placing_off_the_board_is_out_of_bounds() {
    let mut game = TicTacToe::initial(&players());
    assert_eq!(place(&mut game, 0xA, 5, 0), Err(MoveError::OutOfBounds));
    assert!(game.player_1.is_empty());
    assert!(game.player_2.is_empty());
    assert!(game.player_resigned.is_none());
}

#[test]
fn out_of_bounds_edges() {
    let mut game = TicTacToe::initial(&players());
    assert_eq!(place(&mut game, 0xA, 3, 0), Err(MoveError::OutOfBounds));
    assert_eq!(place(&mut game, 0xA, 0, 3), Err(MoveError::OutOfBounds));
    assert_eq!(place(&mut game, 0xA, usize::MAX, usize::MAX), Err(MoveError::OutOfBounds));
    assert_eq!(place(&mut game, 0xA, 2, 2), Ok(()));
    assert_eq!(cells(&game.player_1), vec![(2, 2)]);
}

#[test]
fn bounds_are_checked_before_occupancy() {
    let piece = Piece { x: 4, y: 1 };
    assert_eq!(piece.is_in_bounds(), Err(MoveError::OutOfBounds));
    let inside = Piece { x: 1, y: 2 };
    assert_eq!(inside.is_in_bounds(), Ok(()));
    let mut game = TicTacToe::initial(&players());
    assert_eq!(inside.is_empty(&game), Ok(()));
    assert_eq!(place(&mut game, 0xB, 1, 2), Ok(()));
    assert_eq!(inside.is_empty(&game), Err(MoveError::Occupied));
}

#[test]
fn second_player_resigning_hands_the_game_to_the_first() {
    let mut game = TicTacToe::initial(&players());
    assert_eq!(place(&mut game, 0xB, 0, 0), Ok(()));
    assert_eq!(place(&mut game, 0xB, 1, 0), Ok(()));
    assert_eq!(place(&mut game, 0xB, 2, 0), Ok(()));
    assert_eq!(
        game.apply_move(TicTacToeMove::Resign, key(0xB), players()),
        Ok(())
    );
    assert_eq!(game.player_resigned.as_ref().map(|k| k.bytes.clone()), Some(vec![0xB; 39]));
    assert_eq!(winner_of(&game.outcome(players())), Some(vec![0xA; 39]));
}

#[test]
fn first_player_resigning_hands_the_game_to_the_second() {
    let mut game = TicTacToe::initial(&players());
    assert_eq!(place(&mut game, 0xA, 0, 0), Ok(()));
    assert_eq!(place(&mut game, 0xA, 1, 1), Ok(()));
    assert_eq!(place(&mut game, 0xA, 2, 2), Ok(()));
    assert_eq!(
        game.apply_move(TicTacToeMove::Resign, key(0xA), players()),
        Ok(())
    );
    assert_eq!(winner_of(&game.outcome(players())), Some(vec![0xB; 39]));
}

#[test]
fn full_board_without_a_line_goes_on() {
    // x o x
    // x o o
    // o x x   (cells written as (x, y))
    let mut game = TicTacToe::initial(&players());
    for (author, x, y) in [
        (0xA, 0, 0),
        (0xB, 1, 0),
        (0xA, 2, 0),
        (0xB, 1, 1),
        (0xA, 0, 1),
        (0xB, 2, 1),
        (0xA, 1, 2),
        (0xB, 0, 2),
        (0xA, 2, 2),
    ] {
        assert_eq!(place(&mut game, author, x, y), Ok(()));
    }
    assert_eq!(game.player_1.len() + game.player_2.len(), 9);
    assert_eq!(winner_of(&game.outcome(players())), None);
    assert_eq!(place(&mut game, 0xB, 1, 1), Err(MoveError::Occupied));
}

#[test]
fn row_of_second_player_wins() {
    let mut game = TicTacToe::initial(&players());
    assert_eq!(place(&mut game, 0xA, 0, 0), Ok(()));
    assert_eq!(place(&mut game, 0xB, 0, 1), Ok(()));
    assert_eq!(place(&mut game, 0xA, 2, 2), Ok(()));
    assert_eq!(place(&mut game, 0xB, 1, 1), Ok(()));
    assert_eq!(place(&mut game, 0xA, 0, 2), Ok(()));
    assert_eq!(place(&mut game, 0xB, 2, 1), Ok(()));
    assert_eq!(winner_of(&game.outcome(players())), Some(vec![0xB; 39]));
}

#[test]
fn main_diagonal_wins() {
    let mut game = TicTacToe::initial(&players());
    for (x, y) in [(0, 0), (1, 1), (2, 2)] {
        assert_eq!(place(&mut game, 0xA, x, y), Ok(()));
    }
    assert_eq!(winner_of(&game.outcome(players())), Some(vec![0xA; 39]));
}

#[test]
fn anti_diagonal_wins() {
    let mut game = TicTacToe::initial(&players());
    for (x, y) in [(2, 0), (1, 1), (0, 2)] {
        assert_eq!(place(&mut game, 0xB, x, y), Ok(()));
    }
    assert_eq!(winner_of(&game.outcome(players())), Some(vec![0xB; 39]));
}

#[test]
fn first_player_line_is_checked_first() {
    let mut game = TicTacToe::initial(&players());
    for y in 0..3 {
        assert_eq!(place(&mut game, 0xB, 2, y), Ok(()));
    }
    for y in 0..3 {
        assert_eq!(place(&mut game, 0xA, 0, y), Ok(()));
    }
    assert_eq!(winner_of(&game.outcome(players())), Some(vec![0xA; 39]));
}

#[test]
fn author_outside_the_list_plays_second() {
    let mut game = TicTacToe::initial(&players());
    assert_eq!(place(&mut game, 0xC, 1, 0), Ok(()));
    assert!(game.player_1.is_empty());
    assert_eq!(cells(&game.player_2), vec![(1, 0)]);
}

#[test]
fn dense_board_marks_each_player() {
    let mut game = TicTacToe::initial(&players());
    assert_eq!(place(&mut game, 0xA, 0, 2), Ok(()));
    assert_eq!(place(&mut game, 0xB, 2, 0), Ok(()));
    assert_eq!(place(&mut game, 0xA, 1, 1), Ok(()));
    let board = game.to_dense();
    assert_eq!(board, [[0, 0, 1], [0, 1, 0], [2, 0, 0]]);
}

#[test]
fn dense_board_lets_player_two_overwrite() {
    let game = TicTacToe {
        player_1: vec![Piece { x: 1, y: 1 }],
        player_2: vec![Piece { x: 1, y: 1 }],
        player_resigned: None,
    };
    assert_eq!(game.to_dense(), [[0, 0, 0], [0, 2, 0], [0, 0, 0]]);
}

#[test]
fn from_dense_scans_column_by_column() {
    let board = [[2, 1, 0], [0, 1, 2], [1, 0, 7]];
    let game = TicTacToe::from_dense(board);
    assert_eq!(cells(&game.player_1), vec![(0, 1), (1, 1), (2, 0)]);
    assert_eq!(cells(&game.player_2), vec![(0, 0), (1, 2)]);
    assert!(game.player_resigned.is_none());
}

#[test]
fn dense_round_trip_keeps_cells() {
    let mut game = TicTacToe::initial(&players());
    assert_eq!(place(&mut game, 0xA, 2, 2), Ok(()));
    assert_eq!(place(&mut game, 0xB, 0, 1), Ok(()));
    assert_eq!(place(&mut game, 0xA, 0, 0), Ok(()));
    assert_eq!(place(&mut game, 0xB, 2, 1), Ok(()));
    let back = TicTacToe::from_dense(game.to_dense());
    let mut p1 = cells(&game.player_1);
    p1.sort();
    let mut p2 = cells(&game.player_2);
    p2.sort();
    assert_eq!(cells(&back.player_1), p1);
    assert_eq!(cells(&back.player_2), p2);
}

#[test]
fn keys_compare_by_bytes() {
    let a = PlayerKey::new(vec![1, 2, 3]);
    assert!(a.same_as(&PlayerKey::new(vec![1, 2, 3])));
    assert!(!a.same_as(&PlayerKey::new(vec![1, 2, 4])));
    assert!(!a.same_as(&PlayerKey::new(vec![1, 2])));
    let b = a.duplicate();
    assert_eq!(b.bytes, vec![1, 2, 3]);
}
