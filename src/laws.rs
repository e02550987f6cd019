use vstd::prelude::*;

use crate::board::{holds_cell, is_dense_of, is_sparse_of, lemma_holds_cell_in_bounds, Piece, TicTacToeView};
use crate::game::{
    apply_of, has_line, lemma_place_keeps_shape, line_cell, outcome_of, owns_line, MoveError,
    TicTacToeMove,
};

verus! {

/// The state after `moves` are made in turn from `s`, each move with its
/// author's key; refused moves change nothing.
pub open spec fn replay(s: TicTacToeView, moves: Seq<(TicTacToeMove, Seq<u8>)>, first: Seq<u8>) -> TicTacToeView
    decreases moves.len(),
{
    if moves.len() == 0 {
        s
    } else {
        replay(apply_of(s, moves[0].0, moves[0].1, first).0, moves.drop_first(), first)
    }
}

/// A placement off the board is refused as out of bounds, whatever the
/// state, and leaves the state as it was.
pub proof fn lemma_out_of_bounds_refused(s: TicTacToeView, p: Piece, author: Seq<u8>, first: Seq<u8>)
    requires
        !p.in_bounds(),
    ensures
        apply_of(s, TicTacToeMove::Place(p), author, first) == (s, Err::<(), MoveError>(MoveError::OutOfBounds)),
{
}

/// A placement on a cell that either player holds is refused as occupied,
/// whatever the state, and leaves the state as it was.
pub proof fn lemma_occupied_refused(s: TicTacToeView, p: Piece, author: Seq<u8>, first: Seq<u8>)
    requires
        p.in_bounds(),
        holds_cell(s.player_1, p.x as int, p.y as int) || holds_cell(s.player_2, p.x as int, p.y as int),
    ensures
        apply_of(s, TicTacToeMove::Place(p), author, first) == (s, Err::<(), MoveError>(MoveError::Occupied)),
{
}

/// One move keeps a well-formed state well formed.
pub proof fn lemma_move_keeps_well_formed(s: TicTacToeView, mv: TicTacToeMove, author: Seq<u8>, first: Seq<u8>)
    requires
        s.well_formed(),
    ensures
        apply_of(s, mv, author, first).0.well_formed(),
{
    if let TicTacToeMove::Place(p) = mv {
        if p.in_bounds() && s.mark(p.x as int, p.y as int) == 0 {
            lemma_place_keeps_shape(s, p, apply_of(s, mv, author, first).0);
        }
    }
}

/// Any sequence of moves from a well-formed state, such as a fresh game,
/// leaves both players' pieces on the board, each cell at most once, and
/// no cell held by both players.
pub proof fn lemma_play_keeps_well_formed(
    s: TicTacToeView,
    moves: Seq<(TicTacToeMove, Seq<u8>)>,
    first: Seq<u8>,
)
    requires
        s.well_formed(),
    ensures
        replay(s, moves, first).well_formed(),
    decreases moves.len(),
{
    if moves.len() > 0 {
        lemma_move_keeps_well_formed(s, moves[0].0, moves[0].1, first);
        lemma_play_keeps_well_formed(apply_of(s, moves[0].0, moves[0].1, first).0, moves.drop_first(), first);
    }
}

/// After a player of two distinct players resigns, the other one wins,
/// whatever the board holds.
pub proof fn lemma_resignation_hands_over(s: TicTacToeView, author: Seq<u8>, first: Seq<u8>, second: Seq<u8>)
    requires
        first != second,
        author == first || author == second,
    ensures
        outcome_of(apply_of(s, TicTacToeMove::Resign, author, first).0, first, second) == Some(
            if author == first {
                second
            } else {
                first
            },
        ),
{
}

/// In a well-formed state without a resignation, a row, column or diagonal
/// whose cells player 1 all holds wins the game for player 1.
pub proof fn lemma_line_of_first_wins(s: TicTacToeView, l: int, first: Seq<u8>, second: Seq<u8>)
    requires
        s.well_formed(),
        s.player_resigned is None,
        0 <= l < 8,
        forall|k: int| 0 <= k < 3 ==> holds_cell(s.player_1, #[trigger] line_cell(l, k).0, line_cell(l, k).1),
    ensures
        outcome_of(s, first, second) == Some(first),
{
    assert forall|k: int| 0 <= k < 3 implies s.mark(#[trigger] line_cell(l, k).0, line_cell(l, k).1) == 1 by {
        let c = line_cell(l, k);
        assert(holds_cell(s.player_1, c.0, c.1));
        assert(!holds_cell(s.player_2, c.0, c.1));
    }
    assert(owns_line(s, 1, l));
}

/// In a well-formed state without a resignation and without a line of
/// player 1, a row, column or diagonal whose cells player 2 all holds wins
/// the game for player 2.
pub proof fn lemma_line_of_second_wins(s: TicTacToeView, l: int, first: Seq<u8>, second: Seq<u8>)
    requires
        s.well_formed(),
        s.player_resigned is None,
        !has_line(s, 1),
        0 <= l < 8,
        forall|k: int| 0 <= k < 3 ==> holds_cell(s.player_2, #[trigger] line_cell(l, k).0, line_cell(l, k).1),
    ensures
        outcome_of(s, first, second) == Some(second),
{
    assert forall|k: int| 0 <= k < 3 implies s.mark(#[trigger] line_cell(l, k).0, line_cell(l, k).1) == 2 by {
        let c = line_cell(l, k);
        assert(holds_cell(s.player_2, c.0, c.1));
    }
    assert(owns_line(s, 2, l));
}

/// Without a resignation and without a full line for either player the
/// game goes on, however many cells are filled.
pub proof fn lemma_no_line_goes_on(s: TicTacToeView, first: Seq<u8>, second: Seq<u8>)
    requires
        s.player_resigned is None,
        !has_line(s, 1),
        !has_line(s, 2),
    ensures
        outcome_of(s, first, second) is None,
{
}

/// Turning a state without a cell held by both players into a dense board
/// and back gives each player the same cells as before.
pub proof fn lemma_dense_round_trip(s: TicTacToeView, board: [[u8; 3]; 3], t: TicTacToeView)
    requires
        s.in_bounds(),
        s.disjoint(),
        is_dense_of(board, s),
        is_sparse_of(t, board),
    ensures
        t.same_cells(s),
{
    assert forall|x: int, y: int|
        (#[trigger] holds_cell(t.player_1, x, y) == holds_cell(s.player_1, x, y)) && (#[trigger] holds_cell(
            t.player_2,
            x,
            y,
        ) == holds_cell(s.player_2, x, y)) by {
        if 0 <= x < 3 && 0 <= y < 3 {
            assert(board[x][y] == s.mark(x, y));
        } else {
            if holds_cell(t.player_1, x, y) {
                lemma_holds_cell_in_bounds(t.player_1, x, y);
            }
            if holds_cell(t.player_2, x, y) {
                lemma_holds_cell_in_bounds(t.player_2, x, y);
            }
            if holds_cell(s.player_1, x, y) {
                lemma_holds_cell_in_bounds(s.player_1, x, y);
            }
            if holds_cell(s.player_2, x, y) {
                lemma_holds_cell_in_bounds(s.player_2, x, y);
            }
        }
    }
}

} // verus!
