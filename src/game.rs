use vstd::prelude::*;

use crate::board::{holds_cell, is_dense_of, lemma_holds_cell_push, Piece, TicTacToe, TicTacToeView};
use crate::player::PlayerKey;

verus! {

/// What one player submits on their turn.
#[derive(Clone, Copy, Debug, PartialEq, Eq, Structural)]
pub enum TicTacToeMove {
    Place(Piece),
    Resign,
}

/// Why a placement was refused. A refused move leaves the state as it was.
#[derive(Clone, Copy, Debug, PartialEq, Eq, Structural)]
pub enum MoveError {
    OutOfBounds,
    Occupied,
}

/// The player who won a finished game.
pub struct Winner(pub PlayerKey);

/// The verdict on a game state.
pub enum GameOutcome {
    Ongoing,
    Finished(Winner),
}

impl View for GameOutcome {
    /// `None` while the game goes on, else the winner's key.
    type V = Option<Seq<u8>>;

    open spec fn view(&self) -> Option<Seq<u8>> {
        match self {
            GameOutcome::Ongoing => None,
            GameOutcome::Finished(w) => Some(w.0@),
        }
    }
}

/// The cell at position `k` of line `l`: lines 0 to 2 are the columns
/// `x == l`, lines 3 to 5 the rows `y == l - 3`, line 6 the diagonal
/// `x == y`, line 7 the diagonal `x == 2 - y`.
pub open spec fn line_cell(l: int, k: int) -> (int, int) {
    if l < 3 {
        (l, k)
    } else if l < 6 {
        (k, l - 3)
    } else if l == 6 {
        (k, k)
    } else {
        (2 - k, k)
    }
}

/// Every cell of line `l` shows `m`.
pub open spec fn owns_line(s: TicTacToeView, m: u8, l: int) -> bool {
    forall|k: int| 0 <= k < 3 ==> s.mark(#[trigger] line_cell(l, k).0, line_cell(l, k).1) == m
}

/// Some row, column or diagonal shows `m` in all its cells.
pub open spec fn has_line(s: TicTacToeView, m: u8) -> bool {
    exists|l: int| 0 <= l < 8 && #[trigger] owns_line(s, m, l)
}

/// Every cell of line `l` of a dense board holds `m`.
pub open spec fn board_owns_line(board: [[u8; 3]; 3], m: u8, l: int) -> bool {
    forall|k: int| 0 <= k < 3 ==> board[#[trigger] line_cell(l, k).0][line_cell(l, k).1] == m
}

/// Signed weight of a dense cell in a line sum: player 1 counts up, player 2 down.
pub open spec fn cell_weight(mark: u8) -> int {
    if mark == 1 {
        1
    } else if mark == 2 {
        -1
    } else {
        0
    }
}

/// The outcome of a state: a resignation hands the game to the other player;
/// else a line of player 1 wins for player 1, then a line of player 2 for
/// player 2; else the game goes on, also on a full board.
pub open spec fn outcome_of(s: TicTacToeView, first: Seq<u8>, second: Seq<u8>) -> Option<Seq<u8>> {
    match s.player_resigned {
        Some(r) => if r == first {
            Some(second)
        } else {
            Some(first)
        },
        None => if has_line(s, 1) {
            Some(first)
        } else if has_line(s, 2) {
            Some(second)
        } else {
            None
        },
    }
}

/// The state after `author` makes move `mv`, and the verdict on the move;
/// `first` is the first player's key. A refused move leaves `s` as it was.
pub open spec fn apply_of(s: TicTacToeView, mv: TicTacToeMove, author: Seq<u8>, first: Seq<u8>) -> (
    TicTacToeView,
    Result<(), MoveError>,
) {
    match mv {
        TicTacToeMove::Place(p) => if !p.in_bounds() {
            (s, Err(MoveError::OutOfBounds))
        } else if s.mark(p.x as int, p.y as int) != 0 {
            (s, Err(MoveError::Occupied))
        } else if author == first {
            (
                TicTacToeView {
                    player_1: s.player_1.push(p),
                    player_2: s.player_2,
                    player_resigned: s.player_resigned,
                },
                Ok(()),
            )
        } else {
            (
                TicTacToeView {
                    player_1: s.player_1,
                    player_2: s.player_2.push(p),
                    player_resigned: s.player_resigned,
                },
                Ok(()),
            )
        },
        TicTacToeMove::Resign => (
            TicTacToeView {
                player_1: s.player_1,
                player_2: s.player_2,
                player_resigned: Some(author),
            },
            Ok(()),
        ),
    }
}

impl Piece {
    pub fn is_in_bounds(&self) -> (r: Result<(), MoveError>)
        ensures
            r == (if self.in_bounds() {
                Ok(())
            } else {
                Err(MoveError::OutOfBounds)
            }),
    {
        if self.x < crate::board::BOARD_SIZE && self.y < crate::board::BOARD_SIZE {
            Ok(())
        } else {
            Err(MoveError::OutOfBounds)
        }
    }

    pub fn is_empty(&self, game_state: &TicTacToe) -> (r: Result<(), MoveError>)
        requires
            self.in_bounds(),
            game_state@.in_bounds(),
        ensures
            r == (if game_state@.mark(self.x as int, self.y as int) == 0 {
                Ok(())
            } else {
                Err(MoveError::Occupied)
            }),
    {
        let board = game_state.to_dense();
        if board[self.x][self.y] == 0 {
            Ok(())
        } else {
            Err(MoveError::Occupied)
        }
    }
}

impl TicTacToe {
    /// Fewest players a game takes.
    pub fn min_players() -> (r: Option<usize>)
        ensures
            r == Some(2usize),
    {
        Some(2)
    }

    /// Most players a game takes.
    pub fn max_players() -> (r: Option<usize>)
        ensures
            r == Some(2usize),
    {
        Some(2)
    }

    /// A fresh game: no pieces, no resignation, whoever the players are.
    pub fn initial(_players: &Vec<PlayerKey>) -> (r: TicTacToe)
        ensures
            r@.player_1.len() == 0,
            r@.player_2.len() == 0,
            r@.player_resigned is None,
            r@.well_formed(),
    {
        TicTacToe { player_1: Vec::new(), player_2: Vec::new(), player_resigned: None }
    }

    /// Makes `game_move` on behalf of `author`. A placement is checked for
    /// bounds, then for occupancy, and goes to player 1 when `author` is the
    /// first of `players`, else to player 2. A resignation records `author`.
    pub fn apply_move(&mut self, game_move: TicTacToeMove, author: PlayerKey, players: Vec<PlayerKey>) -> (r:
        Result<(), MoveError>)
        requires
            old(self)@.in_bounds(),
            players@.len() >= 1,
        ensures
            (final(self)@, r) == apply_of(old(self)@, game_move, author@, players@[0]@),
            final(self)@.in_bounds(),
            old(self)@.well_formed() ==> final(self)@.well_formed(),
    {
        match game_move {
            TicTacToeMove::Place(piece) => {
                if let Err(e) = piece.is_in_bounds() {
                    return Err(e);
                }
                if let Err(e) = piece.is_empty(self) {
                    return Err(e);
                }
                let ghost before = self@;
                if author.same_as(&players[0]) {
                    self.player_1.push(piece);
                } else {
                    self.player_2.push(piece);
                }
                proof {
                    lemma_place_keeps_shape(before, piece, self@);
                }
            },
            TicTacToeMove::Resign => {
                self.player_resigned = Some(author);
            },
        }
        Ok(())
    }
}

/// Adding a piece on an empty in-bounds cell to either player keeps every
/// piece on the board, and keeps a well-formed state well formed.
pub proof fn lemma_place_keeps_shape(before: TicTacToeView, p: Piece, after: TicTacToeView)
    requires
        before.in_bounds(),
        p.in_bounds(),
        before.mark(p.x as int, p.y as int) == 0,
        after.player_resigned == before.player_resigned,
        (after.player_1 == before.player_1.push(p) && after.player_2 == before.player_2) || (
        after.player_2 == before.player_2.push(p) && after.player_1 == before.player_1),
    ensures
        after.in_bounds(),
        before.well_formed() ==> after.well_formed(),
{
    assert forall|i: int| 0 <= i < after.player_1.len() implies (#[trigger] after.player_1[i]).in_bounds() by {
        if i < before.player_1.len() {
            assert(after.player_1[i] == before.player_1[i]);
        }
    }
    assert forall|i: int| 0 <= i < after.player_2.len() implies (#[trigger] after.player_2[i]).in_bounds() by {
        if i < before.player_2.len() {
            assert(after.player_2[i] == before.player_2[i]);
        }
    }
    if before.well_formed() {
        assert forall|x: int, y: int|
            !(#[trigger] holds_cell(after.player_1, x, y) && #[trigger] holds_cell(after.player_2, x, y)) by {
            lemma_holds_cell_push(before.player_1, p, x, y);
            lemma_holds_cell_push(before.player_2, p, x, y);
        }
        lemma_push_no_duplicates(before.player_1, p);
        lemma_push_no_duplicates(before.player_2, p);
    }
}

/// A piece on a cell that `s` does not hold can be added without repeating one.
proof fn lemma_push_no_duplicates(s: Seq<Piece>, p: Piece)
    requires
        s.no_duplicates(),
        !holds_cell(s, p.x as int, p.y as int),
    ensures
        s.push(p).no_duplicates(),
{
    let t = s.push(p);
    assert forall|i: int, j: int| 0 <= i < t.len() && 0 <= j < t.len() && i != j implies t[i] != t[j] by {
        if i < s.len() && j < s.len() {
            assert(t[i] == s[i] && t[j] == s[j]);
        } else if i < s.len() {
            assert(t[i] == s[i]);
        } else if j < s.len() {
            assert(t[j] == s[j]);
        }
    }
}

/// Some line of a dense board holds `m` in all its cells.
pub open spec fn board_has_line(board: [[u8; 3]; 3], m: u8) -> bool {
    exists|l: int| 0 <= l < 8 && #[trigger] board_owns_line(board, m, l)
}

fn line_cell_at(l: usize, k: usize) -> (r: (usize, usize))
    requires
        l < 8,
        k < 3,
    ensures
        r.0 as int == line_cell(l as int, k as int).0,
        r.1 as int == line_cell(l as int, k as int).1,
        r.0 < 3,
        r.1 < 3,
{
    if l < 3 {
        (l, k)
    } else if l < 6 {
        (k, l - 3)
    } else if l == 6 {
        (k, k)
    } else {
        (2 - k, k)
    }
}

fn weight_of(mark: u8) -> (r: i8)
    ensures
        r as int == cell_weight(mark),
{
    if mark == 1 {
        1
    } else if mark == 2 {
        -1
    } else {
        0
    }
}

/// The sum of the cell weights along line `l`: 3 exactly when player 1
/// holds the whole line, -3 exactly when player 2 does.
fn line_sum(board: &[[u8; 3]; 3], l: usize) -> (r: i8)
    requires
        l < 8,
    ensures
        r as int == cell_weight(board[line_cell(l as int, 0).0][line_cell(l as int, 0).1]) + cell_weight(
            board[line_cell(l as int, 1).0][line_cell(l as int, 1).1],
        ) + cell_weight(board[line_cell(l as int, 2).0][line_cell(l as int, 2).1]),
        (r == 3) == board_owns_line(*board, 1, l as int),
        (r == -3) == board_owns_line(*board, 2, l as int),
{
    let (x0, y0) = line_cell_at(l, 0);
    let (x1, y1) = line_cell_at(l, 1);
    let (x2, y2) = line_cell_at(l, 2);
    let sum = weight_of(board[x0][y0]) + weight_of(board[x1][y1]) + weight_of(board[x2][y2]);
    assert(line_cell(l as int, 0) == (x0 as int, y0 as int));
    assert(line_cell(l as int, 1) == (x1 as int, y1 as int));
    assert(line_cell(l as int, 2) == (x2 as int, y2 as int));
    sum
}

/// Whether some line of `board` sums to `target`.
fn any_line_sums_to(board: &[[u8; 3]; 3], target: i8) -> (r: bool)
    requires
        target == 3 || target == -3,
    ensures
        r == board_has_line(*board, if target == 3 { 1u8 } else { 2u8 }),
{
    let ghost m: u8 = if target == 3 { 1u8 } else { 2u8 };
    let mut l: usize = 0;
    while l < 8
        invariant
            target == 3 || target == -3,
            m == (if target == 3 { 1u8 } else { 2u8 }),
            l <= 8,
            forall|j: int| 0 <= j < l ==> !(#[trigger] board_owns_line(*board, m, j)),
        decreases 8 - l,
    {
        if line_sum(board, l) == target {
            assert(board_owns_line(*board, m, l as int));
            return true;
        }
        l = l + 1;
    }
    false
}

/// On a board that shows `s`, the lines that `s` gives a player and those
/// that the board shows are the same.
proof fn lemma_dense_lines(board: [[u8; 3]; 3], s: TicTacToeView, m: u8)
    requires
        is_dense_of(board, s),
    ensures
        board_has_line(board, m) == has_line(s, m),
{
    assert forall|l: int| 0 <= l < 8 implies #[trigger] board_owns_line(board, m, l) == owns_line(s, m, l) by {
        assert forall|k: int| 0 <= k < 3 implies board[#[trigger] line_cell(l, k).0][line_cell(l, k).1]
            == s.mark(line_cell(l, k).0, line_cell(l, k).1) by {
            let c = line_cell(l, k);
            assert(board[c.0][c.1] == s.mark(c.0, c.1));
        }
    }
    if has_line(s, m) {
        let l = choose|l: int| 0 <= l < 8 && #[trigger] owns_line(s, m, l);
        assert(board_owns_line(board, m, l));
    }
    if board_has_line(board, m) {
        let l = choose|l: int| 0 <= l < 8 && #[trigger] board_owns_line(board, m, l);
        assert(owns_line(s, m, l));
    }
}

impl TicTacToe {
    /// The verdict on this state for `players`, first player first: a
    /// resignation hands the game to the other player, whatever the board;
    /// else a full line of player 1, then of player 2, wins; else the game
    /// goes on, also on a full board.
    pub fn outcome(&self, players: Vec<PlayerKey>) -> (r: GameOutcome)
        requires
            self@.in_bounds(),
            players@.len() >= 2,
        ensures
            r@ == outcome_of(self@, players@[0]@, players@[1]@),
    {
        if let Some(resigned_player) = &self.player_resigned {
            if resigned_player.same_as(&players[0]) {
                return GameOutcome::Finished(Winner(players[1].duplicate()));
            } else {
                return GameOutcome::Finished(Winner(players[0].duplicate()));
            }
        }
        let board = self.to_dense();
        proof {
            lemma_dense_lines(board, self@, 1);
            lemma_dense_lines(board, self@, 2);
        }
        let player_1_victory = any_line_sums_to(&board, 3);
        let player_2_victory = any_line_sums_to(&board, -3);
        if player_1_victory {
            GameOutcome::Finished(Winner(players[0].duplicate()))
        } else if player_2_victory {
            GameOutcome::Finished(Winner(players[1].duplicate()))
        } else {
            GameOutcome::Ongoing
        }
    }
}

} // verus!
