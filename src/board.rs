use vstd::prelude::*;

use crate::player::PlayerKey;

verus! {

/// Width and height of the square playing area.
pub const BOARD_SIZE: usize = 3;

/// One mark on the board, at column `x` and row `y`.
#[derive(Clone, Copy, Debug, PartialEq, Eq, Structural)]
pub struct Piece {
    pub x: usize,
    pub y: usize,
}

impl Piece {
    pub open spec fn in_bounds(self) -> bool {
        self.x < BOARD_SIZE && self.y < BOARD_SIZE
    }
}

/// Position of a cell in a column-major scan of the board.
pub open spec fn scan_index(p: Piece) -> int {
    p.x * 3 + p.y
}

/// Whether some piece of `pieces` stands at `(x, y)`.
pub open spec fn holds_cell(pieces: Seq<Piece>, x: int, y: int) -> bool {
    exists|i: int| 0 <= i < pieces.len() && #[trigger] pieces[i].x == x && pieces[i].y == y
}

/// The state of one game: the pieces of each player in the order they were
/// placed, and the player who resigned, if any.
pub struct TicTacToe {
    pub player_1: Vec<Piece>,
    pub player_2: Vec<Piece>,
    pub player_resigned: Option<PlayerKey>,
}

pub struct TicTacToeView {
    pub player_1: Seq<Piece>,
    pub player_2: Seq<Piece>,
    pub player_resigned: Option<Seq<u8>>,
}

impl View for TicTacToe {
    type V = TicTacToeView;

    open spec fn view(&self) -> TicTacToeView {
        TicTacToeView {
            player_1: self.player_1@,
            player_2: self.player_2@,
            player_resigned: match self.player_resigned {
                Some(k) => Some(k@),
                None => None,
            },
        }
    }
}

impl TicTacToeView {
    /// What the dense board shows at `(x, y)`: 1 for player 1, 2 for player 2,
    /// 0 for an empty cell. A cell claimed by both shows player 2.
    pub open spec fn mark(self, x: int, y: int) -> u8 {
        if holds_cell(self.player_2, x, y) {
            2
        } else if holds_cell(self.player_1, x, y) {
            1
        } else {
            0
        }
    }

    pub open spec fn in_bounds(self) -> bool {
        &&& forall|i: int| 0 <= i < self.player_1.len() ==> (#[trigger] self.player_1[i]).in_bounds()
        &&& forall|i: int| 0 <= i < self.player_2.len() ==> (#[trigger] self.player_2[i]).in_bounds()
    }

    /// No cell is claimed by both players.
    pub open spec fn disjoint(self) -> bool {
        forall|x: int, y: int|
            !(#[trigger] holds_cell(self.player_1, x, y) && #[trigger] holds_cell(self.player_2, x, y))
    }

    /// The state reachable by legal play: every piece on the board, no piece
    /// twice, and no cell held by both players.
    pub open spec fn well_formed(self) -> bool {
        &&& self.in_bounds()
        &&& self.player_1.no_duplicates()
        &&& self.player_2.no_duplicates()
        &&& self.disjoint()
    }

    /// Both states give each player the same cells.
    pub open spec fn same_cells(self, other: TicTacToeView) -> bool {
        forall|x: int, y: int|
            (#[trigger] holds_cell(self.player_1, x, y) == holds_cell(other.player_1, x, y))
                && (#[trigger] holds_cell(self.player_2, x, y) == holds_cell(other.player_2, x, y))
    }
}

/// `board` shows every cell of the playing area as `s` marks it.
pub open spec fn is_dense_of(board: [[u8; 3]; 3], s: TicTacToeView) -> bool {
    forall|x: int, y: int| 0 <= x < 3 && 0 <= y < 3 ==> #[trigger] board[x][y] == s.mark(x, y)
}

/// The pieces are on the board and in the order of a column-major scan.
pub open spec fn in_scan_order(pieces: Seq<Piece>) -> bool {
    &&& forall|i: int| 0 <= i < pieces.len() ==> (#[trigger] pieces[i]).in_bounds()
    &&& forall|i: int, j: int|
        0 <= i < j < pieces.len() ==> scan_index(#[trigger] pieces[i]) < scan_index(#[trigger] pieces[j])
}

/// `s` is what a column-major scan of `board` collects: the cells marked 1
/// for player 1, those marked 2 for player 2, in scan order, and no resignation.
pub open spec fn is_sparse_of(s: TicTacToeView, board: [[u8; 3]; 3]) -> bool {
    &&& s.player_resigned is None
    &&& in_scan_order(s.player_1)
    &&& in_scan_order(s.player_2)
    &&& forall|x: int, y: int|
        0 <= x < 3 && 0 <= y < 3 ==> (#[trigger] holds_cell(s.player_1, x, y) <==> board[x][y] == 1)
    &&& forall|x: int, y: int|
        0 <= x < 3 && 0 <= y < 3 ==> (#[trigger] holds_cell(s.player_2, x, y) <==> board[x][y] == 2)
}

/// Adding a piece adds exactly its cell.
pub proof fn lemma_holds_cell_push(s: Seq<Piece>, p: Piece, x: int, y: int)
    ensures
        holds_cell(s.push(p), x, y) == (holds_cell(s, x, y) || (p.x == x && p.y == y)),
{
    let t = s.push(p);
    if holds_cell(s, x, y) {
        let k = choose|k: int| 0 <= k < s.len() && #[trigger] s[k].x == x && s[k].y == y;
        assert(t[k] == s[k]);
    }
    if p.x == x && p.y == y {
        assert(t[s.len() as int] == p);
    }
    if holds_cell(t, x, y) {
        let k = choose|k: int| 0 <= k < t.len() && #[trigger] t[k].x == x && t[k].y == y;
        if k < s.len() {
            assert(t[k] == s[k]);
        }
    }
}

/// A prefix one longer holds one more piece's cell.
pub proof fn lemma_holds_cell_take(s: Seq<Piece>, i: int, x: int, y: int)
    requires
        0 <= i < s.len(),
    ensures
        holds_cell(s.take(i + 1), x, y) == (holds_cell(s.take(i), x, y) || (s[i].x == x && s[i].y
            == y)),
{
    assert(s.take(i + 1) =~= s.take(i).push(s[i]));
    lemma_holds_cell_push(s.take(i), s[i], x, y);
}

/// Cells held by pieces that are all on the board are on the board.
pub proof fn lemma_holds_cell_in_bounds(s: Seq<Piece>, x: int, y: int)
    requires
        forall|i: int| 0 <= i < s.len() ==> (#[trigger] s[i]).in_bounds(),
        holds_cell(s, x, y),
    ensures
        0 <= x < 3 && 0 <= y < 3,
{
    let k = choose|k: int| 0 <= k < s.len() && #[trigger] s[k].x == x && s[k].y == y;
    assert(s[k].in_bounds());
}

impl TicTacToe {
    /// The board as a grid of cell marks: 1 for player 1, 2 for player 2,
    /// 0 for an empty cell. Player 2's pieces are written last.
    pub fn to_dense(&self) -> (board: [[u8; 3]; 3])
        requires
            self@.in_bounds(),
        ensures
            is_dense_of(board, self@),
    {
        let mut board = [[0u8; 3]; 3];
        let mut i: usize = 0;
        while i < self.player_1.len()
            invariant
                self@.in_bounds(),
                i <= self.player_1@.len(),
                forall|x: int, y: int|
                    0 <= x < 3 && 0 <= y < 3 ==> #[trigger] board[x][y] == if holds_cell(
                        self.player_1@.take(i as int),
                        x,
                        y,
                    ) {
                        1u8
                    } else {
                        0u8
                    },
            decreases self.player_1@.len() - i,
        {
            let p = self.player_1[i];
            assert(self@.player_1[i as int].in_bounds());
            let mut row = board[p.x];
            row[p.y] = 1;
            board[p.x] = row;
            proof {
                assert forall|x: int, y: int| 0 <= x < 3 && 0 <= y < 3 implies #[trigger] board[x][y]
                    == if holds_cell(self.player_1@.take(i + 1), x, y) {
                    1u8
                } else {
                    0u8
                } by {
                    lemma_holds_cell_take(self.player_1@, i as int, x, y);
                }
            }
            i = i + 1;
        }
        assert(self.player_1@.take(i as int) =~= self.player_1@);
        let mut j: usize = 0;
        while j < self.player_2.len()
            invariant
                self@.in_bounds(),
                j <= self.player_2@.len(),
                forall|x: int, y: int|
                    0 <= x < 3 && 0 <= y < 3 ==> #[trigger] board[x][y] == if holds_cell(
                        self.player_2@.take(j as int),
                        x,
                        y,
                    ) {
                        2u8
                    } else if holds_cell(self.player_1@, x, y) {
                        1u8
                    } else {
                        0u8
                    },
            decreases self.player_2@.len() - j,
        {
            let p = self.player_2[j];
            assert(self@.player_2[j as int].in_bounds());
            let mut row = board[p.x];
            row[p.y] = 2;
            board[p.x] = row;
            proof {
                assert forall|x: int, y: int| 0 <= x < 3 && 0 <= y < 3 implies #[trigger] board[x][y]
                    == if holds_cell(self.player_2@.take(j + 1), x, y) {
                    2u8
                } else if holds_cell(self.player_1@, x, y) {
                    1u8
                } else {
                    0u8
                } by {
                    lemma_holds_cell_take(self.player_2@, j as int, x, y);
                }
            }
            j = j + 1;
        }
        assert(self.player_2@.take(j as int) =~= self.player_2@);
        board
    }
    /// Collects the pieces that a dense board shows, scanning it column by
    /// column; no one has resigned in the result.
    pub fn from_dense(board: [[u8; 3]; 3]) -> (r: TicTacToe)
        ensures
            is_sparse_of(r@, board),
    {
        let mut player_1_pieces: Vec<Piece> = Vec::new();
        let mut player_2_pieces: Vec<Piece> = Vec::new();
        let mut k: usize = 0;
        while k < 9
            invariant
                k <= 9,
                forall|i: int|
                    0 <= i < player_1_pieces@.len() ==> scan_index(#[trigger] player_1_pieces@[i]) < k,
                forall|i: int|
                    0 <= i < player_2_pieces@.len() ==> scan_index(#[trigger] player_2_pieces@[i]) < k,
                in_scan_order(player_1_pieces@),
                in_scan_order(player_2_pieces@),
                forall|x: int, y: int|
                    0 <= x < 3 && 0 <= y < 3 ==> (#[trigger] holds_cell(player_1_pieces@, x, y) <==> (
                    x * 3 + y < k && board[x][y] == 1)),
                forall|x: int, y: int|
                    0 <= x < 3 && 0 <= y < 3 ==> (#[trigger] holds_cell(player_2_pieces@, x, y) <==> (
                    x * 3 + y < k && board[x][y] == 2)),
            decreases 9 - k,
        {
            let x: usize = k / 3;
            let y: usize = k % 3;
            let square = board[x][y];
            let piece = Piece { x, y };
            let ghost old_1 = player_1_pieces@;
            let ghost old_2 = player_2_pieces@;
            if square == 1 {
                player_1_pieces.push(piece);
            } else if square == 2 {
                player_2_pieces.push(piece);
            }
            proof {
                assert forall|cx: int, cy: int| 0 <= cx < 3 && 0 <= cy < 3 implies (#[trigger] holds_cell(
                    player_1_pieces@,
                    cx,
                    cy,
                ) <==> (cx * 3 + cy < k + 1 && board[cx][cy] == 1)) by {
                    lemma_holds_cell_push(old_1, piece, cx, cy);
                }
                assert forall|cx: int, cy: int| 0 <= cx < 3 && 0 <= cy < 3 implies (#[trigger] holds_cell(
                    player_2_pieces@,
                    cx,
                    cy,
                ) <==> (cx * 3 + cy < k + 1 && board[cx][cy] == 2)) by {
                    lemma_holds_cell_push(old_2, piece, cx, cy);
                }
            }
            k = k + 1;
        }
        TicTacToe { player_1: player_1_pieces, player_2: player_2_pieces, player_resigned: None }
    }
}

} // verus!
