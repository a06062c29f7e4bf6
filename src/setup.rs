use vstd::prelude::*;
use rand::seq::SliceRandom;
use crate::board::{Board, Cell, rows_view};
use crate::piece::{Piece, PieceType, Player};

verus! {

/// Rows of the standard board.
pub const ROWS: usize = 4;

/// Columns of the standard board.
pub const COLS: usize = 8;

/// `n` copies of one piece.
pub open spec fn copies(p: Piece, n: nat) -> Seq<Piece> {
    Seq::new(n, |_i: int| p)
}

/// One side's pieces: a General, two each of Advisor, Elephant, Chariot,
/// Horse and Cannon, and five Soldiers.
pub open spec fn army(side: Player) -> Seq<Piece> {
    copies(Piece { piece_type: PieceType::General, player: side }, 1)
        + copies(Piece { piece_type: PieceType::Advisor, player: side }, 2)
        + copies(Piece { piece_type: PieceType::Elephant, player: side }, 2)
        + copies(Piece { piece_type: PieceType::Chariot, player: side }, 2)
        + copies(Piece { piece_type: PieceType::Horse, player: side }, 2)
        + copies(Piece { piece_type: PieceType::Cannon, player: side }, 2)
        + copies(Piece { piece_type: PieceType::Soldier, player: side }, 5)
}

/// Both sides' pieces, Red first.
pub open spec fn full_set() -> Seq<Piece> {
    army(Player::Red) + army(Player::Black)
}

/// Appends `n` copies of `p`.
fn push_copies(pieces: &mut Vec<Piece>, p: Piece, n: usize)
    ensures
        final(pieces)@ == old(pieces)@ + copies(p, n as nat),
{
    let ghost start = pieces@;
    let mut i: usize = 0;
    while i < n
        invariant
            i <= n,
            pieces@ =~= start + copies(p, i as nat),
        decreases n - i,
    {
        pieces.push(p);
        i = i + 1;
        assert(pieces@ =~= start + copies(p, i as nat));
    }
}

/// Appends one side's pieces.
fn push_army(pieces: &mut Vec<Piece>, side: Player)
    ensures
        final(pieces)@ == old(pieces)@ + army(side),
{
    let ghost start = pieces@;
    push_copies(pieces, Piece { piece_type: PieceType::General, player: side }, 1);
    push_copies(pieces, Piece { piece_type: PieceType::Advisor, player: side }, 2);
    push_copies(pieces, Piece { piece_type: PieceType::Elephant, player: side }, 2);
    push_copies(pieces, Piece { piece_type: PieceType::Chariot, player: side }, 2);
    push_copies(pieces, Piece { piece_type: PieceType::Horse, player: side }, 2);
    push_copies(pieces, Piece { piece_type: PieceType::Cannon, player: side }, 2);
    push_copies(pieces, Piece { piece_type: PieceType::Soldier, player: side }, 5);
    assert(pieces@ =~= start + army(side));
}

/// The thirty-two pieces of a game, unshuffled.
pub fn standard_pieces() -> (r: Vec<Piece>)
    ensures
        r@ == full_set(),
        r@.len() == ROWS * COLS,
{
    let mut pieces: Vec<Piece> = Vec::new();
    push_army(&mut pieces, Player::Red);
    push_army(&mut pieces, Player::Black);
    assert(pieces@ =~= full_set());
    pieces
}

/// A board of `rows` rows and `cols` columns with every square face down,
/// dealt from `pieces` in reading order.
pub fn new_game(rows: usize, cols: usize, pieces: &Vec<Piece>) -> (b: Board)
    requires
        pieces@.len() == rows * cols,
    ensures
        b.wf(),
        b@.len() == rows,
        forall|y: int| 0 <= y < rows ==> #[trigger] b@[y].len() == cols,
        forall|y: int, x: int|
            0 <= y < rows && 0 <= x < cols ==> b@[y][x] == Cell::Hidden(pieces@[y * cols + x]),
{
    let total = pieces.len();
    let mut grid: Vec<Vec<Cell>> = Vec::new();
    let mut j: usize = 0;
    let mut k: usize = 0;
    while j < rows
        invariant
            pieces@.len() == rows * cols,
            total == pieces@.len(),
            j <= rows,
            k == j * cols,
            grid@.len() == j,
            forall|y: int| 0 <= y < j ==> #[trigger] grid@[y]@.len() == cols,
            forall|y: int, x: int|
                0 <= y < j && 0 <= x < cols ==> grid@[y]@[x] == Cell::Hidden(pieces@[y * cols + x]),
        decreases rows - j,
    {
        proof {
            assert((j + 1) * cols <= rows * cols) by (nonlinear_arith)
                requires
                    j < rows,
            ;
            assert((j + 1) * cols == j * cols + cols) by (nonlinear_arith);
        }
        let mut row: Vec<Cell> = Vec::new();
        let mut i: usize = 0;
        while i < cols
            invariant
                pieces@.len() == rows * cols,
                total == pieces@.len(),
                k + cols <= pieces@.len(),
                i <= cols,
                row@.len() == i,
                forall|x: int| 0 <= x < i ==> row@[x] == Cell::Hidden(pieces@[k + x]),
            decreases cols - i,
        {
            row.push(Cell::Hidden(pieces[k + i]));
            i = i + 1;
        }
        grid.push(row);
        k = k + cols;
        j = j + 1;
    }
    let ghost g = rows_view(grid@);
    assert(g.len() == rows);
    assert forall|y: int| 0 <= y < rows implies #[trigger] g[y].len() == cols by {
        assert(g[y] == grid@[y]@);
    }
    match Board::from_rows(grid) {
        Some(b) => b,
        None => {
            assert(false);
            Board::empty(rows, cols)
        },
    }
}

/// The square at column `x`, row `y` of the practice layout: Cannons and
/// Chariots of both sides in the first two columns of the outer rows, a
/// Black Soldier in front of the Red Cannon and a Red Soldier in front of
/// the Black Chariot; every other square empty.
pub open spec fn practice_cell(x: int, y: int) -> Cell {
    if x == 1 && y == 3 {
        Cell::Revealed(Piece { piece_type: PieceType::Cannon, player: Player::Red })
    } else if x == 1 && y == 0 {
        Cell::Revealed(Piece { piece_type: PieceType::Cannon, player: Player::Black })
    } else if x == 0 && y == 3 {
        Cell::Revealed(Piece { piece_type: PieceType::Chariot, player: Player::Red })
    } else if x == 0 && y == 0 {
        Cell::Revealed(Piece { piece_type: PieceType::Chariot, player: Player::Black })
    } else if x == 1 && y == 2 {
        Cell::Revealed(Piece { piece_type: PieceType::Soldier, player: Player::Black })
    } else if x == 0 && y == 1 {
        Cell::Revealed(Piece { piece_type: PieceType::Soldier, player: Player::Red })
    } else {
        Cell::Empty
    }
}

/// A standard-size board in the practice layout, for trying out Cannon and
/// Chariot moves and captures.
pub fn init_board_testing() -> (b: Board)
    ensures
        b.wf(),
        b@.len() == ROWS,
        forall|y: int| 0 <= y < ROWS ==> #[trigger] b@[y].len() == COLS,
        forall|y: int, x: int| 0 <= y < ROWS && 0 <= x < COLS ==> b@[y][x] == practice_cell(x, y),
{
    let mut b = Board::empty(ROWS, COLS);
    b.put(1, 3, Cell::Revealed(Piece { piece_type: PieceType::Cannon, player: Player::Red }));
    b.put(1, 0, Cell::Revealed(Piece { piece_type: PieceType::Cannon, player: Player::Black }));
    b.put(0, 3, Cell::Revealed(Piece { piece_type: PieceType::Chariot, player: Player::Red }));
    b.put(0, 0, Cell::Revealed(Piece { piece_type: PieceType::Chariot, player: Player::Black }));
    b.put(1, 2, Cell::Revealed(Piece { piece_type: PieceType::Soldier, player: Player::Black }));
    b.put(0, 1, Cell::Revealed(Piece { piece_type: PieceType::Soldier, player: Player::Red }));
    b
}

/// Relies on rand's `SliceRandom::shuffle`, driven by `rand::thread_rng`:
/// it only swaps items of the slice, so the result holds the same pieces,
/// in an order that chance decides.
#[verifier::external_body]
fn shuffle_pieces(pieces: &mut Vec<Piece>)
    ensures
        final(pieces)@.len() == old(pieces)@.len(),
        final(pieces)@.to_multiset() == old(pieces)@.to_multiset(),
{
    pieces.shuffle(&mut rand::thread_rng());
}

/// A new standard game: the thirty-two pieces shuffled and dealt face down
/// onto the standard board in reading order.
pub fn init_board() -> (b: Board)
    ensures
        b.wf(),
        b@.len() == ROWS,
        forall|y: int| 0 <= y < ROWS ==> #[trigger] b@[y].len() == COLS,
        exists|deal: Seq<Piece>|
            {
                &&& deal.len() == ROWS * COLS
                &&& #[trigger] deal.to_multiset() == full_set().to_multiset()
                &&& forall|y: int, x: int|
                    0 <= y < ROWS && 0 <= x < COLS ==> b@[y][x] == Cell::Hidden(deal[y * COLS + x])
            },
{
    let mut pieces = standard_pieces();
    shuffle_pieces(&mut pieces);
    let b = new_game(ROWS, COLS, &pieces);
    assert(pieces@.to_multiset() == full_set().to_multiset());
    b
}

} // verus!
