use vstd::prelude::*;
use crate::board::{Board, Cell, grid_wf, in_bounds};
use crate::piece::{Piece, PieceType};

verus! {

/// The smaller of two integers.
pub open spec fn min_of(a: int, b: int) -> int {
    if a <= b { a } else { b }
}

/// The larger of two integers.
pub open spec fn max_of(a: int, b: int) -> int {
    if a <= b { b } else { a }
}

/// Distance between two integers.
pub open spec fn dist(a: int, b: int) -> int {
    if a <= b { b - a } else { a - b }
}

/// The two squares share a column or a row.
pub open spec fn straight(fx: int, fy: int, tx: int, ty: int) -> bool {
    fx == tx || fy == ty
}

/// The two squares are orthogonal neighbours.
pub open spec fn adjacent(fx: int, fy: int, tx: int, ty: int) -> bool {
    dist(fx, tx) + dist(fy, ty) == 1
}

/// The square at column `x`, row `y` lies strictly between the two ends of
/// a straight line: on their shared column when the columns agree, else on
/// their shared row.
pub open spec fn between(fx: int, fy: int, tx: int, ty: int, x: int, y: int) -> bool {
    if fx == tx {
        x == fx && min_of(fy, ty) < y < max_of(fy, ty)
    } else {
        y == fy && min_of(fx, tx) < x < max_of(fx, tx)
    }
}

/// Every square strictly between the two ends is empty.
pub open spec fn path_clear(g: Seq<Seq<Cell>>, fx: int, fy: int, tx: int, ty: int) -> bool {
    forall|x: int, y: int| #[trigger] between(fx, fy, tx, ty, x, y) ==> g[y][x] is Empty
}

/// Number of occupied squares in column `x` at rows `lo .. hi`.
pub open spec fn occupied_in_column(g: Seq<Seq<Cell>>, x: int, lo: int, hi: int) -> nat
    decreases hi - lo,
{
    if hi <= lo {
        0
    } else {
        occupied_in_column(g, x, lo, hi - 1) + if g[hi - 1][x] is Empty { 0nat } else { 1nat }
    }
}

/// Number of occupied squares in row `y` at columns `lo .. hi`.
pub open spec fn occupied_in_row(g: Seq<Seq<Cell>>, y: int, lo: int, hi: int) -> nat
    decreases hi - lo,
{
    if hi <= lo {
        0
    } else {
        occupied_in_row(g, y, lo, hi - 1) + if g[y][hi - 1] is Empty { 0nat } else { 1nat }
    }
}

/// Number of occupied squares, hidden or revealed, strictly between the two
/// ends of a straight line.
pub open spec fn screens(g: Seq<Seq<Cell>>, fx: int, fy: int, tx: int, ty: int) -> nat {
    if fx == tx {
        occupied_in_column(g, fx, min_of(fy, ty) + 1, max_of(fy, ty))
    } else {
        occupied_in_row(g, fy, min_of(fx, tx) + 1, max_of(fx, tx))
    }
}

/// The Chariot's line: a straight move of at least one square over empty
/// squares only, onto an empty square or a face-up piece. Hidden pieces
/// block the line like face-up ones do.
pub open spec fn chariot_line_ok(g: Seq<Seq<Cell>>, fx: int, fy: int, tx: int, ty: int) -> bool {
    &&& straight(fx, fy, tx, ty)
    &&& !(fx == tx && fy == ty)
    &&& path_clear(g, fx, fy, tx, ty)
    &&& (g[ty][tx] is Empty || g[ty][tx] is Revealed)
}

/// The Cannon's jump: a straight line onto a face-up piece with exactly one
/// occupied square between, whatever that piece and the target are.
pub open spec fn cannon_jump_ok(g: Seq<Seq<Cell>>, fx: int, fy: int, tx: int, ty: int) -> bool {
    &&& straight(fx, fy, tx, ty)
    &&& g[ty][tx] is Revealed
    &&& screens(g, fx, fy, tx, ty) == 1
}

/// How a piece of kind `t` may travel: Chariot and Cannon along a clear
/// line, every other kind one square orthogonally.
pub open spec fn travel_ok(g: Seq<Seq<Cell>>, t: PieceType, fx: int, fy: int, tx: int, ty: int) -> bool {
    if t == PieceType::Cannon || t == PieceType::Chariot {
        chariot_line_ok(g, fx, fy, tx, ty)
    } else {
        adjacent(fx, fy, tx, ty)
    }
}

/// Both ends of a move lie on a rectangular grid.
pub open spec fn ends_on_board(g: Seq<Seq<Cell>>, fx: int, fy: int, tx: int, ty: int) -> bool {
    grid_wf(g) && in_bounds(g, fx, fy) && in_bounds(g, tx, ty)
}

/// Whether a Cannon at (`from_x`, `from_y`) may capture at (`to_x`, `to_y`)
/// by jumping over exactly one piece.
pub fn is_valid_cannon_capture(board: &Board, from_x: usize, from_y: usize, to_x: usize, to_y: usize) -> (r: bool)
    requires
        ends_on_board(board@, from_x as int, from_y as int, to_x as int, to_y as int),
    ensures
        r == cannon_jump_ok(board@, from_x as int, from_y as int, to_x as int, to_y as int),
{
    let ghost g = board@;
    proof {
        board.lemma_dimensions_fit();
    }
    if from_x != to_x && from_y != to_y {
        return false;
    }
    if !matches!(board.at(to_x, to_y), Cell::Revealed(_)) {
        return false;
    }
    let mut count: usize = 0;
    if from_x == to_x {
        let lo = if from_y < to_y { from_y + 1 } else { to_y + 1 };
        let hi = if from_y < to_y { to_y } else { from_y };
        let mut k: usize = lo;
        while k < hi
            invariant
                ends_on_board(g, from_x as int, from_y as int, to_x as int, to_y as int),
                board@ == g,
                lo <= k <= hi || (hi < lo && k == lo),
                hi < g.len(),
                lo as int == min_of(from_y as int, to_y as int) + 1,
                hi as int == max_of(from_y as int, to_y as int),
                count as int == occupied_in_column(g, from_x as int, lo as int, k as int),
                count <= k,
            decreases hi - k,
        {
            assert(g[k as int].len() == g[0].len() && g[from_y as int].len() == g[0].len());
            if !matches!(board.at(from_x, k), Cell::Empty) {
                count = count + 1;
            }
            k = k + 1;
        }
    } else {
        let lo = if from_x < to_x { from_x + 1 } else { to_x + 1 };
        let hi = if from_x < to_x { to_x } else { from_x };
        let mut k: usize = lo;
        while k < hi
            invariant
                ends_on_board(g, from_x as int, from_y as int, to_x as int, to_y as int),
                board@ == g,
                lo <= k <= hi || (hi < lo && k == lo),
                hi < g[from_y as int].len(),
                lo as int == min_of(from_x as int, to_x as int) + 1,
                hi as int == max_of(from_x as int, to_x as int),
                count as int == occupied_in_row(g, from_y as int, lo as int, k as int),
                count <= k,
            decreases hi - k,
        {
            if !matches!(board.at(k, from_y), Cell::Empty) {
                count = count + 1;
            }
            k = k + 1;
        }
    }
    count == 1
}

/// Whether a Chariot (or a Cannon that does not capture) may go from
/// (`from_x`, `from_y`) to (`to_x`, `to_y`): a straight line over empty
/// squares only, onto an empty square or a face-up piece.
pub fn is_valid_chariot_move_or_capture(board: &Board, from_x: usize, from_y: usize, to_x: usize, to_y: usize) -> (r: bool)
    requires
        ends_on_board(board@, from_x as int, from_y as int, to_x as int, to_y as int),
    ensures
        r == chariot_line_ok(board@, from_x as int, from_y as int, to_x as int, to_y as int),
{
    let ghost g = board@;
    proof {
        board.lemma_dimensions_fit();
    }
    if from_x != to_x && from_y != to_y {
        return false;
    }
    if from_x == to_x && from_y == to_y {
        return false;
    }
    if matches!(board.at(to_x, to_y), Cell::Hidden(_)) {
        return false;
    }
    if from_x == to_x {
        let lo = if from_y < to_y { from_y + 1 } else { to_y + 1 };
        let hi = if from_y < to_y { to_y } else { from_y };
        let mut k: usize = lo;
        while k < hi
            invariant
                ends_on_board(g, from_x as int, from_y as int, to_x as int, to_y as int),
                board@ == g,
                from_x == to_x,
                lo <= k <= hi,
                hi < g.len(),
                lo as int == min_of(from_y as int, to_y as int) + 1,
                hi as int == max_of(from_y as int, to_y as int),
                forall|y: int| lo <= y < k ==> g[y][from_x as int] is Empty,
            decreases hi - k,
        {
            assert(g[k as int].len() == g[0].len() && g[from_y as int].len() == g[0].len());
            if !matches!(board.at(from_x, k), Cell::Empty) {
                assert(between(from_x as int, from_y as int, to_x as int, to_y as int, from_x as int, k as int));
                return false;
            }
            k = k + 1;
        }
    } else {
        let lo = if from_x < to_x { from_x + 1 } else { to_x + 1 };
        let hi = if from_x < to_x { to_x } else { from_x };
        let mut k: usize = lo;
        while k < hi
            invariant
                ends_on_board(g, from_x as int, from_y as int, to_x as int, to_y as int),
                board@ == g,
                from_y == to_y,
                from_x != to_x,
                lo <= k <= hi,
                hi < g[from_y as int].len(),
                lo as int == min_of(from_x as int, to_x as int) + 1,
                hi as int == max_of(from_x as int, to_x as int),
                forall|x: int| lo <= x < k ==> g[from_y as int][x] is Empty,
            decreases hi - k,
        {
            if !matches!(board.at(k, from_y), Cell::Empty) {
                assert(between(from_x as int, from_y as int, to_x as int, to_y as int, k as int, from_y as int));
                return false;
            }
            k = k + 1;
        }
    }
    true
}

/// Whether `piece` may travel from (`from_x`, `from_y`) to (`to_x`, `to_y`):
/// Chariot and Cannon along a clear straight line, every other kind to one
/// of the four orthogonal neighbours.
pub fn valid_move_for_piece(piece: Piece, from_x: usize, from_y: usize, to_x: usize, to_y: usize, board: &Board) -> (r: bool)
    requires
        ends_on_board(board@, from_x as int, from_y as int, to_x as int, to_y as int),
    ensures
        r == travel_ok(board@, piece.piece_type, from_x as int, from_y as int, to_x as int, to_y as int),
{
    proof {
        board.lemma_dimensions_fit();
    }
    match piece.piece_type {
        PieceType::Cannon | PieceType::Chariot => is_valid_chariot_move_or_capture(board, from_x, from_y, to_x, to_y),
        _ => {
            (from_x == to_x && (from_y + 1 == to_y || to_y + 1 == from_y))
                || (from_y == to_y && (from_x + 1 == to_x || to_x + 1 == from_x))
        },
    }
}

} // verus!
