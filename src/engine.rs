use vstd::prelude::*;
use crate::board::{Board, Cell, grid_wf, in_bounds, same_shape, set_cell};
use crate::piece::{Piece, PieceType, Player, can_capture, capture_allowed};
use crate::rules::{
    between, cannon_jump_ok, chariot_line_ok, ends_on_board, is_valid_cannon_capture, travel_ok, valid_move_for_piece,
};

verus! {

/// Why an action was refused. A refused action leaves the board and the
/// history as they were.
#[derive(Debug, Clone, Copy, PartialEq, Eq, Structural)]
pub enum GameError {
    /// A coordinate lies off the board.
    OutOfBounds,
    /// The square to flip holds no face-down piece.
    InvalidAction,
    /// The square to move from holds no face-up piece.
    NoPieceAtSource,
    /// The piece cannot travel to the target square.
    IllegalMove,
    /// The target is a piece of the same side, or one the attacker may not take.
    IllegalCapture,
    /// The history is empty.
    NothingToUndo,
}

/// The message shown to the player for each error.
pub open spec fn error_text(e: GameError) -> Seq<char> {
    match e {
        GameError::OutOfBounds => "Coordinates out of bounds."@,
        GameError::InvalidAction => "Invalid flip action."@,
        GameError::NoPieceAtSource => "No piece to move."@,
        GameError::IllegalMove => "Invalid move."@,
        GameError::IllegalCapture => "Cannot capture this piece."@,
        GameError::NothingToUndo => "No moves to undo."@,
    }
}

impl GameError {
    /// A short message for the player.
    pub fn message(&self) -> (r: &'static str)
        ensures
            r@ == error_text(*self),
    {
        match self {
            GameError::OutOfBounds => "Coordinates out of bounds.",
            GameError::InvalidAction => "Invalid flip action.",
            GameError::NoPieceAtSource => "No piece to move.",
            GameError::IllegalMove => "Invalid move.",
            GameError::IllegalCapture => "Cannot capture this piece.",
            GameError::NothingToUndo => "No moves to undo.",
        }
    }
}

/// What an applied action did, with its coordinates.
#[derive(Debug, Clone, Copy, PartialEq, Eq, Structural)]
pub enum ActionType {
    Flip { x: usize, y: usize },
    Move { from_x: usize, from_y: usize, to_x: usize, to_y: usize },
}

/// One entry of the history: the action, the piece flipped or moved, and
/// the piece captured by a move, if any. It holds all that undoing needs.
#[derive(Debug, Clone, Copy, PartialEq, Eq, Structural)]
pub struct GameMove {
    pub action_type: ActionType,
    pub piece: Piece,
    pub captured_piece: Option<Piece>,
}

/// Outcome of flipping the square at column `x`, row `y`.
pub open spec fn flip_outcome(g: Seq<Seq<Cell>>, x: int, y: int) -> Result<GameMove, GameError> {
    if !in_bounds(g, x, y) {
        Err(GameError::OutOfBounds)
    } else {
        match g[y][x] {
            Cell::Hidden(p) => Ok(
                GameMove { action_type: ActionType::Flip { x: x as usize, y: y as usize }, piece: p, captured_piece: None },
            ),
            _ => Err(GameError::InvalidAction),
        }
    }
}

/// Outcome of moving the piece at (`fx`, `fy`) to (`tx`, `ty`).
///
/// Only an empty square or a face-up piece can be a target: a face-down
/// piece is never moved onto, by any kind. A Cannon captures by its jump
/// rule alone, whatever the ranks; any other piece must
/// outrank (or tie) the defender by the capture table, and then must be
/// able to travel there.
pub open spec fn move_outcome(g: Seq<Seq<Cell>>, fx: int, fy: int, tx: int, ty: int) -> Result<GameMove, GameError> {
    if !in_bounds(g, fx, fy) || !in_bounds(g, tx, ty) {
        Err(GameError::OutOfBounds)
    } else {
        let action = ActionType::Move {
            from_x: fx as usize,
            from_y: fy as usize,
            to_x: tx as usize,
            to_y: ty as usize,
        };
        match g[fy][fx] {
            Cell::Revealed(a) => match g[ty][tx] {
                Cell::Empty => if travel_ok(g, a.piece_type, fx, fy, tx, ty) {
                    Ok(GameMove { action_type: action, piece: a, captured_piece: None })
                } else {
                    Err(GameError::IllegalMove)
                },
                Cell::Hidden(_) => Err(GameError::IllegalMove),
                Cell::Revealed(d) => if a.player == d.player {
                    Err(GameError::IllegalCapture)
                } else if a.piece_type == PieceType::Cannon {
                    if cannon_jump_ok(g, fx, fy, tx, ty) {
                        Ok(GameMove { action_type: action, piece: a, captured_piece: Some(d) })
                    } else {
                        Err(GameError::IllegalCapture)
                    }
                } else if !capture_allowed(a.piece_type, d.piece_type) {
                    Err(GameError::IllegalCapture)
                } else if travel_ok(g, a.piece_type, fx, fy, tx, ty) {
                    Ok(GameMove { action_type: action, piece: a, captured_piece: Some(d) })
                } else {
                    Err(GameError::IllegalMove)
                },
            },
            _ => Err(GameError::NoPieceAtSource),
        }
    }
}

/// The grid after the action of `m`.
pub open spec fn apply_move(g: Seq<Seq<Cell>>, m: GameMove) -> Seq<Seq<Cell>> {
    match m.action_type {
        ActionType::Flip { x, y } => set_cell(g, x as int, y as int, Cell::Revealed(m.piece)),
        ActionType::Move { from_x, from_y, to_x, to_y } => set_cell(
            set_cell(g, to_x as int, to_y as int, Cell::Revealed(m.piece)),
            from_x as int,
            from_y as int,
            Cell::Empty,
        ),
    }
}

/// The grid with the action of `m` taken back.
pub open spec fn revert_move(g: Seq<Seq<Cell>>, m: GameMove) -> Seq<Seq<Cell>> {
    match m.action_type {
        ActionType::Flip { x, y } => set_cell(g, x as int, y as int, Cell::Hidden(m.piece)),
        ActionType::Move { from_x, from_y, to_x, to_y } => set_cell(
            set_cell(g, from_x as int, from_y as int, Cell::Revealed(m.piece)),
            to_x as int,
            to_y as int,
            match m.captured_piece {
                Some(c) => Cell::Revealed(c),
                None => Cell::Empty,
            },
        ),
    }
}

/// The squares that a history entry touches lie on the grid.
pub open spec fn move_on_grid(g: Seq<Seq<Cell>>, m: GameMove) -> bool {
    match m.action_type {
        ActionType::Flip { x, y } => in_bounds(g, x as int, y as int),
        ActionType::Move { from_x, from_y, to_x, to_y } => in_bounds(g, from_x as int, from_y as int)
            && in_bounds(g, to_x as int, to_y as int),
    }
}

/// Turns the face-down piece at column `x`, row `y` face up.
pub fn flip_piece(board: &mut Board, x: usize, y: usize) -> (r: Result<GameMove, GameError>)
    requires
        old(board).wf(),
    ensures
        r == flip_outcome(old(board)@, x as int, y as int),
        final(board).wf(),
        same_shape(old(board)@, final(board)@),
        r matches Ok(m) ==> final(board)@ == apply_move(old(board)@, m),
        r is Err ==> final(board)@ == old(board)@,
{
    if !board.contains(x, y) {
        return Err(GameError::OutOfBounds);
    }
    match board.at(x, y) {
        Cell::Hidden(piece) => {
            board.put(x, y, Cell::Revealed(piece));
            Ok(GameMove { action_type: ActionType::Flip { x, y }, piece, captured_piece: None })
        },
        _ => Err(GameError::InvalidAction),
    }
}

/// Moves the face-up piece at (`from_x`, `from_y`) to (`to_x`, `to_y`),
/// capturing what stands there, under the rules of `move_outcome`.
pub fn move_piece(board: &mut Board, from_x: usize, from_y: usize, to_x: usize, to_y: usize) -> (r: Result<GameMove, GameError>)
    requires
        old(board).wf(),
    ensures
        r == move_outcome(old(board)@, from_x as int, from_y as int, to_x as int, to_y as int),
        final(board).wf(),
        same_shape(old(board)@, final(board)@),
        r matches Ok(m) ==> final(board)@ == apply_move(old(board)@, m),
        r is Err ==> final(board)@ == old(board)@,
{
    if !board.contains(from_x, from_y) || !board.contains(to_x, to_y) {
        return Err(GameError::OutOfBounds);
    }
    let attacker = match board.at(from_x, from_y) {
        Cell::Revealed(p) => p,
        _ => return Err(GameError::NoPieceAtSource),
    };
    let action = ActionType::Move { from_x, from_y, to_x, to_y };
    let captured = match board.at(to_x, to_y) {
        Cell::Empty => {
            if !valid_move_for_piece(attacker, from_x, from_y, to_x, to_y, board) {
                return Err(GameError::IllegalMove);
            }
            None
        },
        Cell::Hidden(_) => return Err(GameError::IllegalMove),
        Cell::Revealed(defender) => {
            if attacker.player == defender.player {
                return Err(GameError::IllegalCapture);
            }
            if attacker.piece_type == PieceType::Cannon {
                if !is_valid_cannon_capture(board, from_x, from_y, to_x, to_y) {
                    return Err(GameError::IllegalCapture);
                }
            } else {
                if !can_capture(attacker, defender) {
                    return Err(GameError::IllegalCapture);
                }
                if !valid_move_for_piece(attacker, from_x, from_y, to_x, to_y, board) {
                    return Err(GameError::IllegalMove);
                }
            }
            Some(defender)
        },
    };
    board.put(to_x, to_y, Cell::Revealed(attacker));
    board.put(from_x, from_y, Cell::Empty);
    Ok(GameMove { action_type: action, piece: attacker, captured_piece: captured })
}

/// Takes back the last entry of `moves_history` and restores the board as
/// it was before that action.
pub fn undo_last_move(board: &mut Board, moves_history: &mut Vec<GameMove>) -> (r: Result<(), GameError>)
    requires
        old(board).wf(),
        old(moves_history)@.len() > 0 ==> move_on_grid(old(board)@, old(moves_history)@.last()),
    ensures
        final(board).wf(),
        same_shape(old(board)@, final(board)@),
        old(moves_history)@.len() == 0 ==> r == Err::<(), GameError>(GameError::NothingToUndo)
            && final(board)@ == old(board)@ && final(moves_history)@ == old(moves_history)@,
        old(moves_history)@.len() > 0 ==> r == Ok::<(), GameError>(())
            && final(moves_history)@ == old(moves_history)@.drop_last()
            && final(board)@ == revert_move(old(board)@, old(moves_history)@.last()),
{
    let last = match moves_history.pop() {
        Some(m) => m,
        None => return Err(GameError::NothingToUndo),
    };
    match last.action_type {
        ActionType::Flip { x, y } => {
            board.put(x, y, Cell::Hidden(last.piece));
        },
        ActionType::Move { from_x, from_y, to_x, to_y } => {
            board.put(from_x, from_y, Cell::Revealed(last.piece));
            let restored = match last.captured_piece {
                Some(c) => Cell::Revealed(c),
                None => Cell::Empty,
            };
            board.put(to_x, to_y, restored);
        },
    }
    Ok(())
}

/// The square at column `x`, row `y` holds a face-down piece.
pub open spec fn hidden_at(g: Seq<Seq<Cell>>, x: int, y: int) -> bool {
    in_bounds(g, x, y) && g[y][x] is Hidden
}

/// The square at column `x`, row `y` holds a face-up piece of `side`.
pub open spec fn side_at(g: Seq<Seq<Cell>>, side: Player, x: int, y: int) -> bool {
    in_bounds(g, x, y) && match g[y][x] {
        Cell::Revealed(p) => p.player == side,
        _ => false,
    }
}

/// The game is over when no piece is face down and one side (or both) has
/// no face-up piece left.
pub open spec fn game_over(g: Seq<Seq<Cell>>) -> bool {
    &&& !exists|x: int, y: int| hidden_at(g, x, y)
    &&& (!exists|x: int, y: int| side_at(g, Player::Red, x, y))
        || (!exists|x: int, y: int| side_at(g, Player::Black, x, y))
}

/// Square (`x`, `y`) comes before square (`i`, `j`) in reading order.
pub open spec fn before(x: int, y: int, i: int, j: int) -> bool {
    y < j || (y == j && x < i)
}

/// Whether the game has ended. The winner is the side that still has pieces.
pub fn check_game_over(board: &Board) -> (r: bool)
    requires
        board.wf(),
    ensures
        r == game_over(board@),
{
    let ghost g = board@;
    let rows = board.rows();
    let cols = board.cols();
    let mut hidden = false;
    let mut red = false;
    let mut black = false;
    let mut j: usize = 0;
    while j < rows
        invariant
            board@ == g,
            grid_wf(g),
            rows == g.len(),
            rows > 0 ==> cols == g[0].len(),
            j <= rows,
            hidden == exists|x: int, y: int| hidden_at(g, x, y) && y < j,
            red == exists|x: int, y: int| side_at(g, Player::Red, x, y) && y < j,
            black == exists|x: int, y: int| side_at(g, Player::Black, x, y) && y < j,
        decreases rows - j,
    {
        assert(g[j as int].len() == cols);
        let mut i: usize = 0;
        while i < cols
            invariant
                board@ == g,
                grid_wf(g),
                rows == g.len(),
                j < rows,
                cols == g[j as int].len(),
                i <= cols,
                hidden == exists|x: int, y: int| hidden_at(g, x, y) && before(x, y, i as int, j as int),
                red == exists|x: int, y: int| side_at(g, Player::Red, x, y) && before(x, y, i as int, j as int),
                black == exists|x: int, y: int| side_at(g, Player::Black, x, y) && before(x, y, i as int, j as int),
            decreases cols - i,
        {
            match board.at(i, j) {
                Cell::Hidden(_) => {
                    hidden = true;
                },
                Cell::Revealed(p) => match p.player {
                    Player::Red => {
                        red = true;
                    },
                    Player::Black => {
                        black = true;
                    },
                },
                Cell::Empty => {},
            }
            proof {
                assert forall|x: int, y: int|
                    #[trigger] before(x, y, i + 1, j as int) == (before(x, y, i as int, j as int) || (x == i
                        && y == j)) by {}
                if hidden_at(g, i as int, j as int) {
                    assert(before(i as int, j as int, i + 1, j as int));
                }
                if side_at(g, Player::Red, i as int, j as int) {
                    assert(before(i as int, j as int, i + 1, j as int));
                }
                if side_at(g, Player::Black, i as int, j as int) {
                    assert(before(i as int, j as int, i + 1, j as int));
                }
            }
            i = i + 1;
        }
        j = j + 1;
    }
    !hidden && (!red || !black)
}

/// A face-down piece turned face up; any other square is unchanged.
pub open spec fn revealed(c: Cell) -> Cell {
    match c {
        Cell::Hidden(p) => Cell::Revealed(p),
        _ => c,
    }
}

/// Turns every face-down piece face up, without recording history.
pub fn flip_all_pieces(board: &mut Board)
    requires
        old(board).wf(),
    ensures
        final(board).wf(),
        final(board)@.len() == old(board)@.len(),
        forall|y: int| 0 <= y < old(board)@.len() ==> #[trigger] final(board)@[y].len() == old(board)@[y].len(),
        forall|x: int, y: int| in_bounds(old(board)@, x, y)
            ==> #[trigger] final(board)@[y][x] == revealed(old(board)@[y][x]),
{
    let ghost g = board@;
    let rows = board.rows();
    let cols = board.cols();
    let mut j: usize = 0;
    while j < rows
        invariant
            grid_wf(g),
            board.wf(),
            rows == g.len(),
            rows > 0 ==> cols == g[0].len(),
            j <= rows,
            board@.len() == g.len(),
            forall|y: int| 0 <= y < g.len() ==> #[trigger] board@[y].len() == g[y].len(),
            forall|x: int, y: int| in_bounds(g, x, y)
                ==> #[trigger] board@[y][x] == if y < j { revealed(g[y][x]) } else { g[y][x] },
        decreases rows - j,
    {
        assert(g[j as int].len() == cols);
        let mut i: usize = 0;
        while i < cols
            invariant
                grid_wf(g),
                board.wf(),
                rows == g.len(),
                j < rows,
                cols == g[j as int].len(),
                i <= cols,
                board@.len() == g.len(),
                forall|y: int| 0 <= y < g.len() ==> #[trigger] board@[y].len() == g[y].len(),
                forall|x: int, y: int| in_bounds(g, x, y)
                    ==> #[trigger] board@[y][x] == if before(x, y, i as int, j as int) {
                        revealed(g[y][x])
                    } else {
                        g[y][x]
                    },
            decreases cols - i,
        {
            if let Cell::Hidden(p) = board.at(i, j) {
                board.put(i, j, Cell::Revealed(p));
            }
            i = i + 1;
        }
        j = j + 1;
    }
}

/// Undoing a successful flip restores the board exactly; the flipped square
/// stays on the board, so the entry can be undone.
pub proof fn lemma_undo_flip(g: Seq<Seq<Cell>>, x: usize, y: usize)
    requires
        grid_wf(g),
        flip_outcome(g, x as int, y as int) is Ok,
    ensures
        ({
            let m = flip_outcome(g, x as int, y as int)->Ok_0;
            &&& grid_wf(apply_move(g, m))
            &&& move_on_grid(apply_move(g, m), m)
            &&& revert_move(apply_move(g, m), m) == g
        }),
{
    let m = flip_outcome(g, x as int, y as int)->Ok_0;
    assert(revert_move(apply_move(g, m), m) =~~= g);
    assert(grid_wf(apply_move(g, m))) by {
        assert forall|i: int| 0 <= i < apply_move(g, m).len() implies #[trigger] apply_move(g, m)[i].len()
            == apply_move(g, m)[0].len() by {
            assert(g[i].len() == g[0].len());
        }
    }
}

/// Undoing a successful move or capture restores the board exactly: the
/// mover goes back and a captured piece comes back face up.
pub proof fn lemma_undo_move(g: Seq<Seq<Cell>>, fx: usize, fy: usize, tx: usize, ty: usize)
    requires
        grid_wf(g),
        move_outcome(g, fx as int, fy as int, tx as int, ty as int) is Ok,
    ensures
        ({
            let m = move_outcome(g, fx as int, fy as int, tx as int, ty as int)->Ok_0;
            &&& grid_wf(apply_move(g, m))
            &&& move_on_grid(apply_move(g, m), m)
            &&& revert_move(apply_move(g, m), m) == g
        }),
{
    let m = move_outcome(g, fx as int, fy as int, tx as int, ty as int)->Ok_0;
    assert(!(fx == tx && fy == ty));
    assert(revert_move(apply_move(g, m), m) =~~= g);
    assert(grid_wf(apply_move(g, m))) by {
        assert forall|i: int| 0 <= i < apply_move(g, m).len() implies #[trigger] apply_move(g, m)[i].len()
            == apply_move(g, m)[0].len() by {
            assert(g[i].len() == g[0].len());
        }
    }
}

/// A Cannon's capture of an enemy piece succeeds exactly when its jump is
/// right: a straight line over exactly one occupied square. The defender's
/// rank plays no part, so a Cannon can take a General, and a jump over no
/// piece or over two or more fails, whatever the defender.
pub proof fn lemma_cannon_capture_by_jump(g: Seq<Seq<Cell>>, fx: usize, fy: usize, tx: usize, ty: usize)
    requires
        ends_on_board(g, fx as int, fy as int, tx as int, ty as int),
        g[fy as int][fx as int] matches Cell::Revealed(a) && a.piece_type == PieceType::Cannon,
        g[ty as int][tx as int] matches Cell::Revealed(d)
            && d.player != g[fy as int][fx as int]->Revealed_0.player,
    ensures
        cannon_jump_ok(g, fx as int, fy as int, tx as int, ty as int) ==> move_outcome(
            g,
            fx as int,
            fy as int,
            tx as int,
            ty as int,
        ) == Ok::<GameMove, GameError>(
            GameMove {
                action_type: ActionType::Move { from_x: fx, from_y: fy, to_x: tx, to_y: ty },
                piece: g[fy as int][fx as int]->Revealed_0,
                captured_piece: Some(g[ty as int][tx as int]->Revealed_0),
            },
        ),
        !cannon_jump_ok(g, fx as int, fy as int, tx as int, ty as int) ==> move_outcome(
            g,
            fx as int,
            fy as int,
            tx as int,
            ty as int,
        ) == Err::<GameMove, GameError>(GameError::IllegalCapture),
{
}

/// A Chariot whose line holds an occupied square (face up or face down)
/// cannot move or capture along it.
pub proof fn lemma_chariot_blocked(g: Seq<Seq<Cell>>, fx: usize, fy: usize, tx: usize, ty: usize, x: int, y: int)
    requires
        ends_on_board(g, fx as int, fy as int, tx as int, ty as int),
        g[fy as int][fx as int] matches Cell::Revealed(a) && a.piece_type == PieceType::Chariot,
        between(fx as int, fy as int, tx as int, ty as int, x, y),
        !(g[y][x] is Empty),
    ensures
        !chariot_line_ok(g, fx as int, fy as int, tx as int, ty as int),
        move_outcome(g, fx as int, fy as int, tx as int, ty as int) is Err,
{
}

/// A Chariot with a clear straight line reaches any empty square on it, and
/// its line reaches any enemy piece on it; whether it may take that piece
/// is then the capture table's decision.
pub proof fn lemma_chariot_clear(g: Seq<Seq<Cell>>, fx: usize, fy: usize, tx: usize, ty: usize)
    requires
        ends_on_board(g, fx as int, fy as int, tx as int, ty as int),
        g[fy as int][fx as int] matches Cell::Revealed(a) && a.piece_type == PieceType::Chariot,
        fx == tx || fy == ty,
        !(fx == tx && fy == ty),
        crate::rules::path_clear(g, fx as int, fy as int, tx as int, ty as int),
        g[ty as int][tx as int] is Empty || (g[ty as int][tx as int] matches Cell::Revealed(d)
            && d.player != g[fy as int][fx as int]->Revealed_0.player),
    ensures
        chariot_line_ok(g, fx as int, fy as int, tx as int, ty as int),
        g[ty as int][tx as int] is Empty ==> move_outcome(g, fx as int, fy as int, tx as int, ty as int) is Ok,
        g[ty as int][tx as int] matches Cell::Revealed(d) ==> (move_outcome(
            g,
            fx as int,
            fy as int,
            tx as int,
            ty as int,
        ) is Ok <==> capture_allowed(PieceType::Chariot, d.piece_type)),
{
}

/// While any square holds a face-down piece the game goes on, even when one
/// side has no face-up piece.
pub proof fn lemma_hidden_blocks_game_over(g: Seq<Seq<Cell>>, x: int, y: int)
    requires
        hidden_at(g, x, y),
    ensures
        !game_over(g),
{
}

} // verus!
