use vstd::prelude::*;
use crate::piece::Piece;

verus! {

/// One square of the board.
#[derive(Debug, Clone, Copy, PartialEq, Eq, Structural)]
pub enum Cell {
    /// A face-down piece: known to the engine, not yet in play.
    Hidden(Piece),
    /// A face-up piece, subject to the move and capture rules.
    Revealed(Piece),
    /// A square with no piece.
    Empty,
}

/// A grid is rectangular when every row is as long as the first.
pub open spec fn grid_wf(g: Seq<Seq<Cell>>) -> bool {
    forall|i: int| 0 <= i < g.len() ==> #[trigger] g[i].len() == g[0].len()
}

/// Column `x`, row `y` lies on the grid.
pub open spec fn in_bounds(g: Seq<Seq<Cell>>, x: int, y: int) -> bool {
    0 <= y < g.len() && 0 <= x < g[y].len()
}

/// The grid with the square at column `x`, row `y` replaced by `c`.
pub open spec fn set_cell(g: Seq<Seq<Cell>>, x: int, y: int, c: Cell) -> Seq<Seq<Cell>> {
    g.update(y, g[y].update(x, c))
}

/// Two grids have the same number of rows, and rows of the same lengths.
pub open spec fn same_shape(a: Seq<Seq<Cell>>, b: Seq<Seq<Cell>>) -> bool {
    a.len() == b.len() && forall|i: int| 0 <= i < a.len() ==> #[trigger] a[i].len() == b[i].len()
}

/// The view of a list of rows.
pub open spec fn rows_view(rows: Seq<Vec<Cell>>) -> Seq<Seq<Cell>> {
    rows.map_values(|r: Vec<Cell>| r@)
}

/// A rectangular grid of cells, indexed by column `x` and row `y`.
pub struct Board {
    cells: Vec<Vec<Cell>>,
}

impl View for Board {
    type V = Seq<Seq<Cell>>;

    closed spec fn view(&self) -> Seq<Seq<Cell>> {
        rows_view(self.cells@)
    }
}

impl Board {
    /// Every row of the board has the same length.
    pub open spec fn wf(&self) -> bool {
        grid_wf(self@)
    }

    /// A board of `rows` rows of `cols` empty squares.
    pub fn empty(rows: usize, cols: usize) -> (b: Board)
        ensures
            b.wf(),
            b@.len() == rows,
            forall|y: int| 0 <= y < rows ==> #[trigger] b@[y].len() == cols,
            forall|y: int, x: int| 0 <= y < rows && 0 <= x < cols ==> b@[y][x] == Cell::Empty,
    {
        let mut cells: Vec<Vec<Cell>> = Vec::new();
        let mut j: usize = 0;
        while j < rows
            invariant
                j <= rows,
                cells@.len() == j,
                forall|y: int| 0 <= y < j ==> #[trigger] cells@[y]@.len() == cols,
                forall|y: int, x: int| 0 <= y < j && 0 <= x < cols ==> cells@[y]@[x] == Cell::Empty,
            decreases rows - j,
        {
            let mut row: Vec<Cell> = Vec::new();
            let mut i: usize = 0;
            while i < cols
                invariant
                    i <= cols,
                    row@.len() == i,
                    forall|x: int| 0 <= x < i ==> row@[x] == Cell::Empty,
                decreases cols - i,
            {
                row.push(Cell::Empty);
                i = i + 1;
            }
            cells.push(row);
            j = j + 1;
        }
        let b = Board { cells };
        assert(b@.len() == rows);
        b
    }

    /// A board from its rows, or `None` when the rows differ in length.
    pub fn from_rows(rows: Vec<Vec<Cell>>) -> (r: Option<Board>)
        ensures
            r is Some <==> grid_wf(rows_view(rows@)),
            r matches Some(b) ==> b@ == rows_view(rows@) && b.wf(),
    {
        if rows.len() == 0 {
            return Some(Board { cells: rows });
        }
        let width = rows[0].len();
        let mut j: usize = 0;
        while j < rows.len()
            invariant
                j <= rows@.len(),
                rows@.len() > 0,
                width == rows@[0]@.len(),
                forall|y: int| 0 <= y < j ==> #[trigger] rows@[y]@.len() == width,
            decreases rows@.len() - j,
        {
            if rows[j].len() != width {
                assert(rows_view(rows@)[j as int].len() != rows_view(rows@)[0].len());
                return None;
            }
            j = j + 1;
        }
        assert(grid_wf(rows_view(rows@)));
        Some(Board { cells: rows })
    }

    /// Row count and row lengths fit in a `usize`.
    pub proof fn lemma_dimensions_fit(&self)
        ensures
            self@.len() <= usize::MAX,
            forall|i: int| 0 <= i < self@.len() ==> #[trigger] self@[i].len() <= usize::MAX,
    {
        assert(self.cells.len() == self.cells@.len());
        assert forall|i: int| 0 <= i < self@.len() implies #[trigger] self@[i].len() <= usize::MAX by {
            let row = self.cells@[i];
            assert(row.len() == row@.len());
        }
    }

    /// Number of rows.
    pub fn rows(&self) -> (r: usize)
        ensures
            r == self@.len(),
    {
        self.cells.len()
    }

    /// Number of columns (zero for a board without rows).
    pub fn cols(&self) -> (r: usize)
        ensures
            r == if self@.len() == 0 { 0 } else { self@[0].len() },
    {
        if self.cells.len() == 0 {
            0
        } else {
            self.cells[0].len()
        }
    }

    /// Whether column `x`, row `y` lies on the board.
    pub fn contains(&self, x: usize, y: usize) -> (r: bool)
        ensures
            r == in_bounds(self@, x as int, y as int),
    {
        y < self.cells.len() && x < self.cells[y].len()
    }

    /// The square at column `x`, row `y`, or `None` off the board.
    pub fn get(&self, x: usize, y: usize) -> (r: Option<Cell>)
        ensures
            r == if in_bounds(self@, x as int, y as int) {
                Some(self@[y as int][x as int])
            } else {
                None::<Cell>
            },
    {
        if self.contains(x, y) {
            Some(self.cells[y][x])
        } else {
            None
        }
    }

    /// The square at column `x`, row `y`, which must lie on the board.
    pub(crate) fn at(&self, x: usize, y: usize) -> (r: Cell)
        requires
            in_bounds(self@, x as int, y as int),
        ensures
            r == self@[y as int][x as int],
    {
        self.cells[y][x]
    }

    /// Puts `c` on the square at column `x`, row `y`.
    pub(crate) fn put(&mut self, x: usize, y: usize, c: Cell)
        requires
            in_bounds(old(self)@, x as int, y as int),
        ensures
            final(self)@ == set_cell(old(self)@, x as int, y as int, c),
            old(self).wf() ==> final(self).wf(),
    {
        self.cells[y][x] = c;
        assert(self@ =~= set_cell(old(self)@, x as int, y as int, c));
    }
}

} // verus!
