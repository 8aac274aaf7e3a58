//! The grid of the dungeon and the rectangles of cells that are laid on it.

use crate::components::tile::{FloorVariant, TileVariant};
use vstd::prelude::*;

verus! {

/// Width of the grid, in tiles.
pub const UNIT_WIDTH: usize = 80;

/// Height of the grid, in tiles.
pub const UNIT_HEIGHT: usize = 40;

/// Number of cells of the grid.
pub const CELLS: usize = 3200;

/// Whether `(x, y)` names a cell of the grid.
pub open spec fn in_grid(x: int, y: int) -> bool {
    0 <= x < UNIT_WIDTH && 0 <= y < UNIT_HEIGHT
}

/// Place of the cell `(x, y)` in the grid's contents, which hold column after column.
pub open spec fn cell_index(x: int, y: int) -> int {
    x * UNIT_HEIGHT + y
}

/// The cell `(x, y)` of a grid's contents.
pub open spec fn cell(g: Seq<TileVariant>, x: int, y: int) -> TileVariant {
    g[cell_index(x, y)]
}

/// Column of the cell at place `i` of a grid's contents.
pub open spec fn column_of(i: int) -> int {
    i / (UNIT_HEIGHT as int)
}

/// Row of the cell at place `i` of a grid's contents.
pub open spec fn row_of(i: int) -> int {
    i % (UNIT_HEIGHT as int)
}

/// The grid of the dungeon: `UNIT_WIDTH` columns of `UNIT_HEIGHT` cells.
pub struct Grid {
    cells: Vec<TileVariant>,
}

impl View for Grid {
    type V = Seq<TileVariant>;

    closed spec fn view(&self) -> Seq<TileVariant> {
        self.cells@
    }
}

impl Grid {
    /// The grid has all its cells.
    pub open spec fn wf(&self) -> bool {
        self@.len() == CELLS
    }

    /// A grid of solid rock: every cell is ceiling.
    pub fn new() -> (g: Grid)
        ensures
            g.wf(),
            forall|i: int| 0 <= i < CELLS ==> g@[i] == TileVariant::Ceiling,
    {
        let mut cells: Vec<TileVariant> = Vec::new();
        let mut i: usize = 0;
        while i < CELLS
            invariant
                i <= CELLS,
                cells@.len() == i,
                forall|k: int| 0 <= k < i ==> cells@[k] == TileVariant::Ceiling,
            decreases CELLS - i,
        {
            cells.push(TileVariant::Ceiling);
            i += 1;
        }
        Grid { cells }
    }

    /// Whether the grid has all its cells (see [`Grid::wf`]).
    pub fn is_whole(&self) -> (b: bool)
        ensures
            b == self.wf(),
    {
        self.cells.len() == CELLS
    }

    /// The cell `(x, y)`.
    pub fn get(&self, x: usize, y: usize) -> (v: TileVariant)
        requires
            self.wf(),
            in_grid(x as int, y as int),
        ensures
            v == cell(self@, x as int, y as int),
    {
        self.cells[x * UNIT_HEIGHT + y]
    }

    /// Puts `v` into the cell `(x, y)`.
    pub fn set(&mut self, x: usize, y: usize, v: TileVariant)
        requires
            old(self).wf(),
            in_grid(x as int, y as int),
        ensures
            final(self)@ == old(self)@.update(cell_index(x as int, y as int), v),
            final(self).wf(),
            forall|cx: int, cy: int|
                in_grid(cx, cy) ==> #[trigger] cell(final(self)@, cx, cy) == (if cx == x && cy == y {
                    v
                } else {
                    cell(old(self)@, cx, cy)
                }),
    {
        self.cells[x * UNIT_HEIGHT + y] = v;
    }

    /// A copy of the grid.
    pub fn duplicate(&self) -> (g: Grid)
        ensures
            g@ == self@,
    {
        let mut cells: Vec<TileVariant> = Vec::new();
        let n = self.cells.len();
        let mut i: usize = 0;
        while i < n
            invariant
                n == self.cells@.len(),
                i <= n,
                cells@.len() == i,
                forall|k: int| 0 <= k < i ==> cells@[k] == self.cells@[k],
            decreases n - i,
        {
            cells.push(self.cells[i]);
            i += 1;
        }
        Grid { cells }
    }
}

/// Whether a tile is ceiling.
pub fn is_ceiling(tile: &TileVariant) -> (b: bool)
    ensures
        b == (*tile is Ceiling),
{
    match tile {
        TileVariant::Ceiling => true,
        _ => false,
    }
}

/// Whether the cell `p` lies in the grid and is floor.
pub open spec fn floor_at(g: Seq<TileVariant>, p: (int, int)) -> bool {
    in_grid(p.0, p.1) && cell(g, p.0, p.1).floor()
}

/// Whether the cell `(x, y)` lies in the grid and is ceiling.
pub open spec fn ceiling_at(g: Seq<TileVariant>, x: int, y: int) -> bool {
    in_grid(x, y) && cell(g, x, y) is Ceiling
}

/// Whether the cell `(x, y)` lies in the grid and bounds the floor: it is ceiling or wall.
pub open spec fn solid_at(g: Seq<TileVariant>, x: int, y: int) -> bool {
    in_grid(x, y) && cell(g, x, y).boundary()
}

/// Whether the grid has no floor at all.
pub open spec fn no_floor(g: Seq<TileVariant>) -> bool {
    forall|x: int, y: int| !floor_at(g, (x, y))
}

/// Whether every floor cell of `g` is floor in `h` too.
pub open spec fn floor_kept(g: Seq<TileVariant>, h: Seq<TileVariant>) -> bool {
    forall|x: int, y: int| floor_at(g, (x, y)) ==> floor_at(h, (x, y))
}

/// Whether every cell of the area is floor.
pub open spec fn all_floor(g: Seq<TileVariant>, area: Area) -> bool {
    forall|x: int, y: int| area.holds(x, y) ==> floor_at(g, (x, y))
}

/// Cells and places in the contents correspond one to one.
pub proof fn lemma_cell_index(x: int, y: int)
    requires
        in_grid(x, y),
    ensures
        0 <= cell_index(x, y) < CELLS,
        column_of(cell_index(x, y)) == x,
        row_of(cell_index(x, y)) == y,
{
}

/// Every place in the contents is that of a cell.
pub proof fn lemma_index_cell(i: int)
    requires
        0 <= i < CELLS,
    ensures
        in_grid(column_of(i), row_of(i)),
        cell_index(column_of(i), row_of(i)) == i,
{
}

/// Two grids with the same cells are the same grid.
pub proof fn lemma_same_cells(g: Seq<TileVariant>, h: Seq<TileVariant>)
    requires
        g.len() == CELLS,
        h.len() == CELLS,
        forall|x: int, y: int| in_grid(x, y) ==> cell(g, x, y) == cell(h, x, y),
    ensures
        g == h,
{
    assert forall|i: int| 0 <= i < CELLS implies g[i] == h[i] by {
        lemma_index_cell(i);
    }
}

/// A rectangle of cells given by its first and last column and row.
pub struct Area {
    pub left: int,
    pub right: int,
    pub bottom: int,
    pub top: int,
}

impl Area {
    /// Whether the area holds the cell `(x, y)`.
    pub open spec fn holds(self, x: int, y: int) -> bool {
        self.left <= x <= self.right && self.bottom <= y <= self.top
    }

    /// Whether the area lies in the grid.
    pub open spec fn in_grid(self) -> bool {
        0 <= self.left && self.right < UNIT_WIDTH && 0 <= self.bottom && self.top < UNIT_HEIGHT
    }
}

/// The grid with plain floor laid over an area.
pub open spec fn stamped(g: Seq<TileVariant>, area: Area) -> Seq<TileVariant> {
    Seq::new(
        g.len(),
        |i: int|
            if area.holds(column_of(i), row_of(i)) {
                TileVariant::Floor(FloorVariant::Empty)
            } else {
                g[i]
            },
    )
}

/// What laying floor over an area does to each cell.
pub proof fn lemma_stamped_cells(g: Seq<TileVariant>, area: Area)
    requires
        g.len() == CELLS,
    ensures
        stamped(g, area).len() == CELLS,
        forall|x: int, y: int|
            in_grid(x, y) ==> #[trigger] cell(stamped(g, area), x, y) == (if area.holds(x, y) {
                TileVariant::Floor(FloorVariant::Empty)
            } else {
                cell(g, x, y)
            }),
        floor_kept(g, stamped(g, area)),
        area.in_grid() ==> all_floor(stamped(g, area), area),
{
    let h = stamped(g, area);
    assert forall|x: int, y: int| in_grid(x, y) implies #[trigger] cell(h, x, y) == (if area.holds(
        x,
        y,
    ) {
        TileVariant::Floor(FloorVariant::Empty)
    } else {
        cell(g, x, y)
    }) by {
        lemma_cell_index(x, y);
    }
}

/// Floor may be laid over two areas in either order.
pub proof fn lemma_stamps_commute(g: Seq<TileVariant>, a: Area, b: Area)
    ensures
        stamped(stamped(g, a), b) == stamped(stamped(g, b), a),
{
}

} // verus!
