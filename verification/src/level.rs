//! The tile grid and the collision geometry: which walls a unit box touches.
//!
//! A populated cell in row `row` and column `col` of the grid covers the
//! unit square whose corner of least coordinates is `(col, row)`, in tiles.
//! An entity is a unit box too, named by that same corner.

use crate::units::{in_world, spec_clamp_world, ONE, WORLD_LIMIT};
use vstd::prelude::*;

verus! {

/// A populated cell of the grid.
#[derive(Clone, Copy, Debug, PartialEq, Eq, Structural)]
pub struct Tile {
    /// Whether the tile stops movement.
    pub solid: bool,
}

/// A grid of optional tiles, row by row: `floor[row][col]`.
#[derive(Debug)]
pub struct Level {
    pub floor: Vec<Vec<Option<Tile>>>,
}

/// A wall of a tile. `Top` is the wall on the side of greater `y` and
/// `Bottom` the one on the side of lesser `y`; `Left` is the wall on the
/// side of lesser `x` and `Right` the one on the side of greater `x`.
#[derive(Clone, Copy, Debug, PartialEq, Eq, Structural)]
pub enum Side {
    Top,
    Bottom,
    Left,
    Right,
}

/// The walls that one box touches in one tick.
#[derive(Clone, Copy, Debug, PartialEq, Eq, Structural)]
pub struct SideSet {
    pub top: bool,
    pub bottom: bool,
    pub left: bool,
    pub right: bool,
}

/// Whether the unit box at `(x, y)` and the cell `(col, row)` share more
/// than an edge.
pub open spec fn spec_overlaps(x: int, y: int, col: int, row: int) -> bool {
    &&& x < (col + 1) * ONE
    &&& x + ONE > col * ONE
    &&& y < (row + 1) * ONE
    &&& y + ONE > row * ONE
}

/// How far the unit box at `(x, y)` reaches into the cell `(col, row)`
/// beyond the wall `side`.
pub open spec fn spec_depth(x: int, y: int, col: int, row: int, side: Side) -> int {
    match side {
        Side::Top => (row + 1) * ONE - y,
        Side::Bottom => y + ONE - row * ONE,
        Side::Left => x + ONE - col * ONE,
        Side::Right => (col + 1) * ONE - x,
    }
}

/// The wall of the cell `(col, row)` through which the unit box at `(x, y)`
/// reaches least far into it. Among equals, `Top` comes before `Bottom`,
/// `Bottom` before `Left`, and `Left` before `Right`.
pub open spec fn spec_nearest_wall(x: int, y: int, col: int, row: int) -> Side {
    let top = spec_depth(x, y, col, row, Side::Top);
    let bottom = spec_depth(x, y, col, row, Side::Bottom);
    let left = spec_depth(x, y, col, row, Side::Left);
    let right = spec_depth(x, y, col, row, Side::Right);
    if top <= bottom && top <= left && top <= right {
        Side::Top
    } else if bottom <= left && bottom <= right {
        Side::Bottom
    } else if left <= right {
        Side::Left
    } else {
        Side::Right
    }
}

/// A box in the row of a cell, reaching into it from the side of lesser
/// `x`, overlaps the cell with the left wall nearest.
pub proof fn lemma_box_from_the_left(x: int, y: int, col: int, row: int)
    requires
        y == row * ONE,
        col * ONE - ONE < x < col * ONE,
    ensures
        spec_overlaps(x, y, col, row),
        spec_nearest_wall(x, y, col, row) == Side::Left,
{
}

/// Whether a cell can be stood on: it holds a tile, and the tile is not
/// solid.
pub open spec fn spec_is_free(cell: Option<Tile>) -> bool {
    cell matches Some(tile) && !tile.solid
}

/// The free cells among the first `cols` cells of the row `row`, each as
/// `(col, row)`, from the left.
pub open spec fn spec_free_in_row(tiles: Seq<Option<Tile>>, row: usize, cols: nat) -> Seq<
    (usize, usize),
>
    decreases cols,
{
    if cols == 0 {
        Seq::empty()
    } else {
        let before = spec_free_in_row(tiles, row, (cols - 1) as nat);
        if spec_is_free(tiles[cols - 1]) {
            before.push(((cols - 1) as usize, row))
        } else {
            before
        }
    }
}

/// The place to start from that `pick` selects: the free cell number `pick`
/// of the level, counted row by row and round and round again, as a position
/// inside the world; or the origin where the level has no free cell.
pub open spec fn spec_starting_position(level: Level, pick: int) -> (int, int) {
    let cells = level.spec_free_cells();
    if cells.len() == 0 {
        (0, 0)
    } else {
        let cell = cells[pick % (cells.len() as int)];
        (spec_clamp_world(cell.0 * ONE), spec_clamp_world(cell.1 * ONE))
    }
}

impl SideSet {
    /// Whether `side` is in the set.
    pub open spec fn has(self, side: Side) -> bool {
        match side {
            Side::Top => self.top,
            Side::Bottom => self.bottom,
            Side::Left => self.left,
            Side::Right => self.right,
        }
    }

    /// Whether no side is in the set.
    pub open spec fn spec_is_empty(self) -> bool {
        !self.top && !self.bottom && !self.left && !self.right
    }

    /// The empty set.
    pub fn empty() -> (s: SideSet)
        ensures
            s.spec_is_empty(),
    {
        SideSet { top: false, bottom: false, left: false, right: false }
    }

    /// Whether no side is in the set.
    pub fn is_empty(&self) -> (b: bool)
        ensures
            b == self.spec_is_empty(),
    {
        !self.top && !self.bottom && !self.left && !self.right
    }

    /// Whether `side` is in the set.
    pub fn contains(&self, side: Side) -> (b: bool)
        ensures
            b == self.has(side),
    {
        match side {
            Side::Top => self.top,
            Side::Bottom => self.bottom,
            Side::Left => self.left,
            Side::Right => self.right,
        }
    }

    /// Adds `side` to the set.
    pub fn insert(&mut self, side: Side)
        ensures
            final(self).has(side),
            forall|other: Side| other != side ==> final(self).has(other) == old(self).has(other),
    {
        match side {
            Side::Top => {
                self.top = true;
            },
            Side::Bottom => {
                self.bottom = true;
            },
            Side::Left => {
                self.left = true;
            },
            Side::Right => {
                self.right = true;
            },
        }
    }
}

impl Level {
    /// Whether the cell `(col, row)` holds a solid tile.
    pub open spec fn solid_at(self, row: int, col: int) -> bool {
        &&& 0 <= row < self.floor@.len()
        &&& 0 <= col < self.floor@[row]@.len()
        &&& self.floor@[row]@[col] matches Some(tile)
        &&& tile.solid
    }

    /// Whether the grid holds no solid tile.
    pub open spec fn is_open(self) -> bool {
        forall|row: int, col: int| !self.solid_at(row, col)
    }

    /// The free cells of the first `rows` rows, each as `(col, row)`, row by
    /// row.
    pub open spec fn spec_free_cells_in(self, rows: nat) -> Seq<(usize, usize)>
        decreases rows,
    {
        if rows == 0 {
            Seq::empty()
        } else {
            self.spec_free_cells_in((rows - 1) as nat) + spec_free_in_row(
                self.floor@[rows - 1]@,
                (rows - 1) as usize,
                self.floor@[rows - 1]@.len(),
            )
        }
    }

    /// The free cells of the level, each as `(col, row)`, row by row.
    pub open spec fn spec_free_cells(self) -> Seq<(usize, usize)> {
        self.spec_free_cells_in(self.floor@.len())
    }

    /// Whether the cell `(col, row)` is solid and the unit box at `(x, y)`
    /// overlaps it with `side` as the nearest wall.
    pub open spec fn hits(self, x: int, y: int, row: int, col: int, side: Side) -> bool {
        &&& self.solid_at(row, col)
        &&& spec_overlaps(x, y, col, row)
        &&& spec_nearest_wall(x, y, col, row) == side
    }

    /// Whether some cell before `(col, row)` in row-major order is hit on
    /// `side`.
    pub open spec fn hits_before(self, x: int, y: int, row: int, col: int, side: Side) -> bool {
        exists|r: int, c: int|
            (r < row || (r == row && c < col)) && #[trigger] self.hits(x, y, r, c, side)
    }

    /// Whether the unit box at `(x, y)` touches a wall `side` of some solid
    /// tile.
    pub open spec fn records(self, x: int, y: int, side: Side) -> bool {
        exists|row: int, col: int| #[trigger] self.hits(x, y, row, col, side)
    }

    /// The walls that the unit box at `(x, y)` touches: one for each solid
    /// tile that it overlaps.
    pub open spec fn spec_collision_sides(self, x: int, y: int) -> SideSet {
        SideSet {
            top: self.records(x, y, Side::Top),
            bottom: self.records(x, y, Side::Bottom),
            left: self.records(x, y, Side::Left),
            right: self.records(x, y, Side::Right),
        }
    }

    /// A box in a grid without solid tiles touches no wall.
    pub proof fn lemma_open_level_is_free(self, x: int, y: int)
        requires
            self.is_open(),
        ensures
            self.spec_collision_sides(x, y).spec_is_empty(),
    {
    }

    proof fn lemma_hits_next_cell(self, x: int, y: int, row: int, col: int, side: Side)
        ensures
            self.hits_before(x, y, row, col + 1, side) <==> (self.hits_before(x, y, row, col, side)
                || self.hits(x, y, row, col, side)),
    {
        if self.hits_before(x, y, row, col + 1, side) {
            let (r, c) = choose|r: int, c: int|
                (r < row || (r == row && c < col + 1)) && #[trigger] self.hits(x, y, r, c, side);
            if !(r == row && c == col) {
                assert((r < row || (r == row && c < col)) && self.hits(x, y, r, c, side));
            }
        }
        if self.hits_before(x, y, row, col, side) {
            let (r, c) = choose|r: int, c: int|
                (r < row || (r == row && c < col)) && #[trigger] self.hits(x, y, r, c, side);
            assert((r < row || (r == row && c < col + 1)) && self.hits(x, y, r, c, side));
        }
        if self.hits(x, y, row, col, side) {
            assert((row < row || (row == row && col < col + 1)) && self.hits(
                x,
                y,
                row,
                col,
                side,
            ));
        }
    }

    proof fn lemma_hits_next_row(self, x: int, y: int, row: int, side: Side)
        requires
            0 <= row < self.floor@.len(),
        ensures
            self.hits_before(x, y, row + 1, 0, side) <==> self.hits_before(
                x,
                y,
                row,
                self.floor@[row]@.len() as int,
                side,
            ),
    {
        let width = self.floor@[row]@.len() as int;
        if self.hits_before(x, y, row + 1, 0, side) {
            let (r, c) = choose|r: int, c: int|
                (r < row + 1 || (r == row + 1 && c < 0)) && #[trigger] self.hits(x, y, r, c, side);
            assert((r < row || (r == row && c < width)) && self.hits(x, y, r, c, side));
        }
        if self.hits_before(x, y, row, width, side) {
            let (r, c) = choose|r: int, c: int|
                (r < row || (r == row && c < width)) && #[trigger] self.hits(x, y, r, c, side);
            assert((r < row + 1 || (r == row + 1 && c < 0)) && self.hits(x, y, r, c, side));
        }
    }

    proof fn lemma_hits_all_rows(self, x: int, y: int, side: Side)
        ensures
            self.hits_before(x, y, self.floor@.len() as int, 0, side) <==> self.records(x, y, side),
    {
        let rows = self.floor@.len() as int;
        if self.records(x, y, side) {
            let (r, c) = choose|r: int, c: int| #[trigger] self.hits(x, y, r, c, side);
            assert((r < rows || (r == rows && c < 0)) && self.hits(x, y, r, c, side));
        }
    }

    /// The free cells of the level, each as `(col, row)`, row by row.
    pub fn free_cells(&self) -> (cells: Vec<(usize, usize)>)
        ensures
            cells@ == self.spec_free_cells(),
    {
        let mut cells: Vec<(usize, usize)> = Vec::new();
        let mut row: usize = 0;
        while row < self.floor.len()
            invariant
                row <= self.floor@.len(),
                cells@ == self.spec_free_cells_in(row as nat),
            decreases self.floor@.len() - row,
        {
            let ghost above = cells@;
            let mut col: usize = 0;
            while col < self.floor[row].len()
                invariant
                    row < self.floor@.len(),
                    col <= self.floor@[row as int]@.len(),
                    above == self.spec_free_cells_in(row as nat),
                    cells@ == above + spec_free_in_row(self.floor@[row as int]@, row, col as nat),
                decreases self.floor@[row as int]@.len() - col,
            {
                let ghost before = spec_free_in_row(self.floor@[row as int]@, row, col as nat);
                let mut free = false;
                if let Some(tile) = &self.floor[row][col] {
                    free = !tile.solid;
                }
                if free {
                    cells.push((col, row));
                    assert(cells@ == above + before.push((col, row)));
                }
                col += 1;
            }
            row += 1;
        }
        cells
    }

    /// Collects the walls that the unit box at `(x, y)` touches: every cell
    /// of the grid is looked at, and each solid tile that the box overlaps
    /// adds its nearest wall.
    pub fn collision_sides(&self, x: i64, y: i64) -> (sides: SideSet)
        ensures
            sides == self.spec_collision_sides(x as int, y as int),
    {
        let mut sides = SideSet::empty();
        let mut row: usize = 0;
        while row < self.floor.len()
            invariant
                row <= self.floor@.len(),
                forall|side: Side|
                    sides.has(side) == self.hits_before(x as int, y as int, row as int, 0, side),
            decreases self.floor@.len() - row,
        {
            let mut col: usize = 0;
            while col < self.floor[row].len()
                invariant
                    row < self.floor@.len(),
                    col <= self.floor@[row as int]@.len(),
                    forall|side: Side|
                        sides.has(side) == self.hits_before(
                            x as int,
                            y as int,
                            row as int,
                            col as int,
                            side,
                        ),
                decreases self.floor@[row as int]@.len() - col,
            {
                let ghost before = sides;
                let mut hit: Option<Side> = None;
                if let Some(tile) = &self.floor[row][col] {
                    if tile.solid && overlaps(x, y, col, row) {
                        hit = Some(nearest_wall(x, y, col, row));
                    }
                }
                if let Some(side) = hit {
                    sides.insert(side);
                }
                proof {
                    assert forall|side: Side|
                        sides.has(side) == self.hits_before(
                            x as int,
                            y as int,
                            row as int,
                            col + 1,
                            side,
                        ) by {
                        self.lemma_hits_next_cell(x as int, y as int, row as int, col as int, side);
                        assert(before.has(side) == self.hits_before(
                            x as int,
                            y as int,
                            row as int,
                            col as int,
                            side,
                        ));
                    }
                }
                col += 1;
            }
            proof {
                assert forall|side: Side|
                    sides.has(side) == self.hits_before(x as int, y as int, row + 1, 0, side) by {
                    self.lemma_hits_next_row(x as int, y as int, row as int, side);
                }
            }
            row += 1;
        }
        proof {
            self.lemma_hits_all_rows(x as int, y as int, Side::Top);
            self.lemma_hits_all_rows(x as int, y as int, Side::Bottom);
            self.lemma_hits_all_rows(x as int, y as int, Side::Left);
            self.lemma_hits_all_rows(x as int, y as int, Side::Right);
            assert(sides.has(Side::Top) == self.records(x as int, y as int, Side::Top));
            assert(sides.has(Side::Bottom) == self.records(x as int, y as int, Side::Bottom));
            assert(sides.has(Side::Left) == self.records(x as int, y as int, Side::Left));
            assert(sides.has(Side::Right) == self.records(x as int, y as int, Side::Right));
        }
        sides
    }
}

/// The coordinate of the cell number `index` along an axis, or the edge of
/// the world where the cell lies beyond it.
pub fn cell_coordinate(index: usize) -> (c: i64)
    ensures
        c == spec_clamp_world(index * ONE),
        in_world(c as int),
{
    let one: i128 = ONE as i128;
    let wide: i128 = (index as i128) * one;
    if wide > WORLD_LIMIT as i128 {
        WORLD_LIMIT
    } else {
        wide as i64
    }
}

/// A place to start from: the free cell of the level that `pick` selects,
/// or the origin where the level has no free cell.
pub fn generate_starting_position(level: &Level, pick: usize) -> (p: (i64, i64))
    ensures
        p.0 == spec_starting_position(*level, pick as int).0,
        p.1 == spec_starting_position(*level, pick as int).1,
        in_world(p.0 as int),
        in_world(p.1 as int),
{
    let cells = level.free_cells();
    if cells.len() == 0 {
        (0, 0)
    } else {
        let cell = cells[pick % cells.len()];
        (cell_coordinate(cell.0), cell_coordinate(cell.1))
    }
}

/// Whether the unit box at `(x, y)` and the cell `(col, row)` share more
/// than an edge.
pub fn overlaps(x: i64, y: i64, col: usize, row: usize) -> (b: bool)
    ensures
        b == spec_overlaps(x as int, y as int, col as int, row as int),
{
    let one: i128 = ONE as i128;
    let left: i128 = (col as i128) * one;
    let top: i128 = (row as i128) * one;
    let bx: i128 = x as i128;
    let by: i128 = y as i128;
    bx < left + one && bx + one > left && by < top + one && by + one > top
}

/// The wall of the cell `(col, row)` through which the unit box at `(x, y)`
/// reaches least far into it.
pub fn nearest_wall(x: i64, y: i64, col: usize, row: usize) -> (side: Side)
    ensures
        side == spec_nearest_wall(x as int, y as int, col as int, row as int),
{
    let one: i128 = ONE as i128;
    let bx: i128 = x as i128;
    let by: i128 = y as i128;
    let top: i128 = (row as i128) * one + one - by;
    let bottom: i128 = by + one - (row as i128) * one;
    let left: i128 = bx + one - (col as i128) * one;
    let right: i128 = (col as i128) * one + one - bx;
    if top <= bottom && top <= left && top <= right {
        Side::Top
    } else if bottom <= left && bottom <= right {
        Side::Bottom
    } else if left <= right {
        Side::Left
    } else {
        Side::Right
    }
}

} // verus!
