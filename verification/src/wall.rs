//! Walls: two columns of blocks that grow from the ceiling or the floor and
//! scroll to the left.

use crate::chance::{coin, draw_between};
use crate::screen::{Pixel, SCREEN_HEIGHT, SCREEN_WIDTH};
use crate::units::{
    cell_of, cell_origin, fits, from_cell, lemma_cell_of_monotone, lemma_cell_of_origin, to_cell,
    UNITS_PER_CELL,
};
use vstd::prelude::*;

verus! {

/// Columns in a wall.
pub const WALL_WIDTH: isize = 2;

/// Height of a wall before it is shortened: two thirds of the playfield.
pub const WALL_FULL_HEIGHT: isize = 20;

/// A new wall is shortened by a number of rows below this limit: a quarter
/// of the playfield's height, rounded down.
pub const WALL_SHRINK_LIMIT: isize = 7;

/// The edge of the playfield that a wall grows from.
#[derive(Clone, Copy, Debug, PartialEq, Eq, Structural)]
pub enum Edge {
    Ceiling,
    Floor,
}

/// One cell of a wall: its fine horizontal coordinate and the grid position
/// that follows from it.
#[derive(Clone, Copy, Debug, PartialEq, Eq, Structural)]
pub struct Block {
    pub pixel: Pixel,
    pub x_fine: isize,
}

/// A wall as a mathematical value. Its blocks follow from these four numbers.
pub struct WallView {
    /// The edge the wall is anchored to.
    pub edge: Edge,
    /// The wall's height; it has `height - 1` rows of blocks.
    pub height: int,
    /// Fine units that the wall moves to the left in one tick.
    pub velocity: int,
    /// Fine coordinate of the wall's first column; the second column lies one
    /// cell to its left.
    pub lead: int,
}

impl WallView {
    /// Blocks in one column.
    pub open spec fn rows(self) -> int {
        self.height - 1
    }

    /// Fine coordinate of column `i` (0 or 1).
    pub open spec fn column_x(self, i: int) -> int {
        self.lead - i * (UNITS_PER_CELL as int)
    }

    /// Grid row of the block at offset `j` from the wall's edge, counted from 1.
    pub open spec fn row_at(self, j: int) -> int {
        match self.edge {
            Edge::Floor => SCREEN_HEIGHT - j,
            Edge::Ceiling => j - 1,
        }
    }

    /// The `k`-th block: the first column from the edge inward, then the second.
    pub open spec fn block(self, k: int) -> Block {
        let i: int = if k < self.rows() { 0 } else { 1 };
        let j: int = if k < self.rows() { k + 1 } else { k - self.rows() + 1 };
        Block {
            pixel: Pixel { x: cell_of(self.column_x(i)) as isize, y: self.row_at(j) as isize },
            x_fine: self.column_x(i) as isize,
        }
    }

    /// All blocks, in the order they were made.
    pub open spec fn blocks(self) -> Seq<Block> {
        Seq::new((WALL_WIDTH * self.rows()) as nat, |k: int| self.block(k))
    }

    /// Every block lies left of the playfield.
    pub open spec fn offscreen(self) -> bool {
        cell_of(self.lead) < 0
    }

    /// The wall one tick later.
    pub open spec fn advanced(self) -> WallView {
        WallView { lead: self.lead - self.velocity, ..self }
    }

    /// Whether the wall has a block at column `x`, row `y`.
    pub open spec fn covers(self, x: int, y: int) -> bool {
        &&& x == cell_of(self.column_x(0)) || x == cell_of(self.column_x(1))
        &&& match self.edge {
            Edge::Ceiling => 0 <= y < self.rows(),
            Edge::Floor => SCREEN_HEIGHT - self.rows() <= y < SCREEN_HEIGHT,
        }
    }

    /// The height is one that a new wall can have, and the coordinates can be
    /// held in machine integers.
    pub open spec fn valid(self) -> bool {
        &&& WALL_FULL_HEIGHT - WALL_SHRINK_LIMIT < self.height <= WALL_FULL_HEIGHT
        &&& fits(self.velocity)
        &&& fits(self.column_x(0))
        &&& fits(self.column_x(1))
    }

    /// Whether the wall can move one more tick within machine integers.
    pub open spec fn can_advance(self) -> bool {
        self.advanced().valid()
    }

    /// The wall that appears at the right border, anchored to `edge` and
    /// shortened by `shrink` rows.
    pub open spec fn spawned(edge: Edge, shrink: int, velocity: int) -> WallView {
        WallView {
            edge,
            height: WALL_FULL_HEIGHT - shrink,
            velocity,
            lead: cell_origin(SCREEN_WIDTH as int),
        }
    }
}

/// A wall covers a position exactly when one of its blocks has that very
/// column and row.
pub proof fn lemma_covers_is_some_block(w: WallView, x: int, y: int)
    requires
        w.valid(),
    ensures
        w.covers(x, y) <==> exists|k: int|
            0 <= k < w.blocks().len() && (#[trigger] w.blocks()[k]).pixel.x == x && w.blocks()[k].pixel.y
                == y,
{
    if w.covers(x, y) {
        let i: int = if x == cell_of(w.column_x(0)) { 0 } else { 1 };
        let j: int = match w.edge {
            Edge::Ceiling => y + 1,
            Edge::Floor => SCREEN_HEIGHT - y,
        };
        let k = i * w.rows() + j - 1;
        assert(w.blocks()[k].pixel.x == x && w.blocks()[k].pixel.y == y);
    }
}

/// A wall is off the screen exactly when the grid column of every block is
/// negative.
pub proof fn lemma_offscreen_is_all_columns_negative(w: WallView)
    requires
        w.valid(),
    ensures
        w.offscreen() <==> forall|k: int|
            0 <= k < w.blocks().len() ==> (#[trigger] w.blocks()[k]).pixel.x < 0,
{
    if w.offscreen() {
        lemma_cell_of_monotone(w.column_x(1), w.column_x(0));
    } else {
        assert(w.blocks()[0].pixel.x >= 0);
    }
}

/// A wall that appears is shorter than the full height by less than the
/// shrink limit, and never taller than the full height.
pub proof fn lemma_spawned_height(edge: Edge, shrink: int, velocity: int)
    requires
        0 <= shrink < WALL_SHRINK_LIMIT,
    ensures
        WALL_FULL_HEIGHT - WALL_SHRINK_LIMIT < WallView::spawned(edge, shrink, velocity).height
            <= WALL_FULL_HEIGHT,
        WallView::spawned(edge, shrink, velocity).blocks().len() == WALL_WIDTH * (
        WallView::spawned(edge, shrink, velocity).height - 1),
        fits(velocity) ==> WallView::spawned(edge, shrink, velocity).valid(),
{
}

/// A wall of blocks.
pub struct Wall {
    blocks: Vec<Block>,
    edge_touching: Edge,
    width: isize,
    height: isize,
    velocity: isize,
    offscreen: bool,
}

impl View for Wall {
    type V = WallView;

    closed spec fn view(&self) -> WallView {
        WallView {
            edge: self.edge_touching,
            height: self.height as int,
            velocity: self.velocity as int,
            lead: self.blocks@[0].x_fine as int,
        }
    }
}

impl Wall {
    /// The wall's parts agree: it is two columns wide, its blocks are those of
    /// its view, and its flag says whether it has left the playfield.
    pub closed spec fn wf(&self) -> bool {
        &&& self@.valid()
        &&& self.width == WALL_WIDTH
        &&& self.blocks@ == self@.blocks()
        &&& self.offscreen == self@.offscreen()
    }

    /// A well-formed wall has a valid view.
    pub proof fn lemma_wf_valid(&self)
        requires
            self.wf(),
        ensures
            self@.valid(),
    {
    }

    /// A new wall at the right border that moves `vel` fine units per tick.
    /// Its edge is a coin toss and it is shortened by a random number of rows
    /// below `WALL_SHRINK_LIMIT`.
    pub fn new(vel: isize) -> (w: Wall)
        ensures
            w.wf(),
            WALL_FULL_HEIGHT - WALL_SHRINK_LIMIT < w@.height <= WALL_FULL_HEIGHT,
            w@ == WallView::spawned(w@.edge, WALL_FULL_HEIGHT - w@.height, vel as int),
    {
        let mut edge_touching = Edge::Ceiling;
        if coin() {
            edge_touching = Edge::Floor;
        }
        let shrink = draw_between(0, WALL_SHRINK_LIMIT as u64);
        Wall::with_shape(edge_touching, shrink as isize, vel)
    }

    /// The wall that appears at the right border with the given edge,
    /// shortened by `shrink` rows, that moves `vel` fine units per tick.
    pub fn with_shape(edge_touching: Edge, shrink: isize, vel: isize) -> (w: Wall)
        requires
            0 <= shrink < WALL_SHRINK_LIMIT,
        ensures
            w.wf(),
            w@ == WallView::spawned(edge_touching, shrink as int, vel as int),
    {
        let mut w = Wall {
            blocks: Vec::new(),
            edge_touching,
            width: WALL_WIDTH,
            height: WALL_FULL_HEIGHT,
            velocity: vel,
            offscreen: false,
        };
        w.height -= shrink;
        let ghost model = WallView::spawned(edge_touching, shrink as int, vel as int);
        let mut i: isize = 0;
        while i < w.width
            invariant
                0 <= i <= WALL_WIDTH,
                w.width == WALL_WIDTH,
                w.height == model.height,
                w.edge_touching == model.edge,
                w.velocity == vel,
                !w.offscreen,
                0 <= shrink < WALL_SHRINK_LIMIT,
                model == WallView::spawned(edge_touching, shrink as int, vel as int),
                w.blocks@.len() == (if i == 0 { 0 } else if i == 1 { model.rows() } else { 2 * model.rows() }),
                forall|k: int| 0 <= k < w.blocks@.len() ==> w.blocks@[k] == model.block(k),
            decreases WALL_WIDTH - i,
        {
            let x = SCREEN_WIDTH - i;
            let mut j: isize = 1;
            while j < w.height
                invariant
                    0 <= i < WALL_WIDTH,
                    1 <= j <= w.height,
                    x == SCREEN_WIDTH - i,
                    w.width == WALL_WIDTH,
                    w.height == model.height,
                    w.edge_touching == model.edge,
                    w.velocity == vel,
                    !w.offscreen,
                    0 <= shrink < WALL_SHRINK_LIMIT,
                    model == WallView::spawned(edge_touching, shrink as int, vel as int),
                    w.blocks@.len() == (if i == 0 { 0 } else { model.rows() }) + j - 1,
                    forall|k: int| 0 <= k < w.blocks@.len() ==> w.blocks@[k] == model.block(k),
                decreases w.height - j,
            {
                let x_fine = from_cell(x);
                proof {
                    lemma_cell_of_origin(x as int);
                }
                match w.edge_touching {
                    Edge::Floor => {
                        let y = SCREEN_HEIGHT - j;
                        w.blocks.push(Block { pixel: Pixel { x, y }, x_fine });
                    },
                    Edge::Ceiling => {
                        let y = j - 1;
                        w.blocks.push(Block { pixel: Pixel { x, y }, x_fine });
                    },
                }
                j += 1;
            }
            i += 1;
        }
        assert(w.blocks@ =~= model.blocks());
        w
    }

    /// The edge the wall grows from.
    pub fn edge(&self) -> (edge: Edge)
        ensures
            edge == self@.edge,
    {
        self.edge_touching
    }

    /// The wall's height; each column has one block less.
    pub fn height(&self) -> (height: isize)
        ensures
            height == self@.height,
    {
        self.height
    }

    /// Fine units that the wall moves to the left in one tick.
    pub fn velocity(&self) -> (velocity: isize)
        ensures
            velocity == self@.velocity,
    {
        self.velocity
    }

    /// The number of columns.
    pub fn width(&self) -> (width: isize)
        requires
            self.wf(),
        ensures
            width == WALL_WIDTH,
    {
        self.width
    }

    /// Whether every block has scrolled past the left border.
    pub fn is_offscreen(&self) -> (gone: bool)
        requires
            self.wf(),
        ensures
            gone == self@.offscreen(),
    {
        self.offscreen
    }

    /// The wall's blocks: the first column from the edge inward, then the
    /// second.
    pub fn blocks(&self) -> (blocks: &Vec<Block>)
        requires
            self.wf(),
        ensures
            blocks@ == self@.blocks(),
    {
        &self.blocks
    }

    /// Moves the wall one tick to the left and recomputes each block's grid
    /// column. The wall is off the screen once every column is negative.
    pub fn update_pixel(&mut self)
        requires
            old(self).wf(),
            old(self)@.can_advance(),
        ensures
            final(self).wf(),
            final(self)@ == old(self)@.advanced(),
    {
        let ghost before = self@;
        let ghost after = self@.advanced();
        let mut offscreen = true;
        let mut k: usize = 0;
        while k < self.blocks.len()
            invariant
                0 <= k <= self.blocks@.len(),
                before.valid(),
                after == before.advanced(),
                after.valid(),
                self.blocks@.len() == before.blocks().len(),
                self.velocity == before.velocity,
                self.height == before.height,
                self.edge_touching == before.edge,
                self.width == WALL_WIDTH,
                forall|n: int| 0 <= n < k ==> self.blocks@[n] == after.block(n),
                forall|n: int| k <= n < self.blocks@.len() ==> self.blocks@[n] == before.block(n),
                offscreen <==> forall|n: int| 0 <= n < k ==> (#[trigger] after.block(n)).pixel.x < 0,
            decreases self.blocks@.len() - k,
        {
            let ghost prior = self.blocks@;
            assert(prior[k as int] == before.block(k as int));
            assert(after.block(k as int).x_fine == before.block(k as int).x_fine - before.velocity);
            self.blocks[k].x_fine -= self.velocity;
            self.blocks[k].pixel.x = to_cell(self.blocks[k].x_fine);
            assert(self.blocks@[k as int] == after.block(k as int));
            assert(forall|n: int| 0 <= n < self.blocks@.len() && n != k ==> self.blocks@[n] == prior[n]);
            if self.blocks[k].pixel.x >= 0 {
                offscreen = false;
            }
            k += 1;
        }
        self.offscreen = offscreen;
        proof {
            assert(self.blocks@ =~= after.blocks());
            assert(after.block(0).pixel.x == cell_of(after.lead));
            if after.offscreen() {
                assert forall|n: int| 0 <= n < after.blocks().len() implies (#[trigger] after.block(
                    n,
                )).pixel.x < 0 by {
                    lemma_cell_of_monotone(after.column_x(1), after.column_x(0));
                }
            }
        }
    }
}

} // verus!
