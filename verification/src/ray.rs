//! The walk of a ray through the grid, cell by cell.
//!
//! A ray is known here by the cell it starts in, the direction in which it
//! travels along each axis, and the order in which it crosses the grid's
//! lines: each crossing takes it one cell on along one axis. How far away a
//! crossing lies is for the caller to measure.

use vstd::prelude::*;
use crate::map::{Tile, TileMap};
use crate::shape::Shape;

verus! {

/// One of the grid's two axes.
#[derive(Clone, Copy, Debug, PartialEq, Eq)]
pub enum Axis {
    X,
    Y,
}

/// A cell of the grid, or one beside it.
#[derive(Clone, Copy, Debug, PartialEq, Eq)]
pub struct Cell {
    pub x: i32,
    pub y: i32,
}

/// The way a ray travels along each axis: one cell up (1) or down (-1).
#[derive(Clone, Copy, Debug, PartialEq, Eq)]
pub struct Step {
    pub x: i32,
    pub y: i32,
}

impl Step {
    /// Both components are 1 or -1.
    pub open spec fn wf(self) -> bool {
        (self.x == 1 || self.x == -1) && (self.y == 1 || self.y == -1)
    }

    /// The step of a ray, given for each axis whether it travels towards
    /// smaller coordinates.
    pub fn new(x_negative: bool, y_negative: bool) -> (step: Step)
        ensures
            step.wf(),
            step.x == -1 <==> x_negative,
            step.y == -1 <==> y_negative,
    {
        let x: i32 = if x_negative {
            -1
        } else {
            1
        };
        let y: i32 = if y_negative {
            -1
        } else {
            1
        };
        Step { x, y }
    }
}

/// What a ray finds as it crosses from one cell into the next.
#[derive(Clone, Copy, Debug, PartialEq, Eq)]
pub struct Crossing {
    /// The cell that the ray leaves.
    pub left: Cell,
    /// The tile of that cell, whose floor and ceiling the ray has passed.
    pub floor: Tile,
    /// The cell that the ray enters.
    pub entered: Cell,
    /// Whether the cell entered lies within the grid. Where it does not, the
    /// walk is over.
    pub inside: bool,
    /// The tile of the cell entered, where it lies within the grid and has a
    /// shape that a ray can meet.
    pub wall: Option<Tile>,
}

/// The number of crossings along the x axis among the first `k` of `axes`.
pub open spec fn count_x(axes: Seq<Axis>, k: int) -> int
    decreases k,
{
    if k <= 0 {
        0
    } else {
        count_x(axes, k - 1) + if axes[k - 1] == Axis::X {
            1int
        } else {
            0int
        }
    }
}

/// The column of the cell that a ray is in after `k` crossings.
pub open spec fn walk_x(origin: Cell, step: Step, axes: Seq<Axis>, k: int) -> int {
    origin.x + step.x * count_x(axes, k)
}

/// The row of the cell that a ray is in after `k` crossings.
pub open spec fn walk_y(origin: Cell, step: Step, axes: Seq<Axis>, k: int) -> int {
    origin.y + step.y * (k - count_x(axes, k))
}

/// Among the first `k` crossings, between none and all are along the x axis.
pub proof fn lemma_count_x_bounds(axes: Seq<Axis>, k: int)
    requires
        0 <= k,
    ensures
        0 <= count_x(axes, k) <= k,
    decreases k,
{
    if k > 0 {
        lemma_count_x_bounds(axes, k - 1);
    }
}

/// A ray that starts within the grid and is still within it after `k`
/// crossings has changed column fewer times than there are columns, and row
/// fewer times than there are rows. So every walk leaves the grid: after as
/// many crossings as the grid has columns and rows together, less one, no
/// ray is within it.
pub proof fn lemma_walk_leaves_grid(
    map: &TileMap,
    origin: Cell,
    step: Step,
    axes: Seq<Axis>,
    k: int,
)
    requires
        step.wf(),
        0 <= k,
        map.inside(origin.x as int, origin.y as int),
    ensures
        map.inside(walk_x(origin, step, axes, k), walk_y(origin, step, axes, k)) ==> {
            &&& count_x(axes, k) < map.spec_width()
            &&& k - count_x(axes, k) < map.spec_height()
        },
        k + 1 >= map.spec_width() + map.spec_height() ==> !map.inside(
            walk_x(origin, step, axes, k),
            walk_y(origin, step, axes, k),
        ),
{
    lemma_count_x_bounds(axes, k);
    let cx = count_x(axes, k);
    let cy = k - cx;
    assert(step.x * cx == cx || step.x * cx == -cx) by (nonlinear_arith)
        requires
            step.x == 1 || step.x == -1,
    ;
    assert(step.y * cy == cy || step.y * cy == -cy) by (nonlinear_arith)
        requires
            step.y == 1 || step.y == -1,
    ;
}

/// A wall is reported only for a cell within the grid whose shape a ray can
/// meet: never for a void cell, never beyond the grid's edge.
pub proof fn lemma_no_wall_without_shape(map: &TileMap, x: int, y: int)
    ensures
        map.spec_wall_at(x, y).is_some() ==> {
            &&& map.inside(x, y)
            &&& map.spec_wall_at(x, y).unwrap() == map.tile_at(x, y)
            &&& map.tile_at(x, y).shape != Shape::Void
        },
        map.inside(x, y) && map.tile_at(x, y).shape == Shape::Void ==> map.spec_wall_at(x, y).is_none(),
        !map.inside(x, y) ==> map.spec_wall_at(x, y).is_none(),
{
}

impl TileMap {
    /// The column and row that a ray enters as it leaves `cell` along `axis`.
    pub open spec fn next_x(cell: Cell, step: Step, axis: Axis) -> int {
        if axis == Axis::X {
            cell.x + step.x
        } else {
            cell.x as int
        }
    }

    /// See [`TileMap::next_x`].
    pub open spec fn next_y(cell: Cell, step: Step, axis: Axis) -> int {
        if axis == Axis::Y {
            cell.y + step.y
        } else {
            cell.y as int
        }
    }

    /// Whether `c` is what a ray finds as it leaves `cell`, which lies within
    /// the grid, along `axis`: the tile it leaves, the cell it enters, and
    /// that cell's tile where a ray can meet a shape there.
    pub open spec fn is_crossing(&self, cell: Cell, step: Step, axis: Axis, c: Crossing) -> bool {
        let x = TileMap::next_x(cell, step, axis);
        let y = TileMap::next_y(cell, step, axis);
        &&& c.left == cell
        &&& c.floor == self.tile_at(cell.x as int, cell.y as int)
        &&& c.entered.x == x
        &&& c.entered.y == y
        &&& c.inside == self.inside(x, y)
        &&& c.wall == self.spec_wall_at(x, y)
    }

    /// The tile of cell (x, y) where the cell lies within the grid and its
    /// shape is one that a ray can meet.
    pub open spec fn spec_wall_at(&self, x: int, y: int) -> Option<Tile> {
        if self.inside(x, y) && self.tile_at(x, y).shape != Shape::Void {
            Some(self.tile_at(x, y))
        } else {
            None
        }
    }

    /// The tile against whose shape a ray in `cell` is to be tested: none
    /// outside the grid, and none where the cell is void.
    pub fn wall_at(&self, cell: Cell) -> (wall: Option<Tile>)
        requires
            self.wf(),
        ensures
            wall == self.spec_wall_at(cell.x as int, cell.y as int),
    {
        match self.get_tile(cell.x, cell.y) {
            Some(tile) => if tile.shape.is_void() {
                None
            } else {
                Some(tile)
            },
            None => None,
        }
    }

    /// Takes a ray from `cell` one cell on along `axis`. A ray in a cell
    /// outside the grid goes no further.
    pub fn advance(&self, cell: Cell, step: Step, axis: Axis) -> (crossing: Option<Crossing>)
        requires
            self.wf(),
            step.wf(),
        ensures
            crossing.is_some() <==> self.inside(cell.x as int, cell.y as int),
            crossing.is_some() ==> self.is_crossing(cell, step, axis, crossing.unwrap()),
    {
        let floor = match self.get_tile(cell.x, cell.y) {
            Some(tile) => tile,
            None => {
                return None;
            },
        };
        let entered = match axis {
            Axis::X => Cell { x: cell.x + step.x, y: cell.y },
            Axis::Y => Cell { x: cell.x, y: cell.y + step.y },
        };
        let inside = self.get_tile(entered.x, entered.y).is_some();
        let wall = self.wall_at(entered);
        Some(Crossing { left: cell, floor, entered, inside, wall })
    }

    /// Walks a ray from `origin` through the grid, crossing along `axes` in
    /// order, and returns what it finds at each crossing. The walk ends with
    /// the crossing that takes the ray out of the grid, or when `axes` is
    /// used up. A ray that starts outside the grid finds nothing.
    pub fn ray_cast(&self, origin: Cell, step: Step, axes: &Vec<Axis>) -> (crossings: Vec<Crossing>)
        requires
            self.wf(),
            step.wf(),
        ensures
            crossings@.len() <= axes@.len(),
            forall|j: int|
                0 <= j < crossings@.len() ==> {
                    &&& (#[trigger] crossings@[j]).left.x == walk_x(origin, step, axes@, j)
                    &&& crossings@[j].left.y == walk_y(origin, step, axes@, j)
                    &&& self.inside(crossings@[j].left.x as int, crossings@[j].left.y as int)
                    &&& self.is_crossing(crossings@[j].left, step, axes@[j], crossings@[j])
                },
            crossings@.len() < axes@.len() ==> !self.inside(
                walk_x(origin, step, axes@, crossings@.len() as int),
                walk_y(origin, step, axes@, crossings@.len() as int),
            ),
            crossings@.len() == 0 || crossings@.len() < self.spec_width() + self.spec_height(),
    {
        let n = axes.len();
        let mut crossings: Vec<Crossing> = Vec::new();
        let mut cell = origin;
        let mut k: usize = 0;
        while k < n
            invariant
                self.wf(),
                step.wf(),
                n == axes@.len(),
                k <= n,
                crossings@.len() == k,
                cell.x == walk_x(origin, step, axes@, k as int),
                cell.y == walk_y(origin, step, axes@, k as int),
                forall|j: int|
                    0 <= j < k ==> {
                        &&& (#[trigger] crossings@[j]).left.x == walk_x(origin, step, axes@, j)
                        &&& crossings@[j].left.y == walk_y(origin, step, axes@, j)
                        &&& self.inside(crossings@[j].left.x as int, crossings@[j].left.y as int)
                        &&& self.is_crossing(crossings@[j].left, step, axes@[j], crossings@[j])
                    },
                k == 0 || k < self.spec_width() + self.spec_height(),
            decreases n - k,
        {
            let axis = axes[k];
            match self.advance(cell, step, axis) {
                None => {
                    return crossings;
                },
                Some(crossing) => {
                    proof {
                        let c = count_x(axes@, k as int);
                        assert(count_x(axes@, k + 1) == c + if axis == Axis::X {
                            1int
                        } else {
                            0int
                        });
                        assert(step.x * (c + 1) == step.x * c + step.x) by (nonlinear_arith);
                        assert(step.y * (k + 1 - c) == step.y * (k - c) + step.y)
                            by (nonlinear_arith);
                        assert(walk_x(origin, step, axes@, 0) == origin.x);
                        assert(walk_y(origin, step, axes@, 0) == origin.y);
                        if k == 0 {
                            assert(self.inside(origin.x as int, origin.y as int));
                        } else {
                            assert(crossings@[0].left.x == origin.x);
                            assert(crossings@[0].left.y == origin.y);
                        }
                        lemma_walk_leaves_grid(self, origin, step, axes@, k as int);
                    }
                    crossings.push(crossing);
                    cell = crossing.entered;
                    k = k + 1;
                },
            }
        }
        crossings
    }
}

} // verus!
