//! The tile grid and the walk of a ray through its cells.

use vstd::prelude::*;
use crate::color::{Color, Texture};
use crate::scalar::{Scalar, Vector2};
use crate::shape::{Shape, ShapeHitInfo, MAX_SIDES};

verus! {

/// One cell of the map: a shape, a surface for each of its faces, and a
/// floor and a ceiling with their heights.
#[derive(Clone, Copy, Debug, PartialEq, Eq)]
pub struct Tile {
    pub shape: Shape,
    pub colors: [Color; 4],
    pub floor_color: Color,
    pub floor_height: Scalar,
    pub ceiling_color: Color,
    pub ceiling_height: Scalar,
}

/// A ray met a face: how far from the ray's origin, where along the face,
/// and the face's surface.
#[derive(Clone, Copy, Debug, PartialEq, Eq)]
pub struct WallHit {
    pub length: Scalar,
    pub x: Scalar,
    pub color: Color,
}

/// A ray crossed a cell: where it came in and went out, in the cell's own
/// frame, how far from the ray's origin each point is, and the cell's floor
/// and ceiling.
#[derive(Clone, Copy, Debug, PartialEq, Eq)]
pub struct FloorHit {
    pub pos1: Vector2,
    pub pos2: Vector2,
    pub dist1: Scalar,
    pub dist2: Scalar,
    pub floor_color: Color,
    pub floor_height: Scalar,
    pub ceiling_color: Color,
    pub ceiling_height: Scalar,
}

/// What a ray reports on its way, nearest first.
#[derive(Clone, Copy, Debug, PartialEq, Eq)]
pub enum Hit {
    WallHit(WallHit),
    FloorHit(FloorHit),
}

impl Tile {
    /// The tile with the given shape, whose faces carry `colors` in order.
    /// Slots beyond the shape's faces hold the test gradient.
    pub open spec fn spec_new(
        shape: Shape,
        colors: Seq<Color>,
        floor_color: Color,
        floor_height: Scalar,
        ceiling_color: Color,
        ceiling_height: Scalar,
        tile: Tile,
    ) -> bool {
        &&& tile.shape == shape
        &&& forall|i: int|
            0 <= i < 4 ==> #[trigger] tile.colors@[i] == if i < colors.len() {
                colors[i]
            } else {
                Color::Test
            }
        &&& tile.floor_color == floor_color
        &&& tile.floor_height == floor_height
        &&& tile.ceiling_color == ceiling_color
        &&& tile.ceiling_height == ceiling_height
    }

    /// A tile of the given shape. There must be one surface for each face of
    /// the shape, neither more nor fewer.
    pub fn new(
        shape: Shape,
        colors: Vec<Color>,
        floor_color: Color,
        floor_height: Scalar,
        ceiling_color: Color,
        ceiling_height: Scalar,
    ) -> (tile: Tile)
        requires
            colors@.len() == shape.spec_sides(),
        ensures
            Tile::spec_new(
                shape,
                colors@,
                floor_color,
                floor_height,
                ceiling_color,
                ceiling_height,
                tile,
            ),
    {
        let mut faces: [Color; 4] = [Color::Test, Color::Test, Color::Test, Color::Test];
        let n = colors.len();
        let mut i: usize = 0;
        while i < n
            invariant
                n == colors@.len(),
                n <= 4,
                i <= n,
                forall|j: int|
                    0 <= j < 4 ==> #[trigger] faces@[j] == if j < i {
                        colors@[j]
                    } else {
                        Color::Test
                    },
            decreases n - i,
        {
            faces[i] = colors[i];
            i = i + 1;
        }
        Tile {
            shape,
            colors: faces,
            floor_color,
            floor_height,
            ceiling_color,
            ceiling_height,
        }
    }

    /// An open tile: no shape, test gradients below and above, the floor at
    /// height zero and the ceiling at `ceiling_height`.
    pub open spec fn spec_empty(ceiling_height: Scalar, tile: Tile) -> bool {
        Tile::spec_new(
            Shape::Void,
            Seq::empty(),
            Color::Test,
            Scalar { bits: crate::scalar::ZERO_BITS },
            Color::Test,
            ceiling_height,
            tile,
        )
    }

    /// Whether every surface of the tile can be drawn by one who holds
    /// `textures` textures.
    pub open spec fn spec_known(self, textures: nat) -> bool {
        &&& forall|i: int| 0 <= i < 4 ==> (#[trigger] self.colors@[i]).spec_known(textures)
        &&& self.floor_color.spec_known(textures)
        &&& self.ceiling_color.spec_known(textures)
    }

    /// Whether every surface of the tile can be drawn by one who holds
    /// `textures` textures.
    pub fn known(&self, textures: usize) -> (b: bool)
        ensures
            b == self.spec_known(textures as nat),
    {
        let sides = self.colors[0].known(textures) && self.colors[1].known(textures)
            && self.colors[2].known(textures) && self.colors[3].known(textures);
        proof {
            if sides {
                assert forall|i: int| 0 <= i < 4 implies (#[trigger] self.colors@[i]).spec_known(
                    textures as nat,
                ) by {
                    assert(i == 0 || i == 1 || i == 2 || i == 3);
                }
            } else {
                assert(!self.colors@[0].spec_known(textures as nat) || !self.colors@[1].spec_known(
                    textures as nat,
                ) || !self.colors@[2].spec_known(textures as nat) || !self.colors@[3].spec_known(
                    textures as nat,
                ));
            }
        }
        sides && self.floor_color.known(textures) && self.ceiling_color.known(textures)
    }

    /// Whether `side` names a slot for a face's surface.
    pub open spec fn has_side(side: u32) -> bool {
        side < MAX_SIDES
    }

    /// The report of a ray that met this tile's shape as `info` says, at
    /// `length` from the ray's origin: the surface is that of the face hit.
    pub fn wall_hit(&self, info: &ShapeHitInfo, length: Scalar) -> (hit: WallHit)
        requires
            Tile::has_side(info.side),
        ensures
            hit.length == length,
            hit.x == info.x,
            hit.color == self.colors@[info.side as int],
    {
        WallHit { length, x: info.x, color: self.colors[info.side as usize] }
    }

    /// The report of a ray that crossed this tile from `pos1`, at `dist1`
    /// from the ray's origin, to `pos2`, at `dist2`: it carries the tile's
    /// floor and ceiling.
    pub fn floor_hit(&self, pos1: Vector2, pos2: Vector2, dist1: Scalar, dist2: Scalar) -> (hit:
        FloorHit)
        ensures
            hit == (FloorHit {
                pos1,
                pos2,
                dist1,
                dist2,
                floor_color: self.floor_color,
                floor_height: self.floor_height,
                ceiling_color: self.ceiling_color,
                ceiling_height: self.ceiling_height,
            }),
    {
        FloorHit {
            pos1,
            pos2,
            dist1,
            dist2,
            floor_color: self.floor_color,
            floor_height: self.floor_height,
            ceiling_color: self.ceiling_color,
            ceiling_height: self.ceiling_height,
        }
    }
}

/// A grid of `width` by `height` tiles, the textures that their surfaces
/// name, and the height of a wall.
#[derive(Debug)]
pub struct TileMap {
    width: usize,
    height: usize,
    tiles: Vec<Tile>,
    textures: Vec<Texture>,
    wall_height: Scalar,
}

/// Cell (x, y) of a grid `width` wide lies at `y * width + x`, within the
/// `width * height` cells of the grid.
pub proof fn lemma_cell_index(x: int, y: int, width: int, height: int)
    requires
        0 <= x < width,
        0 <= y < height,
    ensures
        0 <= y * width,
        0 <= y * width + x < width * height,
{
    assert(0 <= y * width) by (nonlinear_arith)
        requires
            0 <= y,
            0 <= width,
    ;
    assert(y * width + width <= height * width) by (nonlinear_arith)
        requires
            y + 1 <= height,
            0 <= width,
    ;
    assert(height * width == width * height) by (nonlinear_arith);
}

impl TileMap {
    /// The number of columns.
    pub closed spec fn spec_width(&self) -> nat {
        self.width as nat
    }

    /// The number of rows.
    pub closed spec fn spec_height(&self) -> nat {
        self.height as nat
    }

    /// The height of a wall.
    pub closed spec fn spec_wall_height(&self) -> Scalar {
        self.wall_height
    }

    /// The tiles, row after row.
    pub closed spec fn tiles(&self) -> Seq<Tile> {
        self.tiles@
    }

    /// The textures, each at its handle.
    pub closed spec fn textures(&self) -> Seq<Texture> {
        self.textures@
    }

    /// The map holds one tile for each cell, every cell can be addressed and
    /// has coordinates that fit a signed 32-bit number, every texture is
    /// whole, and every texture surface of every tile names a texture that
    /// the map holds.
    pub open spec fn wf(&self) -> bool {
        &&& self.tiles().len() == self.spec_width() * self.spec_height()
        &&& self.tiles().len() <= usize::MAX
        &&& self.spec_width() <= i32::MAX
        &&& self.spec_height() <= i32::MAX
        &&& forall|i: int| 0 <= i < self.textures().len() ==> (#[trigger] self.textures()[i]).wf()
        &&& forall|i: int| 0 <= i < self.tiles().len() ==> self.spec_accepts(#[trigger] self.tiles()[i])
    }

    /// Whether the map holds every texture that `tile` names.
    pub open spec fn spec_accepts(&self, tile: Tile) -> bool {
        tile.spec_known(self.textures().len())
    }

    /// Whether the map holds every texture that `tile` names, so that the
    /// tile can be put into it.
    pub fn accepts(&self, tile: &Tile) -> (b: bool)
        ensures
            b == self.spec_accepts(*tile),
    {
        tile.known(self.textures.len())
    }

    /// Whether cell (x, y) lies within the grid.
    pub open spec fn inside(&self, x: int, y: int) -> bool {
        0 <= x < self.spec_width() && 0 <= y < self.spec_height()
    }

    /// The tile of cell (x, y).
    pub open spec fn tile_at(&self, x: int, y: int) -> Tile {
        self.tiles()[y * self.spec_width() + x]
    }

    /// A map of the given size, every cell open from the floor to
    /// `wall_height`, with no textures.
    pub fn new(width: usize, height: usize, wall_height: Scalar) -> (map: TileMap)
        requires
            width <= i32::MAX,
            height <= i32::MAX,
            width * height <= usize::MAX,
        ensures
            map.wf(),
            map.spec_width() == width,
            map.spec_height() == height,
            map.spec_wall_height() == wall_height,
            map.textures().len() == 0,
            forall|x: int, y: int|
                map.inside(x, y) ==> Tile::spec_empty(wall_height, #[trigger] map.tile_at(x, y)),
    {
        let n = width * height;
        let mut tiles: Vec<Tile> = Vec::new();
        let mut i: usize = 0;
        while i < n
            invariant
                i <= n,
                tiles@.len() == i,
                forall|j: int| 0 <= j < i ==> Tile::spec_empty(wall_height, #[trigger] tiles@[j]),
            decreases n - i,
        {
            let tile = Tile::new(
                Shape::Void,
                Vec::new(),
                Color::Test,
                Scalar::zero(),
                Color::Test,
                wall_height,
            );
            tiles.push(tile);
            i = i + 1;
        }
        let map = TileMap { width, height, tiles, textures: Vec::new(), wall_height };
        proof {
            assert forall|i: int| 0 <= i < map.tiles().len() implies map.spec_accepts(
                #[trigger] map.tiles()[i],
            ) by {
                let tile = map.tiles()[i];
                assert(Tile::spec_empty(wall_height, tile));
                assert forall|j: int| 0 <= j < 4 implies (#[trigger] tile.colors@[j]).spec_known(
                    0,
                ) by {
                    assert(tile.colors@[j] == Color::Test);
                }
            }
            assert forall|x: int, y: int| map.inside(x, y) implies Tile::spec_empty(
                wall_height,
                #[trigger] map.tile_at(x, y),
            ) by {
                lemma_cell_index(x, y, width as int, height as int);
            }
        }
        map
    }

    /// Puts `tile` into cell (x, y), which must lie within the grid. Every
    /// other cell keeps its tile.
    pub fn set_tile(&mut self, x: usize, y: usize, tile: Tile)
        requires
            old(self).wf(),
            old(self).inside(x as int, y as int),
            old(self).spec_accepts(tile),
        ensures
            final(self).wf(),
            final(self).spec_width() == old(self).spec_width(),
            final(self).spec_height() == old(self).spec_height(),
            final(self).spec_wall_height() == old(self).spec_wall_height(),
            final(self).textures() == old(self).textures(),
            final(self).tile_at(x as int, y as int) == tile,
            forall|u: int, v: int|
                old(self).inside(u, v) && !(u == x && v == y) ==> #[trigger] final(self).tile_at(
                    u,
                    v,
                ) == old(self).tile_at(u, v),
    {
        proof {
            lemma_cell_index(x as int, y as int, self.width as int, self.height as int);
        }
        let width = self.width;
        let index = y * width + x;
        self.tiles.set(index, tile);
        proof {
            assert(self.textures() == old(self).textures());
            assert(self.tiles().len() == self.spec_width() * self.spec_height());
            assert forall|i: int| 0 <= i < self.tiles().len() implies self.spec_accepts(
                #[trigger] self.tiles()[i],
            ) by {
                if i != index {
                    assert(self.tiles()[i] == old(self).tiles()[i]);
                }
            }
            assert forall|u: int, v: int|
                old(self).inside(u, v) && !(u == x && v == y) implies #[trigger] self.tile_at(u, v)
                == old(self).tile_at(u, v) by {
                lemma_cell_index(u, v, width as int, self.height as int);
                if v != y {
                    assert(v * width + u != y * width + x) by (nonlinear_arith)
                        requires
                            v != y,
                            0 <= u < width,
                            0 <= x < width,
                    ;
                }
            }
        }
    }

    /// The tile of cell (x, y), or nothing where the cell lies outside the
    /// grid.
    pub fn get_tile(&self, x: i32, y: i32) -> (tile: Option<Tile>)
        requires
            self.wf(),
        ensures
            tile == self.spec_get_tile(x as int, y as int),
            tile.is_some() ==> self.spec_accepts(tile.unwrap()),
    {
        if x < 0 || y < 0 {
            return None;
        }
        let column = x as usize;
        let row = y as usize;
        if column >= self.width || row >= self.height {
            return None;
        }
        proof {
            lemma_cell_index(column as int, row as int, self.width as int, self.height as int);
        }
        Some(self.tiles[row * self.width + column])
    }

    /// See [`TileMap::get_tile`].
    pub open spec fn spec_get_tile(&self, x: int, y: int) -> Option<Tile> {
        if self.inside(x, y) {
            Some(self.tile_at(x, y))
        } else {
            None
        }
    }

    /// The number of columns.
    pub fn width(&self) -> (w: usize)
        ensures
            w == self.spec_width(),
    {
        self.width
    }

    /// The number of rows.
    pub fn height(&self) -> (h: usize)
        ensures
            h == self.spec_height(),
    {
        self.height
    }

    /// The height of a wall.
    pub fn wall_height(&self) -> (h: Scalar)
        ensures
            h == self.spec_wall_height(),
    {
        self.wall_height
    }

    /// Takes `texture` into the map and returns the handle under which the
    /// map's surfaces name it.
    pub fn add_texture(&mut self, texture: Texture) -> (handle: usize)
        requires
            old(self).wf(),
            texture.wf(),
        ensures
            final(self).wf(),
            handle == old(self).textures().len(),
            final(self).textures() == old(self).textures().push(texture),
            final(self).spec_width() == old(self).spec_width(),
            final(self).spec_height() == old(self).spec_height(),
            final(self).spec_wall_height() == old(self).spec_wall_height(),
            final(self).tiles() == old(self).tiles(),
    {
        let handle = self.textures.len();
        self.textures.push(texture);
        proof {
            assert forall|i: int| 0 <= i < self.textures().len() implies (
            #[trigger] self.textures()[i]).wf() by {
                if i < handle {
                    assert(self.textures()[i] == old(self).textures()[i]);
                }
            }
            assert forall|i: int| 0 <= i < self.tiles().len() implies self.spec_accepts(
                #[trigger] self.tiles()[i],
            ) by {
                let tile = self.tiles()[i];
                assert(old(self).spec_accepts(old(self).tiles()[i]));
                assert forall|j: int| 0 <= j < 4 implies (#[trigger] tile.colors@[j]).spec_known(
                    self.textures().len(),
                ) by {
                    assert(tile.colors@[j].spec_known(old(self).textures().len()));
                }
            }
        }
        handle
    }

    /// The texture under `handle`, if the map holds one there.
    pub fn texture(&self, handle: usize) -> (texture: Option<&Texture>)
        requires
            self.wf(),
        ensures
            texture.is_some() <==> handle < self.textures().len(),
            texture.is_some() ==> *texture.unwrap() == self.textures()[handle as int]
                && texture.unwrap().wf(),
    {
        if handle < self.textures.len() {
            Some(&self.textures[handle])
        } else {
            None
        }
    }
}

} // verus!
