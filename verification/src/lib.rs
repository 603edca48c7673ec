//! The discrete core of a tile-grid ray caster: the tile map and the walk of a
//! ray through its cells, the bookkeeping of a frame's pixels, and the layout
//! of the finished frame. Every number that is measured rather than counted
//! (positions, distances, colour intensities) is carried through this crate
//! by its bit pattern and computed on by the caller.

pub mod color;
pub mod map;
pub mod ray;
pub mod renderer;
pub mod report;
pub mod scalar;
pub mod shape;

pub use color::{Color, Texture};
pub use map::{FloorHit, Hit, Tile, TileMap, WallHit};
pub use ray::{Axis, Cell, Crossing, Step};
pub use renderer::{Renderer, Span};
pub use report::log_error;
pub use scalar::{Scalar, Vector2};
pub use shape::{AxisAlignedBox, Circle, Line, Shape, ShapeHitInfo};
