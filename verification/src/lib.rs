//! Hexagonal grid coordinates, directions, ranges, rings and wraparound maps.
use vstd::prelude::*;

pub mod bounds;
pub mod conversions;
pub mod direction;
pub mod edge_direction;
pub mod fov;
pub mod hex;
pub mod hex_map;
pub mod iter;
pub mod line;
pub mod movement;
pub mod ops;
pub mod ord;
pub mod packed;
pub mod pathfinding;
pub mod resolution;
pub mod search;
pub mod shapes;
pub mod simd;
pub mod vertex;
pub mod way;

pub use bounds::HexBounds;
pub use conversions::{DoubledHexMode, OffsetHexMode};
pub use direction::{DiagonalDirection, Direction};
pub use edge_direction::{EdgeDirection, VertexDirection};
pub use fov::{directional_targets, fov_along};
pub use hex::{hex, Hex};
pub use hex_map::HexMap;
pub use iter::{ExactSizeHexIterator, HexIterExt};
pub use movement::{field_of_movement, field_of_movement_with_costs};
pub use ord::{OrdByLength, OrdByXY, OrdByYX};
pub use packed::PackedHex;
pub use pathfinding::{AStar, AStarStep};
pub use search::a_star;
pub use vertex::{GridEdge, GridVertex};
pub use way::{DirectionWay, Way};

verus! {

} // verus!
