pub mod block;
pub mod compositor;
pub mod grid;
mod rng;
pub mod tile;

pub use block::Block;
pub use block::BlockTile;
pub use compositor::Direction;
pub use compositor::Field;
pub use compositor::FieldDrawing;
pub use compositor::Pen;
pub use grid::Grid;
pub use tile::ExplodeAction;
pub use tile::LiquidType;
pub use tile::TileType;
