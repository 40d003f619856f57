pub mod block_registry;
pub mod block_type;
pub mod location;
pub mod texture_coords;
