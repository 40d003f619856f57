//! Block world: the data model and rules of a voxel world made of chunks.
//!
//! Blocks live in render chunks of 16 x 16 x 16, six of which are stacked
//! into a chunk column; a chunk handler keeps the loaded columns, decides
//! which columns to generate, unload and re-mesh, and answers block queries
//! in world coordinates.
pub mod block;
pub mod gui;
pub mod random;
pub mod scene;
pub mod shared;
pub mod world;
