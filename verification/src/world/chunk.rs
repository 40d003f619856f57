pub mod chunk;
pub mod chunk_handler;
pub mod chunk_mesh;
pub mod generator;
pub mod render_chunk;
pub mod lighting;
