pub mod light_map;
pub mod light_source;
pub mod light_state;
