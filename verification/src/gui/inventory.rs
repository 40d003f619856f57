pub mod hot_bar_inv;
pub mod inventory;
pub mod slot;
