pub mod inventory;
