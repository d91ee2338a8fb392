pub mod actions;
pub mod breach_db;
pub mod checker;
