pub mod manager;
pub mod store;
