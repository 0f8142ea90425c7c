pub mod merged;
pub mod service;
