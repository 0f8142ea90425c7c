pub mod artwork;
pub mod manager;
pub mod paths;
