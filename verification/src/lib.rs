pub mod assets;
pub mod auth;
pub mod cache;
pub mod commands;
pub mod db;
pub mod downloads;
pub mod equalizer;
pub mod error;
pub mod hashing;
pub mod library;
pub mod media_session;
pub mod numbers;
pub mod percent;
pub mod player;
pub mod route_refresh;
pub mod text;
pub use route_refresh::EqualizerRouteDebouncer;
