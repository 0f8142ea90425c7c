pub mod prefetch;
pub mod resolver;
pub mod server;
pub mod stream;
