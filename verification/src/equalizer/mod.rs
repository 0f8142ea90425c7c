pub mod audio_output;
pub mod model;
pub mod naming;
pub mod op_type;
pub mod ops;
pub mod parser;
pub mod repo;
pub mod recovery;
pub mod resolver;
pub mod service;
pub mod sync;
