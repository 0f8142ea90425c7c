//! The server the client is pointed at, as shown in the "change server"
//! form.
use vstd::prelude::*;

verus! {

/// REST and gRPC URLs; `grpc_explicit` when the gRPC URL is a user
/// override rather than derived from the REST URL.
#[derive(Debug, Clone)]
pub struct ServerInfo {
    pub rest_url: String,
    pub grpc_url: String,
    pub grpc_explicit: bool,
}

} // verus!
