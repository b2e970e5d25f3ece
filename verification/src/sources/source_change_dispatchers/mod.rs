//! Where the changes of sources go.

pub mod adaptive_http_dispatcher;
pub mod direct_format;
pub mod dispatch_laws;
pub mod grpc_dispatcher;
pub mod http_dispatcher;
