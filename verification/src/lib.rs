//! The request and response cycle of a small server of static files: the
//! parser of requests, the resolver of paths, the responses and their wire
//! form, and the state machine of a connection.

pub mod config;
pub mod grammar;
pub mod headers;
pub mod media;
pub mod request;
pub mod resolver;
pub mod response;
pub mod server;
pub mod text;
pub mod version;

pub use crate::headers::Headers;
pub use crate::version::Version;
