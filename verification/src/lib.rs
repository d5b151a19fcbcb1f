//! A small HTTP test-fixture service: a router over a fixed set of endpoints
//! and the construction of each endpoint's response.
//!
//! The crate holds the request/response logic only; binding a socket and
//! moving bytes is left to the embedding program.

pub mod handlers;
pub mod jsontext;
pub mod query;
pub mod response;
pub mod server;
pub mod text;
pub mod upload;

pub use response::HttpResponse;
pub use server::handle_request;
pub use server::Reply;
