//! A minimal HTTP/1.x request handling core: request and response records,
//! a request-line parser, an exact-match router and the response wire format,
//! together with the small registry and alert-formatting logic of the node
//! manager built around it.

pub mod text;
pub mod types;
pub mod parser;
pub mod router;
pub mod server;
pub mod registry;
pub mod alerts;
pub mod payload;
pub mod node;
