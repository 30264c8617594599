//! S3-compatible object storage over a relational engine: the protocol
//! engine. Requests are turned into parameterised statements, and what the
//! storage engine answers is turned into protocol responses.

pub mod handlers;
pub mod models;
pub mod utils;
