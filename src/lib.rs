//! A small catalogue service for video game records: request parsing, routing,
//! the decisions of each operation, and the text that goes back to the client.
pub mod handlers;
pub mod laws;
pub mod record;
pub mod request;
pub mod router;
