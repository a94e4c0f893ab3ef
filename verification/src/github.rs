//! Talking to GitHub: query documents, and the decisions the transport makes
//! around each request.

pub mod aggregate;
pub mod client;
pub mod queries;
