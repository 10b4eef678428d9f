//! A small static-file HTTP server core: request-line parsing, static path
//! resolution, MIME classification, response framing and the keep-alive
//! decisions of a connection.
pub mod text;
pub mod urlpath;
pub mod resolve;
pub mod mime;
pub mod request;
pub mod response;
pub mod connection;
