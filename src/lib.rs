//! A small command-line HTTP client library: request arguments that are
//! validated before anything is sent, and the rendering of a response for a
//! terminal.
pub mod error;
pub mod kv;
pub mod render;
pub mod request;
