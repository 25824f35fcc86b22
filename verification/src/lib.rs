//! The verified core of a small concurrent tile server: request-line
//! parsing, tile-address parsing, response serialization, and the
//! round-robin dispatch rule that feeds a fixed pool of workers.
//!
//! Socket handling, threads and the rendering collaborators live outside
//! this crate; they exchange plain bytes and tile coordinates with the
//! functions here.

pub mod bytes;
pub mod dispatch;
pub mod request;
pub mod response;
pub mod route;
pub mod stylesheet;
pub mod tile;
pub mod tile_path;
