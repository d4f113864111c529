//! A platform-neutral model of the system clipboard: items made of alternative
//! representations, per-platform write and read options, and the protocols by which
//! a platform adapter stores and retrieves them.

pub mod application;
pub mod clipboard;
pub mod contents;
pub mod formats;
pub mod laws;
pub mod native;
pub mod platform;
pub mod reader;
pub mod registry;
pub mod session;
pub mod writer;
