//! Decoder for a page-based debug-information container: its streams, the
//! symbol and type records they hold, the store built from them, and the
//! resolution of names and field paths to addresses.

pub mod catalog;
pub mod container;
pub mod error;
pub mod report;
pub mod resolver;
pub mod store;
pub mod symbols;
pub mod types;
pub mod wire;
