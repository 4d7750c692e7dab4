//! Tag-indexed cheatsheet library for a companion e-ink device: the content
//! store and its resolver, the paging state machine, the message dispatch
//! rules and the file-per-entry persistence format.

pub mod codec;
pub mod dispatch;
pub mod error;
pub mod files;
pub mod focus;
pub mod frame;
pub mod load;
pub mod model;
pub mod pages;
pub mod persist;
pub mod store;
pub mod tags;
pub mod text;
pub mod ui;
pub mod wire;
