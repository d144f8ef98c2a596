//! Core of an encrypted filesystem: the attribute model, the handle table,
//! the planning of content operations and of tree operations, and the
//! naming of on-disk artifacts. Disk and crypto work is done by callers,
//! which hand plain values in and carry the decisions out.
pub mod attr;
pub mod cache;
pub mod content;
pub mod error;
pub mod handles;
pub mod layout;
pub mod laws;
pub mod time;
pub mod tree;
pub mod vault;
