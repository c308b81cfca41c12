//! Backend session layer of a desktop development tool: a stateful
//! command session with directory navigation, and typed snapshots of
//! directory trees.

pub mod path;
pub mod shell;
pub mod text;
pub mod tree;

pub use tree::FileNode;
