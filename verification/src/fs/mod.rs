//! The Plan 9-inspired virtual filesystem.
pub mod order;
pub mod path;
pub mod registry;
pub mod vnode;

pub use registry::{NodeHandle, VfsRegistry};
pub use vnode::Vnode;
