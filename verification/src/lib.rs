//! Runtime object-inspection and tree-navigation core.
//!
//! The crate is organized around two capabilities that a value may offer:
//! rendering an editable widget for its contents (`Inspectable`) and
//! appearing as an addressable row of a navigable tree (`TreeNode`).
//! Node identities are 64-bit values derived deterministically from the
//! path from the root, so selection survives the per-frame rebuild of the
//! tree.

pub mod codegen;
pub mod host;
pub mod id;
pub mod inspectable;
pub mod laws;
pub mod shape;
pub mod specialization;
pub mod tree;
pub mod ui;
pub mod util;
pub mod value;

pub use inspectable::Inspectable;
pub use tree::TreeNode;
