//! Scene-graph cascading-state engine for a hierarchical vector-document
//! model: a node tree with typed elements, a CSS-like property cascade with
//! four resolution modes, a traversal-scoped drawing context with a state
//! stack, a cycle-guarded by-id resource acquisition facility, and recursive
//! resolution of font-relative lengths.
//!
//! All geometry and lengths are carried as exact rational numbers so that
//! cascade results are stated and proved exactly.

pub mod attributes;
pub mod bbox;
pub mod drawing_ctx;
pub mod error;
pub mod length;
pub mod matrix;
pub mod node;
pub mod property;
pub mod property_bag;
pub mod ratio;
pub mod state;
pub mod text;
