//! Compiles JSX elements into calls of the Vue 3 virtual-node API.
pub mod ast;
pub mod text;
pub mod options;
pub mod patch_flags;
pub mod tags;
pub mod props;
pub mod directive;
pub mod transform;
pub mod laws;
pub mod resolve_type;
