//! Composable view builder that lowers a tree of views into one flat template.
pub mod debug_text;
pub mod hash;
pub mod traits;
pub mod string_interner;
pub mod op_builder;
pub mod tree_paths;
pub mod elements;
pub mod attributes;
pub mod text;
pub mod components;

pub use components::{badge, card};
