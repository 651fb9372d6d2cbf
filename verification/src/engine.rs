//! The grammar-independent engine behind the tree-sitter backends: a plain
//! syntax tree, the protected-span model, the whitespace rewriter and comment
//! stripper, and the parse check and equivalence artifact.
pub mod tree;
pub mod span;
pub mod emit;
pub mod plan;
pub mod verify;
pub mod parser;
pub mod pipeline;
