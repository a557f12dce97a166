//! A code-generation backend: lowers a compiled program's namespace of
//! control-flow graphs into a target-specific code object.

pub mod base_target;
pub mod classic_target;
pub mod code_object;
pub mod context;
pub mod errors;
pub mod ir;
pub mod machine;

pub use crate::ir::Namespace;
