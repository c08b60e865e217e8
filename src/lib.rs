//! Template analysis, optimization and code generation for single-file
//! component templates.

pub mod ast;
pub mod flags;
pub mod ident;
pub mod optimize;
pub mod scope;
pub mod bindings;
pub mod imports;
pub mod classify;
pub mod transform;
pub mod sfc;
pub mod codegen;
