//! A compiler for construction literals with default fill.
//!
//! An invocation `{ imports }? [conversion] Type { field: value, .. }` compiles
//! to a struct expression in which every value passes through the conversion
//! function, nested constructions are compiled in turn, effects (`@box v`)
//! wrap converted values, and every field not given is filled from
//! `Default::default()`.
pub mod compile;
pub mod convert;
pub mod driver;
pub mod effects;
pub mod emit;
pub mod error;
pub mod laws;
pub mod output;
pub mod path;
pub mod split;
pub mod syntax;
pub mod token;

pub use convert::{infer_into, InferInto, StandardConverters};
pub use driver::meta_default_constructor;
pub use error::CompileError;
pub use token::{Delimiter, Spacing, Token};
