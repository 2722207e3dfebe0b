//! Generator for byte-indexed extraction circuits.
//!
//! The crate compiles a declarative extraction specification (a path of JSON
//! keys and array indices, or the locked fields and headers of an HTTP
//! message) into the source text of a parameterized constraint-system
//! template, together with the numeric parameter vector and the witness data
//! that instantiate it for one concrete input.

pub mod byteseq;
pub mod circuit_config;
pub mod cli;
pub mod codegen;
pub mod error;
pub mod json_value;
pub mod item;
pub mod machine;
pub mod scan;
pub mod text;
pub mod witness;
