//! Build-time schema inference for configuration documents.
//!
//! Given a generic value tree parsed from a configuration file, the library
//! infers a minimal, well-typed structural schema (deduplicated record
//! definitions with minimal numeric widths and stable names) and renders it
//! as Rust source text: one struct declaration per record shape, and, on
//! request, a literal constant reproducing the document's exact values.

pub mod emit;
pub mod error;
pub mod infer;
pub mod numeric;
pub mod options;
pub mod registry;
pub mod text;
pub mod validation;
pub mod value;

pub mod laws;
