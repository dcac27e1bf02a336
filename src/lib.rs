//! Validation of graph nodes against a compiled schema of shape expressions.
pub mod bag;
pub mod errors;
pub mod graph;
pub mod name;
pub mod schema;
pub mod shacl;
pub mod string_or_iri_stem;
pub mod tap2shex;
pub mod tap_reader_state;
pub mod validator;
