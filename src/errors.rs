use vstd::prelude::*;
use crate::graph::Node;

verus! {

/// Errors of converting SHACL shapes to ShEx.
#[derive(Debug, PartialEq, Eq)]
pub enum Shacl2ShExError {
    NotImplemented { msg: String },
    RDFNode2LabelLiteral { literal: Node },
}

impl Shacl2ShExError {
    pub fn not_implemented(msg: &str) -> (r: Shacl2ShExError)
        ensures
            r matches Shacl2ShExError::NotImplemented { msg: m } && m@ == msg@,
    {
        Shacl2ShExError::NotImplemented { msg: msg.to_owned() }
    }
}

/// Errors of reading SHACL shapes from a graph.
#[derive(Debug, PartialEq, Eq)]
pub enum ShaclParserError {
    ExpectedRDFNodeNodeShape { term: String },
    Custom { msg: String },
}

} // verus!
