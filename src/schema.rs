use vstd::prelude::*;
use crate::graph::Node;

verus! {

/// A leaf predicate on a single node.
#[derive(Clone, Copy, Debug, PartialEq, Eq, Structural)]
pub enum NodeConstraint {
    Iri,
    Literal,
    Value(Node),
    MinInclusive(i64),
    MaxInclusive(i64),
}

/// A shape expression. `Ref` names another shape by its handle.
/// In a triple constraint `min == None` means 1, and `max == None` or `max == Some(-1)`
/// means unbounded.
#[derive(Debug)]
pub enum ShapeExpr {
    NodeConstraint(NodeConstraint),
    Ref(usize),
    TripleConstraint { pred: u64, value_expr: Option<Box<ShapeExpr>>, min: Option<i64>, max: Option<i64> },
    And(Box<ShapeExpr>, Box<ShapeExpr>),
    Or(Box<ShapeExpr>, Box<ShapeExpr>),
    Not(Box<ShapeExpr>),
}

/// Every handle named in `se` is below `n`.
pub open spec fn refs_below(se: ShapeExpr, n: nat) -> bool
    decreases se,
{
    match se {
        ShapeExpr::NodeConstraint(_) => true,
        ShapeExpr::Ref(i) => i < n,
        ShapeExpr::TripleConstraint { value_expr, .. } => match value_expr {
            Some(b) => refs_below(*b, n),
            None => true,
        },
        ShapeExpr::And(a, b) => refs_below(*a, n) && refs_below(*b, n),
        ShapeExpr::Or(a, b) => refs_below(*a, n) && refs_below(*b, n),
        ShapeExpr::Not(a) => refs_below(*a, n),
    }
}

/// A compiled schema: a table of labelled shape expressions, indexed by handle.
pub struct CompiledSchema {
    pub shapes: Vec<(String, ShapeExpr)>,
}

impl CompiledSchema {
    pub open spec fn len(&self) -> nat {
        self.shapes@.len()
    }

    pub open spec fn expr(&self, i: int) -> ShapeExpr {
        self.shapes@[i].1
    }

    pub open spec fn label(&self, i: int) -> Seq<char> {
        self.shapes@[i].0@
    }

    /// Every reference points into the table, and no two handles share a label.
    pub open spec fn wf(&self) -> bool {
        &&& forall|i: int| 0 <= i < self.len() ==> #[trigger] refs_below(self.expr(i), self.len())
        &&& forall|i: int, j: int|
            0 <= i < self.len() && 0 <= j < self.len() && i != j ==> #[trigger] self.label(i) != #[trigger] self.label(j)
    }

    /// `i` is the first handle whose label is `l`.
    pub open spec fn is_first_label(&self, i: int, l: Seq<char>) -> bool {
        &&& 0 <= i < self.len()
        &&& self.label(i) == l
        &&& forall|j: int| 0 <= j < i ==> self.label(j) != l
    }

    /// No handle carries the label `l`.
    pub open spec fn lacks_label(&self, l: Seq<char>) -> bool {
        forall|j: int| 0 <= j < self.len() ==> self.label(j) != l
    }

    pub fn new(shapes: Vec<(String, ShapeExpr)>) -> (r: CompiledSchema)
        ensures
            r.shapes@ == shapes@,
    {
        CompiledSchema { shapes }
    }

    /// Looks up the handle of a shape label (the first entry that carries it).
    pub fn find_label(&self, l: &String) -> (r: Option<usize>)
        ensures
            match r {
                Some(i) => self.is_first_label(i as int, l@),
                None => self.lacks_label(l@),
            },
    {
        let mut i: usize = 0;
        while i < self.shapes.len()
            invariant
                i <= self.len(),
                forall|j: int| 0 <= j < i ==> self.label(j) != l@,
            decreases self.len() - i,
        {
            if self.shapes[i].0 == *l {
                return Some(i);
            }
            i += 1;
        }
        None
    }
}

} // verus!
