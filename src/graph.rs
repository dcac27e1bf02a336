use vstd::prelude::*;

verus! {

/// A node of the graph: an IRI (by its dense identifier) or an integer literal.
#[derive(Clone, Copy, Debug, PartialEq, Eq, Structural, Hash)]
pub enum Node {
    Iri(u64),
    Literal(i64),
}

/// One edge `subject --pred--> object`.
#[derive(Clone, Copy, Debug, PartialEq, Eq, Structural, Hash)]
pub struct Triple {
    pub subject: Node,
    pub pred: u64,
    pub object: Node,
}

/// An in-memory graph store: a list of edges.
pub struct Graph {
    pub triples: Vec<Triple>,
}

/// The objects of the edges leaving `n` labelled `p`, in edge order.
pub open spec fn objects(g: Seq<Triple>, n: Node, p: u64) -> Seq<Node>
    decreases g.len(),
{
    if g.len() == 0 {
        Seq::empty()
    } else {
        let rest = objects(g.drop_last(), n, p);
        if g.last().subject == n && g.last().pred == p {
            rest.push(g.last().object)
        } else {
            rest
        }
    }
}

impl Graph {
    pub open spec fn view(&self) -> Seq<Triple> {
        self.triples@
    }

    pub fn new(triples: Vec<Triple>) -> (r: Graph)
        ensures
            r@ == triples@,
    {
        Graph { triples }
    }

    /// The values reached from `n` through edges labelled `p`.
    pub fn neighbours(&self, n: Node, p: u64) -> (r: Vec<Node>)
        ensures
            r@ == objects(self@, n, p),
    {
        let mut r: Vec<Node> = Vec::new();
        let mut i: usize = 0;
        while i < self.triples.len()
            invariant
                i <= self.triples@.len(),
                r@ == objects(self.triples@.take(i as int), n, p),
            decreases self.triples@.len() - i,
        {
            let t = self.triples[i];
            assert(self.triples@.take(i as int + 1).drop_last() =~= self.triples@.take(i as int));
            if t.subject == n && t.pred == p {
                r.push(t.object);
            }
            i += 1;
        }
        assert(self.triples@.take(i as int) =~= self.triples@);
        r
    }
}

} // verus!
