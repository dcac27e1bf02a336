use vstd::prelude::*;
use crate::graph::{objects, Graph, Node, Triple};
use crate::schema::{refs_below, CompiledSchema, NodeConstraint, ShapeExpr};

verus! {

/// Default bound on the number of worklist steps of one validator.
pub const MAX_STEPS: usize = 20;

/// An obligation: `node` must (positive) or must not (negative) conform to shape `idx`.
#[derive(Clone, Copy, Debug, PartialEq, Eq, Structural, Hash)]
pub struct Atom {
    pub node: Node,
    pub idx: usize,
    pub positive: bool,
}

impl Atom {
    pub fn pos(node: Node, idx: usize) -> (r: Atom)
        ensures
            r == (Atom { node, idx, positive: true }),
    {
        Atom { node, idx, positive: true }
    }

    pub fn negated(&self) -> (r: Atom)
        ensures
            r == (Atom { node: self.node, idx: self.idx, positive: !self.positive }),
    {
        Atom { node: self.node, idx: self.idx, positive: !self.positive }
    }
}

/// Three-valued outcome of evaluating a shape expression against what is known so far.
#[derive(Clone, Copy, Debug, PartialEq, Eq, Structural)]
pub enum Tri {
    Pass,
    Fail,
    Defer,
}

/// Classification of an obligation.
#[derive(Clone, Copy, Debug, PartialEq, Eq, Structural)]
pub enum ResultValue {
    Conforms,
    Fails,
    /// Submitted but not resolved within the step bound.
    Pending,
    /// Never submitted.
    Unknown,
}

#[derive(Debug, PartialEq, Eq)]
pub enum ValidatorError {
    NotFoundShapeLabel { shape: String },
    NotFoundShapeIdx { idx: usize },
}

pub open spec fn tri_not(a: Tri) -> Tri {
    match a {
        Tri::Pass => Tri::Fail,
        Tri::Fail => Tri::Pass,
        Tri::Defer => Tri::Defer,
    }
}

pub open spec fn tri_and(a: Tri, b: Tri) -> Tri {
    if a == Tri::Fail || b == Tri::Fail {
        Tri::Fail
    } else if a == Tri::Pass && b == Tri::Pass {
        Tri::Pass
    } else {
        Tri::Defer
    }
}

pub open spec fn tri_or(a: Tri, b: Tri) -> Tri {
    tri_not(tri_and(tri_not(a), tri_not(b)))
}

/// What the verdicts recorded in `c` say about `node` and shape `idx`.
pub open spec fn lookup(c: Seq<Atom>, node: Node, idx: usize) -> Tri {
    if c.contains(Atom { node, idx, positive: true }) {
        Tri::Pass
    } else if c.contains(Atom { node, idx, positive: false }) {
        Tri::Fail
    } else {
        Tri::Defer
    }
}

pub open spec fn node_ok(nc: NodeConstraint, n: Node) -> bool {
    match nc {
        NodeConstraint::Iri => n is Iri,
        NodeConstraint::Literal => n is Literal,
        NodeConstraint::Value(m) => n == m,
        NodeConstraint::MinInclusive(b) => n matches Node::Literal(v) && v >= b,
        NodeConstraint::MaxInclusive(b) => n matches Node::Literal(v) && v <= b,
    }
}

/// `k` values lie within the bounds; `min` absent means 1, `max` absent or -1 means unbounded.
pub open spec fn card_ok(k: nat, min: Option<i64>, max: Option<i64>) -> bool {
    let lo: int = match min {
        Some(m) => m as int,
        None => 1,
    };
    let hi_ok = match max {
        None => true,
        Some(m) => m == -1 || k <= m,
    };
    lo <= k && hi_ok
}

/// The outcome of `se` on `n` in graph `g`, when the shapes referenced are settled by `c`.
pub open spec fn eval(se: ShapeExpr, n: Node, g: Seq<Triple>, c: Seq<Atom>) -> Tri
    decreases se,
{
    match se {
        ShapeExpr::NodeConstraint(nc) => if node_ok(nc, n) {
            Tri::Pass
        } else {
            Tri::Fail
        },
        ShapeExpr::Ref(i) => lookup(c, n, i),
        ShapeExpr::TripleConstraint { pred, value_expr, min, max } => {
            let vs = objects(g, n, pred);
            if !card_ok(vs.len(), min, max) {
                Tri::Fail
            } else {
                match value_expr {
                    None => Tri::Pass,
                    Some(b) => if exists|j: int| 0 <= j < vs.len() && eval(*b, vs[j], g, c) == Tri::Fail {
                        Tri::Fail
                    } else if exists|j: int| 0 <= j < vs.len() && eval(*b, vs[j], g, c) == Tri::Defer {
                        Tri::Defer
                    } else {
                        Tri::Pass
                    },
                }
            }
        },
        ShapeExpr::And(a, b) => tri_and(eval(*a, n, g, c), eval(*b, n, g, c)),
        ShapeExpr::Or(a, b) => tri_or(eval(*a, n, g, c), eval(*b, n, g, c)),
        ShapeExpr::Not(a) => tri_not(eval(*a, n, g, c)),
    }
}

/// Queue `p` after obligation `a` is requested: it is appended unless it is settled by
/// `c`, queued already, or under evaluation (`proc`).
pub open spec fn enqueue(p: Seq<Atom>, c: Seq<Atom>, proc: Seq<Atom>, a: Atom) -> Seq<Atom> {
    if p.contains(a) || lookup(c, a.node, a.idx) != Tri::Defer || proc.contains(a) {
        p
    } else {
        p.push(a)
    }
}

/// Queue `p` after evaluating `se` on `n`: each reference met, in evaluation order, is
/// requested.
pub open spec fn submits(se: ShapeExpr, n: Node, g: Seq<Triple>, c: Seq<Atom>, proc: Seq<Atom>, p: Seq<Atom>) -> Seq<Atom>
    decreases se, 0nat,
{
    match se {
        ShapeExpr::NodeConstraint(_) => p,
        ShapeExpr::Ref(i) => enqueue(p, c, proc, Atom { node: n, idx: i, positive: true }),
        ShapeExpr::TripleConstraint { pred, value_expr, min, max } => {
            let vs = objects(g, n, pred);
            if !card_ok(vs.len(), min, max) {
                p
            } else {
                match value_expr {
                    None => p,
                    Some(b) => submits_all(*b, vs, g, c, proc, p),
                }
            }
        },
        ShapeExpr::And(a, b) => submits(*b, n, g, c, proc, submits(*a, n, g, c, proc, p)),
        ShapeExpr::Or(a, b) => submits(*b, n, g, c, proc, submits(*a, n, g, c, proc, p)),
        ShapeExpr::Not(a) => submits(*a, n, g, c, proc, p),
    }
}

/// Queue `p` after evaluating `b` on each of `vs` in turn.
pub open spec fn submits_all(b: ShapeExpr, vs: Seq<Node>, g: Seq<Triple>, c: Seq<Atom>, proc: Seq<Atom>, p: Seq<Atom>) -> Seq<Atom>
    decreases b, vs.len(),
{
    if vs.len() == 0 {
        p
    } else {
        submits(b, vs.last(), g, c, proc, submits_all(b, vs.drop_last(), g, c, proc, p))
    }
}

/// One worklist step on verdicts `c` and queue `p` (not empty): the first queued atom is
/// dropped when settled, else evaluated; its verdict is recorded, or it is queued again
/// after what its evaluation requested.
pub open spec fn step(schema: CompiledSchema, g: Seq<Triple>, c: Seq<Atom>, p: Seq<Atom>) -> (Seq<Atom>, Seq<Atom>) {
    let a = p[0];
    let rest = p.drop_first();
    if lookup(c, a.node, a.idx) != Tri::Defer {
        (c, rest)
    } else {
        let se = schema.expr(a.idx as int);
        let t = eval(se, a.node, g, c);
        let q = submits(se, a.node, g, c, seq![a], rest);
        if t == Tri::Defer {
            (c, q.push(a))
        } else {
            (c.push(if t == Tri::Pass { a } else { a.negated_spec() }), q)
        }
    }
}

/// Verdicts and queue after at most `fuel` steps, stopping early when the queue empties.
pub open spec fn run(schema: CompiledSchema, g: Seq<Triple>, c: Seq<Atom>, p: Seq<Atom>, fuel: nat) -> (Seq<Atom>, Seq<Atom>)
    decreases fuel,
{
    if fuel == 0 || p.len() == 0 {
        (c, p)
    } else {
        let next = step(schema, g, c, p);
        run(schema, g, next.0, next.1, (fuel - 1) as nat)
    }
}

/// The steps left under the bound.
pub open spec fn fuel_left(steps: nat, max_steps: nat) -> nat {
    if steps < max_steps {
        (max_steps - steps) as nat
    } else {
        0
    }
}

/// Every atom of `s` names a shape below `n`.
pub open spec fn in_range(s: Seq<Atom>, n: nat) -> bool {
    forall|i: int| 0 <= i < s.len() ==> #[trigger] s[i].idx < n
}

/// No two verdicts of `c` are about the same node and shape.
pub open spec fn consistent(c: Seq<Atom>) -> bool {
    forall|i: int, j: int|
        0 <= i < c.len() && 0 <= j < c.len() && i != j ==> !(#[trigger] c[i].node == #[trigger] c[j].node
            && c[i].idx == c[j].idx)
}

/// Each verdict of `c` from position `from` on follows, in graph `g`, from the verdicts before it.
pub open spec fn sound_from(schema: CompiledSchema, c: Seq<Atom>, from: int, g: Seq<Triple>) -> bool {
    forall|i: int|
        from <= i < c.len() ==> #[trigger] eval(schema.expr(c[i].idx as int), c[i].node, g, c.take(i))
            == if c[i].positive {
            Tri::Pass
        } else {
            Tri::Fail
        }
}

/// Queue `p` holds positive atoms, each once, none settled by the verdicts `c`.
pub open spec fn queue_ok(c: Seq<Atom>, p: Seq<Atom>) -> bool {
    &&& p.no_duplicates()
    &&& forall|i: int| 0 <= i < p.len() ==> (#[trigger] p[i]).positive && lookup(c, p[i].node, p[i].idx) == Tri::Defer
}

/// The classification of atom `a` given verdicts `c` and the work still queued in `p`.
pub open spec fn result_of(c: Seq<Atom>, p: Seq<Atom>, a: Atom) -> ResultValue {
    if c.contains(a) {
        ResultValue::Conforms
    } else if c.contains(Atom { positive: !a.positive, ..a }) {
        ResultValue::Fails
    } else if p.contains(Atom { positive: true, ..a }) {
        ResultValue::Pending
    } else {
        ResultValue::Unknown
    }
}

/// One line of a result map: a node, a shape label and the node's classification.
#[derive(Clone, Debug, PartialEq, Eq)]
pub struct ResultEntry {
    pub node: Node,
    pub label: String,
    pub value: ResultValue,
}

/// The classifications reached by a validator: first its verdicts in the order they were
/// reached, then its pending obligations.
#[derive(Clone, Debug, PartialEq, Eq)]
pub struct ResultMap {
    pub entries: Vec<ResultEntry>,
}

/// The result-map line for a verdict or a pending atom.
pub open spec fn entry_of(schema: CompiledSchema, a: Atom, pending: bool) -> (Node, Seq<char>, ResultValue) {
    (a.node, schema.label(a.idx as int), if pending {
        ResultValue::Pending
    } else if a.positive {
        ResultValue::Conforms
    } else {
        ResultValue::Fails
    })
}

impl ResultEntry {
    pub open spec fn view(&self) -> (Node, Seq<char>, ResultValue) {
        (self.node, self.label@, self.value)
    }
}

/// The worklist sets and the step counter of one validator.
struct ValidatorRunner {
    checked: Vec<Atom>,
    processing: Vec<Atom>,
    pending: Vec<Atom>,
    step_counter: usize,
    max_steps: usize,
}

fn contains_atom(v: &Vec<Atom>, a: Atom) -> (r: bool)
    ensures
        r == v@.contains(a),
{
    let mut i: usize = 0;
    while i < v.len()
        invariant
            i <= v@.len(),
            forall|j: int| 0 <= j < i ==> v@[j] != a,
        decreases v@.len() - i,
    {
        if v[i] == a {
            return true;
        }
        i += 1;
    }
    false
}

fn not3(a: Tri) -> (r: Tri)
    ensures
        r == tri_not(a),
{
    match a {
        Tri::Pass => Tri::Fail,
        Tri::Fail => Tri::Pass,
        Tri::Defer => Tri::Defer,
    }
}

fn and3(a: Tri, b: Tri) -> (r: Tri)
    ensures
        r == tri_and(a, b),
{
    if a == Tri::Fail || b == Tri::Fail {
        Tri::Fail
    } else if a == Tri::Pass && b == Tri::Pass {
        Tri::Pass
    } else {
        Tri::Defer
    }
}

fn check_node_constraint(nc: NodeConstraint, n: Node) -> (r: bool)
    ensures
        r == node_ok(nc, n),
{
    match nc {
        NodeConstraint::Iri => matches!(n, Node::Iri(_)),
        NodeConstraint::Literal => matches!(n, Node::Literal(_)),
        NodeConstraint::Value(m) => n == m,
        NodeConstraint::MinInclusive(b) => match n {
            Node::Literal(v) => v >= b,
            Node::Iri(_) => false,
        },
        NodeConstraint::MaxInclusive(b) => match n {
            Node::Literal(v) => v <= b,
            Node::Iri(_) => false,
        },
    }
}

fn check_cardinality(k: usize, min: Option<i64>, max: Option<i64>) -> (r: bool)
    ensures
        r == card_ok(k as nat, min, max),
{
    let lo_ok = match min {
        Some(m) => (k as i128) >= (m as i128),
        None => k >= 1,
    };
    let hi_ok = match max {
        None => true,
        Some(m) => m == -1 || (k as i128) <= (m as i128),
    };
    lo_ok && hi_ok
}

impl ValidatorRunner {
    spec fn wf(&self, n: nat) -> bool {
        &&& in_range(self.checked@, n)
        &&& in_range(self.pending@, n)
        &&& in_range(self.processing@, n)
        &&& consistent(self.checked@)
        &&& queue_ok(self.checked@, self.pending@)
        &&& forall|i: int| 0 <= i < self.processing@.len() ==> !self.pending@.contains(#[trigger] self.processing@[i])
    }

    /// What the verdicts so far say about `node` and shape `idx`.
    fn lookup(&self, node: Node, idx: usize) -> (r: Tri)
        ensures
            r == lookup(self.checked@, node, idx),
    {
        let mut found_pos = false;
        let mut found_neg = false;
        let mut i: usize = 0;
        while i < self.checked.len()
            invariant
                i <= self.checked@.len(),
                found_pos == exists|j: int| 0 <= j < i && self.checked@[j] == (Atom { node, idx, positive: true }),
                found_neg == exists|j: int| 0 <= j < i && self.checked@[j] == (Atom { node, idx, positive: false }),
            decreases self.checked@.len() - i,
        {
            let a = self.checked[i];
            if a.node == node && a.idx == idx {
                if a.positive {
                    found_pos = true;
                } else {
                    found_neg = true;
                }
            }
            i += 1;
        }
        if found_pos {
            Tri::Pass
        } else if found_neg {
            Tri::Fail
        } else {
            Tri::Defer
        }
    }

    fn add_pending(&mut self, node: Node, idx: usize, Ghost(n): Ghost<nat>)
        requires
            old(self).wf(n),
            idx < n,
        ensures
            final(self).wf(n),
            final(self).checked@ == old(self).checked@,
            final(self).processing@ == old(self).processing@,
            final(self).step_counter == old(self).step_counter,
            final(self).max_steps == old(self).max_steps,
            old(self).pending@.is_prefix_of(final(self).pending@),
            final(self).pending@ == (if old(self).pending@.contains(Atom::pos_spec(node, idx)) || lookup(
                old(self).checked@,
                node,
                idx,
            ) != Tri::Defer || old(self).processing@.contains(Atom::pos_spec(node, idx)) {
                old(self).pending@
            } else {
                old(self).pending@.push(Atom::pos_spec(node, idx))
            }),
    {
        let a = Atom::pos(node, idx);
        let t = self.lookup(node, idx);
        if t != Tri::Defer {
            return;
        }
        assert(lookup(self.checked@, a.node, a.idx) == Tri::Defer);
        if contains_atom(&self.processing, a) || contains_atom(&self.pending, a) {
            return;
        }
        let ghost p0 = self.pending@;
        assert(queue_ok(self.checked@, p0));
        self.pending.push(a);
        proof {
            let p1 = self.pending@;
            assert(p1.last() == a);
            assert forall|i: int, j: int| 0 <= i < p1.len() && 0 <= j < p1.len() && i != j implies p1[i] != p1[j] by {
                if j == p0.len() {
                    assert(p0[i] == p1[i]);
                    assert(p0.contains(p1[i]));
                } else if i == p0.len() {
                    assert(p0[j] == p1[j]);
                    assert(p0.contains(p1[j]));
                } else {
                    assert(p0[i] == p1[i] && p0[j] == p1[j]);
                }
            }
            assert(p1.no_duplicates());
            assert(in_range(p1, n)) by {
                assert forall|i: int| 0 <= i < p1.len() implies #[trigger] p1[i].idx < n by {
                    if i < p0.len() {
                        assert(p0[i] == p1[i]);
                    }
                }
            }
            assert forall|i: int| 0 <= i < self.processing@.len() implies !p1.contains(
                #[trigger] self.processing@[i],
            ) by {
                if p1.contains(self.processing@[i]) {
                    let k = choose|k: int| 0 <= k < p1.len() && p1[k] == self.processing@[i];
                    if k < p0.len() {
                        assert(p0[k] == p1[k]);
                    } else {
                        assert(self.processing@.contains(a));
                    }
                }
            }
            assert forall|i: int| 0 <= i < p1.len() implies (#[trigger] p1[i]).positive && lookup(
                self.checked@,
                p1[i].node,
                p1[i].idx,
            ) == Tri::Defer by {
                if i < p0.len() {
                    assert(p0[i] == p1[i]);
                    assert(p0[i].positive && lookup(self.checked@, p0[i].node, p0[i].idx) == Tri::Defer);
                } else {
                    assert(p1[i] == a);
                }
            }
        }
    }

    /// Evaluates `se` on `node`, queueing the referenced obligations that are not settled yet.
    fn check_node_shape_expr(&mut self, node: Node, se: &ShapeExpr, g: &Graph, Ghost(n): Ghost<nat>) -> (r: Tri)
        requires
            old(self).wf(n),
            refs_below(*se, n),
        ensures
            final(self).wf(n),
            final(self).checked@ == old(self).checked@,
            final(self).processing@ == old(self).processing@,
            final(self).step_counter == old(self).step_counter,
            final(self).max_steps == old(self).max_steps,
            old(self).pending@.is_prefix_of(final(self).pending@),
            final(self).pending@ == submits(*se, node, g@, old(self).checked@, old(self).processing@, old(self).pending@),
            r == eval(*se, node, g@, old(self).checked@),
        decreases se,
    {
        match se {
            ShapeExpr::NodeConstraint(nc) => {
                if check_node_constraint(*nc, node) {
                    Tri::Pass
                } else {
                    Tri::Fail
                }
            },
            ShapeExpr::Ref(i) => {
                let t = self.lookup(node, *i);
                if t == Tri::Defer {
                    self.add_pending(node, *i, Ghost(n));
                }
                t
            },
            ShapeExpr::TripleConstraint { pred, value_expr, min, max } => {
                let vs = g.neighbours(node, *pred);
                if !check_cardinality(vs.len(), *min, *max) {
                    return Tri::Fail;
                }
                match value_expr {
                    None => Tri::Pass,
                    Some(b) => {
                        let ghost c0 = self.checked@;
                        let ghost p0 = self.pending@;
                        let mut any_fail = false;
                        let mut any_defer = false;
                        let mut j: usize = 0;
                        while j < vs.len()
                            invariant
                                self.wf(n),
                                self.checked@ == c0,
                                c0 == old(self).checked@,
                                self.processing@ == old(self).processing@,
                                self.step_counter == old(self).step_counter,
                                self.max_steps == old(self).max_steps,
                                old(self).pending@.is_prefix_of(self.pending@),
                                refs_below(**b, n),
                                decreases_to!(*se => **b),
                                j <= vs@.len(),
                                p0 == old(self).pending@,
                                self.pending@ == submits_all(**b, vs@.take(j as int), g@, c0, old(self).processing@, p0),
                                any_fail == exists|k: int| 0 <= k < j && eval(**b, vs@[k], g@, c0) == Tri::Fail,
                                any_defer == exists|k: int| 0 <= k < j && eval(**b, vs@[k], g@, c0) == Tri::Defer,
                            decreases vs@.len() - j,
                        {
                            assert(vs@.take(j as int + 1).drop_last() =~= vs@.take(j as int));
                            let t = self.check_node_shape_expr(vs[j], &**b, g, Ghost(n));
                            if t == Tri::Fail {
                                any_fail = true;
                            } else if t == Tri::Defer {
                                any_defer = true;
                            }
                            j += 1;
                        }
                        assert(vs@.take(j as int) =~= vs@);
                        if any_fail {
                            Tri::Fail
                        } else if any_defer {
                            Tri::Defer
                        } else {
                            Tri::Pass
                        }
                    },
                }
            },
            ShapeExpr::And(a, b) => {
                let x = self.check_node_shape_expr(node, &**a, g, Ghost(n));
                let y = self.check_node_shape_expr(node, &**b, g, Ghost(n));
                and3(x, y)
            },
            ShapeExpr::Or(a, b) => {
                let x = self.check_node_shape_expr(node, &**a, g, Ghost(n));
                let y = self.check_node_shape_expr(node, &**b, g, Ghost(n));
                not3(and3(not3(x), not3(y)))
            },
            ShapeExpr::Not(a) => {
                let x = self.check_node_shape_expr(node, &**a, g, Ghost(n));
                not3(x)
            },
        }
    }
}

proof fn lemma_push_keeps(c: Seq<Atom>, x: Atom, y: Atom)
    requires
        c.contains(y),
    ensures
        c.push(x).contains(y),
{
    let k = choose|k: int| 0 <= k < c.len() && c[k] == y;
    assert(c.push(x)[k] == y);
}

proof fn lemma_prefix_keeps(a: Seq<Atom>, b: Seq<Atom>, y: Atom)
    requires
        a.contains(y),
        a.is_prefix_of(b),
    ensures
        b.contains(y),
{
    let k = choose|k: int| 0 <= k < a.len() && a[k] == y;
    assert(b[k] == y);
}

/// A shape expression that names no other shape is decided at once.
pub proof fn lemma_ref_free_decided(se: ShapeExpr, n: Node, g: Seq<Triple>, c: Seq<Atom>)
    requires
        refs_below(se, 0),
    ensures
        eval(se, n, g, c) != Tri::Defer,
    decreases se,
{
    match se {
        ShapeExpr::TripleConstraint { pred, value_expr, min, max } => {
            if let Some(b) = value_expr {
                let vs = objects(g, n, pred);
                assert forall|j: int| 0 <= j < vs.len() implies eval(*b, vs[j], g, c) != Tri::Defer by {
                    lemma_ref_free_decided(*b, vs[j], g, c);
                }
            }
        },
        ShapeExpr::And(a, b) => {
            lemma_ref_free_decided(*a, n, g, c);
            lemma_ref_free_decided(*b, n, g, c);
        },
        ShapeExpr::Or(a, b) => {
            lemma_ref_free_decided(*a, n, g, c);
            lemma_ref_free_decided(*b, n, g, c);
        },
        ShapeExpr::Not(a) => {
            lemma_ref_free_decided(*a, n, g, c);
        },
        _ => {},
    }
}

/// The worklist engine: a compiled schema and the obligations derived from it.
pub struct Validator {
    schema: CompiledSchema,
    runner: ValidatorRunner,
}

fn find_shape_idx(idx: usize, schema: &CompiledSchema) -> (r: &ShapeExpr)
    requires
        idx < schema.len(),
    ensures
        *r == schema.expr(idx as int),
{
    &schema.shapes[idx].1
}

impl Validator {
    pub closed spec fn schema(&self) -> CompiledSchema {
        self.schema
    }

    /// The verdicts so far, in the order they were reached: a positive atom records that
    /// the node conforms to the shape, a negative one that it does not.
    pub closed spec fn checked(&self) -> Seq<Atom> {
        self.runner.checked@
    }

    /// The obligations queued and not yet settled.
    pub closed spec fn pending(&self) -> Seq<Atom> {
        self.runner.pending@
    }

    pub closed spec fn steps(&self) -> nat {
        self.runner.step_counter as nat
    }

    pub closed spec fn max_steps(&self) -> nat {
        self.runner.max_steps as nat
    }

    /// The classification of node `n` against shape `idx`, with polarity `positive`.
    pub open spec fn result(&self, n: Node, idx: usize, positive: bool) -> ResultValue {
        result_of(self.checked(), self.pending(), Atom { node: n, idx, positive })
    }

    /// The atoms under evaluation; empty between runs.
    pub closed spec fn processing(&self) -> Seq<Atom> {
        self.runner.processing@
    }

    /// Well-formed, possibly in the middle of a step.
    pub closed spec fn wf_running(&self) -> bool {
        &&& self.schema.wf()
        &&& self.runner.wf(self.schema.len())
    }

    pub closed spec fn wf(&self) -> bool {
        &&& self.wf_running()
        &&& self.runner.processing@.len() == 0
    }

    /// Between runs nothing is under evaluation; the verdicts are never contradictory;
    /// every queued atom is positive, queued once and not settled; each atom names a shape
    /// of the schema. So each atom is in at most one of the three sets.
    pub proof fn lemma_wf_checked(&self)
        requires
            self.wf(),
        ensures
            self.wf_running(),
            self.schema().wf(),
            self.processing().len() == 0,
            consistent(self.checked()),
            queue_ok(self.checked(), self.pending()),
            in_range(self.checked(), self.schema().len()),
            in_range(self.pending(), self.schema().len()),
    {
    }

    /// A classification is pending exactly when the positive atom is queued.
    pub proof fn lemma_pending_exact(&self, n: Node, idx: usize, positive: bool)
        requires
            self.wf(),
        ensures
            (self.result(n, idx, positive) == ResultValue::Pending) == self.pending().contains(
                Atom::pos_spec(n, idx),
            ),
    {
        let a = Atom { node: n, idx, positive };
        let p = Atom::pos_spec(n, idx);
        assert((Atom { positive: true, ..a }) == p);
        if self.pending().contains(p) {
            let k = choose|k: int| 0 <= k < self.pending().len() && self.pending()[k] == p;
            assert(lookup(self.checked(), n, idx) == Tri::Defer);
            assert(!self.checked().contains(a));
            assert(!self.checked().contains(Atom { positive: !a.positive, ..a }));
        }
    }

    pub fn new(schema: CompiledSchema) -> (r: Validator)
        requires
            schema.wf(),
        ensures
            r.wf(),
            r.schema() == schema,
            r.checked() == Seq::<Atom>::empty(),
            r.pending() == Seq::<Atom>::empty(),
            r.processing() == Seq::<Atom>::empty(),
            r.steps() == 0,
            r.max_steps() == MAX_STEPS,
    {
        Validator {
            schema,
            runner: ValidatorRunner {
                checked: Vec::new(),
                processing: Vec::new(),
                pending: Vec::new(),
                step_counter: 0,
                max_steps: MAX_STEPS,
            },
        }
    }

    pub fn with_max_steps(self, max_steps: usize) -> (r: Validator)
        ensures
            r.wf() == self.wf(),
            r.schema() == self.schema(),
            r.checked() == self.checked(),
            r.pending() == self.pending(),
            r.processing() == self.processing(),
            r.steps() == self.steps(),
            r.max_steps() == max_steps,
    {
        let mut v = self;
        v.runner.max_steps = max_steps;
        v
    }

    /// Queues the positive obligation for `node` and shape `idx`, unless it is settled
    /// or queued already.
    pub fn submit(&mut self, node: Node, idx: usize)
        requires
            old(self).wf(),
            idx < old(self).schema().len(),
        ensures
            final(self).wf(),
            final(self).schema() == old(self).schema(),
            final(self).checked() == old(self).checked(),
            final(self).steps() == old(self).steps(),
            final(self).max_steps() == old(self).max_steps(),
            final(self).processing().len() == 0,
            old(self).pending().is_prefix_of(final(self).pending()),
            final(self).pending() == (if old(self).pending().contains(Atom::pos_spec(node, idx))
                || lookup(old(self).checked(), node, idx) != Tri::Defer {
                old(self).pending()
            } else {
                old(self).pending().push(Atom::pos_spec(node, idx))
            }),
    {
        let a = Atom::pos(node, idx);
        if self.runner.lookup(node, idx) != Tri::Defer || contains_atom(&self.runner.pending, a) {
            return;
        }
        self.runner.add_pending(node, idx, Ghost(self.schema.len()));
    }

    /// Evaluates the shape of `atom` on its node; a negative atom passes when the shape fails.
    pub fn check_node_atom(&mut self, atom: &Atom, rdf: &Graph) -> (r: Tri)
        requires
            old(self).wf_running(),
            atom.idx < old(self).schema().len(),
        ensures
            final(self).schema() == old(self).schema(),
            final(self).wf_running(),
            final(self).checked() == old(self).checked(),
            final(self).processing() == old(self).processing(),
            final(self).steps() == old(self).steps(),
            final(self).max_steps() == old(self).max_steps(),
            old(self).pending().is_prefix_of(final(self).pending()),
            final(self).pending() == submits(
                old(self).schema().expr(atom.idx as int),
                atom.node,
                rdf@,
                old(self).checked(),
                old(self).processing(),
                old(self).pending(),
            ),
            r == if atom.positive {
                eval(old(self).schema().expr(atom.idx as int), atom.node, rdf@, old(self).checked())
            } else {
                tri_not(eval(old(self).schema().expr(atom.idx as int), atom.node, rdf@, old(self).checked()))
            },
    {
        let se = find_shape_idx(atom.idx, &self.schema);
        let t = self.runner.check_node_shape_expr(atom.node, se, rdf, Ghost(self.schema.len()));
        if atom.positive {
            t
        } else {
            not3(t)
        }
    }

    /// Validates `node` against the shape labelled `shape`: queues the obligation and
    /// drains the worklist until it is empty or the step bound is reached.
    pub fn validate_node_shape(&mut self, node: Node, shape: &String, rdf: &Graph) -> (r: Result<(), ValidatorError>)
        requires
            old(self).wf(),
        ensures
            final(self).wf(),
            final(self).schema() == old(self).schema(),
            final(self).max_steps() == old(self).max_steps(),
            old(self).steps() <= final(self).steps(),
            old(self).checked().is_prefix_of(final(self).checked()),
            sound_from(final(self).schema(), final(self).checked(), old(self).checked().len() as int, rdf@),
            match r {
                Err(e) => {
                    &&& old(self).schema().lacks_label(shape@)
                    &&& e matches ValidatorError::NotFoundShapeLabel { shape: s } && s@ == shape@
                    &&& *final(self) == *old(self)
                },
                Ok(()) => exists|i: int| {
                    &&& #[trigger] old(self).schema().is_first_label(i, shape@)
                    &&& final(self).result(node, i as usize, true) != ResultValue::Unknown
                    &&& (old(self).pending().len() == 0 && old(self).steps() < old(self).max_steps()
                        && refs_below(old(self).schema().expr(i), 0)) ==> (final(self).result(node, i as usize, true)
                        == ResultValue::Conforms || final(self).result(node, i as usize, true) == ResultValue::Fails)
                },
            },
            final(self).processing().len() == 0,
            r is Ok ==> final(self).pending().len() == 0 || final(self).steps() >= final(self).max_steps(),
            old(self).steps() <= old(self).max_steps() ==> final(self).steps() <= final(self).max_steps(),
            r is Ok && old(self).steps() <= old(self).max_steps() ==> (final(self).pending().len() == 0
                || final(self).steps() == final(self).max_steps()),
            final(self).steps() - old(self).steps() <= fuel_left(old(self).steps(), old(self).max_steps()),
            r is Ok ==> exists|i: usize| #![trigger old(self).schema().is_first_label(i as int, shape@)]
                old(self).schema().is_first_label(i as int, shape@) && (final(self).checked(), final(self).pending())
                == run(
                old(self).schema(),
                rdf@,
                old(self).checked(),
                enqueue(old(self).pending(), old(self).checked(), Seq::empty(), Atom::pos_spec(node, i)),
                fuel_left(old(self).steps(), old(self).max_steps()),
            ),
    {
        let idx = match self.get_idx(shape) {
            Ok(i) => i,
            Err(e) => return Err(e),
        };
        let ghost c0 = self.runner.checked@;
        let ghost n = self.schema.len();
        let ghost a = Atom::pos_spec(node, idx);
        let ghost fresh = self.runner.pending@.len() == 0 && self.runner.step_counter < self.runner.max_steps
            && refs_below(self.schema.expr(idx as int), 0) && lookup(c0, node, idx) == Tri::Defer;
        let ghost p_start = self.runner.pending@;
        self.submit(node, idx);
        let ghost target = run(self.schema, rdf@, c0, self.runner.pending@, fuel_left(
            self.runner.step_counter as nat,
            self.runner.max_steps as nat,
        ));
        proof {
            assert(!Seq::<Atom>::empty().contains(a));
            assert(self.runner.pending@ == enqueue(p_start, c0, Seq::empty(), a));
            assert(a.negated_spec() == (Atom { node, idx, positive: false }));
            if !p_start.contains(a) && lookup(c0, node, idx) == Tri::Defer {
                assert(self.runner.pending@ == p_start.push(a));
                assert(self.runner.pending@[p_start.len() as int] == a);
            }
            if fresh {
                assert(self.runner.pending@ =~= seq![a]);
            }
        }
        while self.runner.step_counter < self.runner.max_steps && self.runner.pending.len() > 0
            invariant
                self.wf(),
                self.schema == old(self).schema,
                n == self.schema.len(),
                self.runner.max_steps == old(self).runner.max_steps,
                old(self).runner.step_counter <= self.runner.step_counter,
                old(self).runner.step_counter <= old(self).runner.max_steps ==> self.runner.step_counter
                    <= self.runner.max_steps,
                self.runner.step_counter - old(self).runner.step_counter <= fuel_left(
                    old(self).runner.step_counter as nat,
                    old(self).runner.max_steps as nat,
                ),
                c0 == old(self).runner.checked@,
                c0.is_prefix_of(self.runner.checked@),
                sound_from(self.schema, self.runner.checked@, c0.len() as int, rdf@),
                self.schema.is_first_label(idx as int, shape@),
                self.runner.checked@.contains(a) || self.runner.checked@.contains(a.negated_spec())
                    || self.runner.pending@.contains(a),
                a == Atom::pos_spec(node, idx),
                idx < n,
                run(self.schema, rdf@, self.runner.checked@, self.runner.pending@, fuel_left(
                    self.runner.step_counter as nat,
                    self.runner.max_steps as nat,
                )) == target,
                fresh ==> refs_below(self.schema.expr(idx as int), 0),
                fresh ==> (self.runner.checked@.contains(a) || self.runner.checked@.contains(a.negated_spec())
                    || (self.runner.pending@ == seq![a] && self.runner.step_counter < self.runner.max_steps)),
            decreases self.runner.max_steps - self.runner.step_counter,
        {
            let ghost f0 = fuel_left(self.runner.step_counter as nat, self.runner.max_steps as nat);
            self.runner.step_counter += 1;
            let ghost p0 = self.runner.pending@;
            let ghost c1 = self.runner.checked@;
            let ghost nxt = step(self.schema, rdf@, c1, p0);
            assert(run(self.schema, rdf@, c1, p0, f0) == run(self.schema, rdf@, nxt.0, nxt.1, (f0 - 1) as nat));
            let atom = self.runner.pending.remove(0);
            proof {
                assert(self.runner.pending@ =~= p0.drop_first());
                assert(p0[0] == atom);
                if p0.contains(a) && atom != a {
                    let k = choose|k: int| 0 <= k < p0.len() && p0[k] == a;
                    assert(self.runner.pending@[k - 1] == a);
                }
            }
            if self.runner.lookup(atom.node, atom.idx) != Tri::Defer {
                proof {
                    if atom == a {
                        let nn = atom.node;
                        let ii = atom.idx;
                        assert(a.negated_spec() == (Atom { node: nn, idx: ii, positive: false }));
                    }
                    assert(nxt == (c1, self.runner.pending@));
                }
                continue;
            }
            self.runner.processing.push(atom);
            assert(self.runner.processing@ =~= seq![atom]);
            assert(atom.positive);
            let t = self.check_node_atom(&atom, rdf);
            self.runner.processing.pop();
            proof {
                if fresh && atom == a {
                    lemma_ref_free_decided(self.schema.expr(idx as int), node, rdf@, c1);
                }
                assert(self.runner.processing@ =~= Seq::<Atom>::empty());
                if self.runner.pending@.len() > 0 && p0.contains(a) && atom != a {
                    let k = choose|k: int| 0 <= k < p0.len() - 1 && p0.drop_first()[k] == a;
                    assert(self.runner.pending@[k] == a);
                }
            }
            let ghost p1 = self.runner.pending@;
            let ghost c2 = self.runner.checked@;
            if t == Tri::Defer {
                self.runner.pending.push(atom);
                proof {
                    assert(nxt == (c1, self.runner.pending@));
                    assert(self.runner.pending@.last() == atom);
                    if p1.contains(a) {
                        lemma_push_keeps(p1, atom, a);
                    }
                }
            } else {
                let x = if t == Tri::Pass {
                    atom
                } else {
                    atom.negated()
                };
                self.runner.checked.push(x);
                proof {
                    let c3 = self.runner.checked@;
                    assert(x == if t == Tri::Pass { atom } else { atom.negated_spec() });
                    assert(nxt == (c3, self.runner.pending@));
                    assert(c3.last() == x);
                    assert forall|i: int| c0.len() <= i < c3.len() implies #[trigger] eval(
                        self.schema.expr(c3[i].idx as int),
                        c3[i].node,
                        rdf@,
                        c3.take(i),
                    ) == if c3[i].positive {
                        Tri::Pass
                    } else {
                        Tri::Fail
                    } by {
                        if i < c2.len() {
                            assert(c3.take(i) =~= c2.take(i));
                            assert(c3[i] == c2[i]);
                        } else {
                            assert(c3.take(i) =~= c2);
                        }
                    }
                    assert forall|i: int, j: int|
                        0 <= i < c3.len() && 0 <= j < c3.len() && i != j implies !(#[trigger] c3[i].node
                        == #[trigger] c3[j].node && c3[i].idx == c3[j].idx) by {
                        if i == c2.len() as int || j == c2.len() as int {
                            let k = if i == c2.len() as int { j } else { i };
                            if c2[k].node == x.node && c2[k].idx == x.idx {
                                assert(c2[k] == (Atom { node: atom.node, idx: atom.idx, positive: c2[k].positive }));
                                assert(c2.contains(c2[k]));
                            }
                        }
                    }
                    assert(c0.is_prefix_of(c3));
                    if c2.contains(a) {
                        lemma_push_keeps(c2, x, a);
                    }
                    if c2.contains(a.negated_spec()) {
                        lemma_push_keeps(c2, x, a.negated_spec());
                    }
                    if atom == a {
                        assert(c3[c2.len() as int] == x);
                        if t == Tri::Pass {
                            assert(c3.contains(a));
                        } else {
                            assert(c3.contains(a.negated_spec()));
                        }
                    }
                }
            }
        }
        proof {
            assert(a.negated_spec() == (Atom { positive: !a.positive, ..a }));
            assert(self.schema.is_first_label(idx as int, shape@));
        }
        Ok(())
    }

    fn atom_result(&self, atom: Atom) -> (r: ResultValue)
        ensures
            r == result_of(self.checked(), self.pending(), atom),
    {
        if contains_atom(&self.runner.checked, atom) {
            ResultValue::Conforms
        } else if contains_atom(&self.runner.checked, atom.negated()) {
            ResultValue::Fails
        } else if contains_atom(&self.runner.pending, Atom::pos(atom.node, atom.idx)) {
            ResultValue::Pending
        } else {
            ResultValue::Unknown
        }
    }

    /// The classification of `node` against the shape labelled `shape`.
    pub fn get_result(&self, node: Node, shape: &String) -> (r: Result<ResultValue, ValidatorError>)
        ensures
            match r {
                Ok(v) => exists|i: int| #[trigger] self.schema().is_first_label(i, shape@)
                    && v == self.result(node, i as usize, true),
                Err(e) => {
                    &&& self.schema().lacks_label(shape@)
                    &&& e matches ValidatorError::NotFoundShapeLabel { shape: s } && s@ == shape@
                },
            },
    {
        match self.get_idx(shape) {
            Ok(idx) => {
                let v = self.atom_result(Atom::pos(node, idx));
                assert(self.schema().is_first_label(idx as int, shape@) && v == self.result(node, idx, true));
                Ok(v)
            },
            Err(e) => Err(e),
        }
    }

    /// The classification of the atom `(node, idx, positive)`; an error for an unknown handle.
    pub fn classification(&self, node: Node, idx: usize, positive: bool) -> (r: Result<ResultValue, ValidatorError>)
        ensures
            match r {
                Ok(v) => idx < self.schema().len() && v == self.result(node, idx, positive),
                Err(e) => idx >= self.schema().len() && e == (ValidatorError::NotFoundShapeIdx { idx }),
            },
    {
        if idx < self.schema.shapes.len() {
            Ok(self.atom_result(Atom { node, idx, positive }))
        } else {
            Err(ValidatorError::NotFoundShapeIdx { idx })
        }
    }

    /// The label of shape `idx`.
    pub fn get_shape_label(&self, idx: usize) -> (r: &String)
        requires
            idx < self.schema().len(),
        ensures
            r@ == self.schema().label(idx as int),
    {
        &self.schema.shapes[idx].0
    }

    /// The verdicts, then the pending obligations, each with its shape's label.
    pub fn result_map(&self) -> (r: ResultMap)
        requires
            self.wf(),
        ensures
            r.entries@.len() == self.checked().len() + self.pending().len(),
            forall|i: int| 0 <= i < self.checked().len() ==> #[trigger] r.entries@[i]@ == entry_of(
                self.schema(),
                self.checked()[i],
                false,
            ),
            forall|i: int| 0 <= i < self.pending().len() ==> #[trigger] r.entries@[self.checked().len() + i]@
                == entry_of(self.schema(), self.pending()[i], true),
            forall|i: int, j: int|
                0 <= i < r.entries@.len() && 0 <= j < r.entries@.len() && i != j ==> !(#[trigger] r.entries@[i]@.0
                    == #[trigger] r.entries@[j]@.0 && r.entries@[i]@.1 == r.entries@[j]@.1),
    {
        let mut entries: Vec<ResultEntry> = Vec::new();
        let mut i: usize = 0;
        while i < self.runner.checked.len()
            invariant
                self.wf(),
                i <= self.checked().len(),
                entries@.len() == i,
                forall|k: int| 0 <= k < i ==> #[trigger] entries@[k]@ == entry_of(self.schema(), self.checked()[k], false),
            decreases self.checked().len() - i,
        {
            let a = self.runner.checked[i];
            let value = if a.positive {
                ResultValue::Conforms
            } else {
                ResultValue::Fails
            };
            entries.push(ResultEntry { node: a.node, label: self.get_shape_label(a.idx).clone(), value });
            i += 1;
        }
        let n = self.runner.checked.len();
        let mut j: usize = 0;
        while j < self.runner.pending.len()
            invariant
                self.wf(),
                n == self.checked().len(),
                j <= self.pending().len(),
                entries@.len() == n + j,
                forall|k: int| 0 <= k < n ==> #[trigger] entries@[k]@ == entry_of(self.schema(), self.checked()[k], false),
                forall|k: int| 0 <= k < j ==> #[trigger] entries@[n + k]@ == entry_of(self.schema(), self.pending()[k], true),
            decreases self.pending().len() - j,
        {
            let a = self.runner.pending[j];
            entries.push(ResultEntry { node: a.node, label: self.get_shape_label(a.idx).clone(), value: ResultValue::Pending });
            j += 1;
        }
        proof {
            let c = self.checked();
            let p = self.pending();
            let sch = self.schema();
            self.lemma_wf_checked();
            assert forall|i: int, j: int|
                0 <= i < entries@.len() && 0 <= j < entries@.len() && i != j implies !(#[trigger] entries@[i]@.0
                    == #[trigger] entries@[j]@.0 && entries@[i]@.1 == entries@[j]@.1) by {
                let x = if i < n { c[i] } else { p[i - n] };
                let y = if j < n { c[j] } else { p[j - n] };
                if i < n {
                    assert(entries@[i]@ == entry_of(sch, c[i], false));
                } else {
                    assert(entries@[n + (i - n)]@ == entry_of(sch, p[i - n], true));
                }
                if j < n {
                    assert(entries@[j]@ == entry_of(sch, c[j], false));
                } else {
                    assert(entries@[n + (j - n)]@ == entry_of(sch, p[j - n], true));
                }
                if x.node == y.node && sch.label(x.idx as int) == sch.label(y.idx as int) {
                    assert(x.idx < sch.len() && y.idx < sch.len());
                    assert(x.idx == y.idx);
                    if i < n && j < n {
                        assert(c[i].node == c[j].node && c[i].idx == c[j].idx);
                    } else if i >= n && j >= n {
                        assert(p[i - n] == p[j - n]);
                    } else {
                        let (s, q) = if i < n { (x, y) } else { (y, x) };
                        assert(c.contains(s));
                        assert(s == (Atom { node: q.node, idx: q.idx, positive: s.positive }));
                        if s.positive {
                            assert(c.contains(Atom { node: q.node, idx: q.idx, positive: true }));
                        } else {
                            assert(c.contains(Atom { node: q.node, idx: q.idx, positive: false }));
                        }
                        assert(lookup(c, q.node, q.idx) != Tri::Defer);
                    }
                }
            }
        }
        ResultMap { entries }
    }

    fn get_idx(&self, shape: &String) -> (r: Result<usize, ValidatorError>)
        ensures
            match r {
                Ok(i) => self.schema.is_first_label(i as int, shape@),
                Err(e) => {
                    &&& self.schema.lacks_label(shape@)
                    &&& e matches ValidatorError::NotFoundShapeLabel { shape: s } && s@ == shape@
                },
            },
    {
        match self.schema.find_label(shape) {
            Some(i) => Ok(i),
            None => Err(ValidatorError::NotFoundShapeLabel { shape: shape.clone() }),
        }
    }
}

proof fn lemma_settled_kept(c1: Seq<Atom>, p1: Seq<Atom>, c2: Seq<Atom>, p2: Seq<Atom>, a: Atom)
    requires
        c1.is_prefix_of(c2),
        consistent(c2),
        result_of(c1, p1, a) == ResultValue::Conforms || result_of(c1, p1, a) == ResultValue::Fails,
    ensures
        result_of(c2, p2, a) == result_of(c1, p1, a),
{
    let na = Atom { positive: !a.positive, ..a };
    if c1.contains(a) {
        lemma_prefix_keeps(c1, c2, a);
    } else {
        lemma_prefix_keeps(c1, c2, na);
        if c2.contains(a) {
            let j = choose|j: int| 0 <= j < c2.len() && c2[j] == a;
            let k = choose|k: int| 0 <= k < c2.len() && c2[k] == na;
            assert(c2[j].node == c2[k].node && c2[j].idx == c2[k].idx);
        }
    }
}

/// A settled classification stays as it is while verdicts are only added, as they are
/// by `submit` and `validate_node_shape`.
pub proof fn lemma_settled_absorbing(before: &Validator, after: &Validator, n: Node, idx: usize, positive: bool)
    requires
        after.wf(),
        before.checked().is_prefix_of(after.checked()),
        before.result(n, idx, positive) == ResultValue::Conforms || before.result(n, idx, positive)
            == ResultValue::Fails,
    ensures
        after.result(n, idx, positive) == before.result(n, idx, positive),
{
    after.lemma_wf_checked();
    lemma_settled_kept(before.checked(), before.pending(), after.checked(), after.pending(), Atom { node: n, idx, positive });
}

proof fn lemma_run_extends(schema: CompiledSchema, g: Seq<Triple>, c: Seq<Atom>, p: Seq<Atom>, k: nat)
    ensures
        c.is_prefix_of(run(schema, g, c, p, k).0),
    decreases k,
{
    if k > 0 && p.len() > 0 {
        let nxt = step(schema, g, c, p);
        lemma_run_extends(schema, g, nxt.0, nxt.1, (k - 1) as nat);
        assert(c.is_prefix_of(nxt.0));
    }
}

/// A run with a smaller step bound records a prefix of the verdicts of a run with a
/// larger one from the same state.
pub proof fn lemma_run_prefix(schema: CompiledSchema, g: Seq<Triple>, c: Seq<Atom>, p: Seq<Atom>, k1: nat, k2: nat)
    requires
        k1 <= k2,
    ensures
        run(schema, g, c, p, k1).0.is_prefix_of(run(schema, g, c, p, k2).0),
    decreases k1,
{
    if k1 == 0 || p.len() == 0 {
        lemma_run_extends(schema, g, c, p, k2);
    } else {
        let nxt = step(schema, g, c, p);
        lemma_run_prefix(schema, g, nxt.0, nxt.1, (k1 - 1) as nat, (k2 - 1) as nat);
    }
}

/// Raising the step bound never turns a settled classification into another one (in
/// particular not into pending): a run from the same state with a larger bound classifies
/// every atom settled by the smaller run the same way.
pub proof fn lemma_bound_monotonic(
    schema: CompiledSchema,
    g: Seq<Triple>,
    c: Seq<Atom>,
    p: Seq<Atom>,
    k1: nat,
    k2: nat,
    a: Atom,
)
    requires
        k1 <= k2,
        consistent(run(schema, g, c, p, k2).0),
        result_of(run(schema, g, c, p, k1).0, run(schema, g, c, p, k1).1, a) == ResultValue::Conforms
            || result_of(run(schema, g, c, p, k1).0, run(schema, g, c, p, k1).1, a) == ResultValue::Fails,
    ensures
        result_of(run(schema, g, c, p, k2).0, run(schema, g, c, p, k2).1, a) == result_of(
            run(schema, g, c, p, k1).0,
            run(schema, g, c, p, k1).1,
            a,
        ),
{
    lemma_run_prefix(schema, g, c, p, k1, k2);
    let r1 = run(schema, g, c, p, k1);
    let r2 = run(schema, g, c, p, k2);
    lemma_settled_kept(r1.0, r1.1, r2.0, r2.1, a);
}

/// Negation is a polarity flip: the negative atom conforms exactly when the positive one
/// fails, and fails exactly when the positive one conforms.
pub proof fn lemma_negation(v: &Validator, n: Node, idx: usize)
    requires
        v.wf(),
    ensures
        v.result(n, idx, true) == ResultValue::Fails <==> v.result(n, idx, false) == ResultValue::Conforms,
        v.result(n, idx, true) == ResultValue::Conforms <==> v.result(n, idx, false) == ResultValue::Fails,
{
    let p = Atom { node: n, idx, positive: true };
    let q = Atom { node: n, idx, positive: false };
    let c = v.checked();
    v.lemma_wf_checked();
    assert((Atom { positive: !p.positive, ..p }) == q);
    assert((Atom { positive: !q.positive, ..q }) == p);
    if c.contains(p) && c.contains(q) {
        let j = choose|j: int| 0 <= j < c.len() && c[j] == p;
        let k = choose|k: int| 0 <= k < c.len() && c[k] == q;
        assert(c[j].node == c[k].node && c[j].idx == c[k].idx);
    }
}

/// Verdicts reached in successive runs over the same graph are sound together.
pub proof fn lemma_sound_extend(schema: CompiledSchema, c1: Seq<Atom>, c2: Seq<Atom>, g: Seq<Triple>)
    requires
        sound_from(schema, c1, 0, g),
        c1.is_prefix_of(c2),
        sound_from(schema, c2, c1.len() as int, g),
    ensures
        sound_from(schema, c2, 0, g),
{
    assert forall|i: int| 0 <= i < c2.len() implies #[trigger] eval(
        schema.expr(c2[i].idx as int),
        c2[i].node,
        g,
        c2.take(i),
    ) == if c2[i].positive {
        Tri::Pass
    } else {
        Tri::Fail
    } by {
        if i < c1.len() {
            assert(c2.take(i) =~= c1.take(i));
            assert(c2[i] == c1[i]);
        }
    }
}

proof fn lemma_no_verdict_on_self_ref(schema: CompiledSchema, c: Seq<Atom>, g: Seq<Triple>, idx: usize, k: int)
    requires
        0 <= k <= c.len(),
        schema.expr(idx as int) == ShapeExpr::Ref(idx),
        sound_from(schema, c, 0, g),
    ensures
        forall|j: int| 0 <= j < k ==> c[j].idx != idx,
    decreases k,
{
    if k > 0 {
        lemma_no_verdict_on_self_ref(schema, c, g, idx, k - 1);
        let m = k - 1;
        if c[m].idx == idx {
            let t = c.take(m);
            assert(eval(schema.expr(c[m].idx as int), c[m].node, g, t) == if c[m].positive {
                Tri::Pass
            } else {
                Tri::Fail
            });
            assert(!t.contains(Atom { node: c[m].node, idx, positive: true }));
            assert(!t.contains(Atom { node: c[m].node, idx, positive: false }));
        }
    }
}

/// A shape whose whole definition is a reference to itself is never settled, for any
/// node and any step bound: its obligations stay pending.
pub proof fn lemma_self_reference_unresolved(v: &Validator, g: Seq<Triple>, n: Node, idx: usize)
    requires
        v.wf(),
        idx < v.schema().len(),
        v.schema().expr(idx as int) == ShapeExpr::Ref(idx),
        sound_from(v.schema(), v.checked(), 0, g),
    ensures
        v.result(n, idx, true) != ResultValue::Conforms,
        v.result(n, idx, true) != ResultValue::Fails,
{
    let c = v.checked();
    lemma_no_verdict_on_self_ref(v.schema(), c, g, idx, c.len() as int);
    assert(!c.contains(Atom { node: n, idx, positive: true }));
    assert(!c.contains(Atom { node: n, idx, positive: false }));
}

impl Atom {
    pub open spec fn negated_spec(self) -> Atom {
        Atom { node: self.node, idx: self.idx, positive: !self.positive }
    }

    pub open spec fn pos_spec(node: Node, idx: usize) -> Atom {
        Atom { node, idx, positive: true }
    }
}

} // verus!
