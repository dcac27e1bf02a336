use vstd::prelude::*;
use crate::graph::{objects, Graph, Node, Triple};
use vstd::string::StringExecFns;

verus! {

/// How leaf constraints are evaluated: by walking the graph, or by boolean queries that
/// the store answers.
#[derive(Clone, Copy, Debug, PartialEq, Eq, Structural)]
pub enum Strategy {
    Default,
    Query,
}

impl Strategy {
    /// The strategy for a run: queries when the store can answer them, traversal otherwise.
    pub fn for_store(queryable: bool) -> (r: Strategy)
        ensures
            r == (if queryable {
                Strategy::Query
            } else {
                Strategy::Default
            }),
    {
        if queryable {
            Strategy::Query
        } else {
            Strategy::Default
        }
    }
}

/// What a violation record carries from the constraint being checked.
#[derive(Clone, Copy, Debug, PartialEq, Eq, Structural)]
pub struct Context {
    pub component: Node,
    pub source_shape: Option<Node>,
    pub path: Option<Node>,
    pub severity: Node,
}

/// One violation of a constraint.
#[derive(Clone, Debug, PartialEq, Eq)]
pub struct ValidationResult {
    pub focus_node: Node,
    pub path: Option<Node>,
    pub value: Option<Node>,
    pub source: Option<Node>,
    pub constraint_component: Node,
    pub details: Option<Vec<Node>>,
    pub message: Option<Node>,
    pub severity: Node,
}

#[derive(Clone, Copy, Debug, PartialEq, Eq, Structural)]
pub enum ConstraintError {
    /// The store could not answer a query.
    Query,
    /// The constraint has no evaluation for the strategy.
    NotImplemented,
}

/// The record for `value` failing the constraint of `ctx` on `focus`.
pub open spec fn record(focus: Node, ctx: Context, value: Node) -> ValidationResult {
    ValidationResult {
        focus_node: focus,
        path: ctx.path,
        value: Some(value),
        source: ctx.source_shape,
        constraint_component: ctx.component,
        details: None,
        message: None,
        severity: ctx.severity,
    }
}

impl ValidationResult {
    pub fn new(
        focus_node: Node,
        path: Option<Node>,
        value: Option<Node>,
        source: Option<Node>,
        constraint_component: Node,
        details: Option<Vec<Node>>,
        message: Option<Node>,
        severity: Node,
    ) -> (r: ValidationResult)
        ensures
            r == (ValidationResult {
                focus_node,
                path,
                value,
                source,
                constraint_component,
                details,
                message,
                severity,
            }),
    {
        ValidationResult { focus_node, path, value, source, constraint_component, details, message, severity }
    }
}

/// The decimal digits of `n`.
pub open spec fn digits(n: nat) -> Seq<char>
    decreases n,
{
    let d = n % 10;
    let c = if d == 0 { '0' } else if d == 1 { '1' } else if d == 2 { '2' } else if d == 3 { '3' }
        else if d == 4 { '4' } else if d == 5 { '5' } else if d == 6 { '6' } else if d == 7 { '7' }
        else if d == 8 { '8' } else { '9' };
    if n < 10 {
        seq![c]
    } else {
        digits(n / 10).push(c)
    }
}

/// An integer written in decimal, with a leading '-' when negative.
pub open spec fn decimal(v: int) -> Seq<char> {
    if v < 0 {
        seq!['-'] + digits((-v) as nat)
    } else {
        digits(v as nat)
    }
}

/// Relies on `i64`'s `Display` (through `to_string`): decimal digits, with '-' before a
/// negative value.
#[verifier::external_body]
fn int_text(v: i64) -> (r: String)
    ensures
        r@ == decimal(v as int),
{
    v.to_string()
}

/// The text of the boolean query asking whether `value` exceeds `bound`.
pub open spec fn ask_greater(value: i64, bound: i64) -> Seq<char> {
    " ASK { FILTER ("@ + decimal(value as int) + " > "@ + decimal(bound as int) + ") } "@
}

fn ask_greater_text(value: i64, bound: i64) -> (r: String)
    ensures
        r@ == ask_greater(value, bound),
{
    let q = " ASK { FILTER (".to_owned();
    let v = int_text(value);
    let q = q.concat(v.as_str());
    let q = q.concat(" > ");
    let b = int_text(bound);
    let q = q.concat(b.as_str());
    q.concat(") } ")
}

/// Whether the query strategy reports value `v` given the store's answer `a`: a value
/// that is not a literal always, a literal when the store answered true.
pub open spec fn reported_from_answer(v: Node, a: Option<bool>) -> bool {
    v is Iri || a == Some(true)
}

/// The values that the query strategy reports, given one answer per value.
pub open spec fn query_violations(values: Seq<Node>, answers: Seq<Option<bool>>) -> Seq<Node>
    decreases values.len(),
{
    if values.len() == 0 || answers.len() == 0 {
        Seq::empty()
    } else {
        let rest = query_violations(values.drop_last(), answers.drop_last());
        if reported_from_answer(values.last(), answers.last()) {
            rest.push(values.last())
        } else {
            rest
        }
    }
}

/// The answers that a store owes to the queries of the literal values.
pub open spec fn truthful(bound: i64, values: Seq<Node>, answers: Seq<Option<bool>>) -> bool {
    &&& answers.len() == values.len()
    &&& forall|i: int| 0 <= i < values.len() && values[i] is Literal ==> #[trigger] answers[i] == Some(
        ask_answer(bound, values[i]),
    )
}

/// The value nodes among `values` that exceed `bound`, or that are not literals and so
/// cannot be compared with it.
pub open spec fn max_inclusive_violations(bound: i64, values: Seq<Node>) -> Seq<Node>
    decreases values.len(),
{
    if values.len() == 0 {
        Seq::empty()
    } else {
        let rest = max_inclusive_violations(bound, values.drop_last());
        if violates_max_inclusive(bound, values.last()) {
            rest.push(values.last())
        } else {
            rest
        }
    }
}

pub open spec fn violates_max_inclusive(bound: i64, v: Node) -> bool {
    !(v matches Node::Literal(x) && x <= bound)
}

/// The answer a store owes to the query that `ask_query` builds for `v`.
pub open spec fn ask_answer(bound: i64, v: Node) -> bool {
    v matches Node::Literal(x) && x > bound
}

/// `sh:maxInclusive`: every value node must be a literal no greater than the bound.
pub struct MaxInclusive {
    pub max_inclusive: i64,
}

impl MaxInclusive {
    pub fn new(literal: i64) -> (r: MaxInclusive)
        ensures
            r.max_inclusive == literal,
    {
        MaxInclusive { max_inclusive: literal }
    }

    /// Decides one value node by comparing it with the bound.
    pub fn violates(&self, v: Node) -> (r: bool)
        ensures
            r == violates_max_inclusive(self.max_inclusive, v),
    {
        match v {
            Node::Literal(x) => x > self.max_inclusive,
            Node::Iri(_) => true,
        }
    }

    /// The boolean query that holds when the literal `v` exceeds the bound; none for a
    /// node that is not a literal, which violates the constraint without asking.
    pub fn ask_query(&self, v: Node) -> (r: Option<String>)
        ensures
            match v {
                Node::Literal(x) => r matches Some(q) && q@ == ask_greater(x, self.max_inclusive),
                Node::Iri(_) => r is None,
            },
    {
        match v {
            Node::Literal(x) => Some(ask_greater_text(x, self.max_inclusive)),
            Node::Iri(_) => None,
        }
    }

    /// Decides one value node from the store's answer to `ask_query(v)`: a true answer
    /// means the value exceeds the bound, which is a violation.
    pub fn violates_from_answer(&self, v: Node, answer: bool) -> (r: bool)
        ensures
            r == match v {
                Node::Literal(_) => answer,
                Node::Iri(_) => true,
            },
    {
        match v {
            Node::Literal(_) => answer,
            Node::Iri(_) => true,
        }
    }

    /// Walks the value nodes of `focus`: one record per violating value, in order.
    pub fn evaluate_default(&self, focus: Node, ctx: Context, values: &Vec<Node>) -> (r: Vec<ValidationResult>)
        ensures
            r@ == max_inclusive_violations(self.max_inclusive, values@).map_values(|v: Node| record(focus, ctx, v)),
    {
        let mut r: Vec<ValidationResult> = Vec::new();
        let mut i: usize = 0;
        while i < values.len()
            invariant
                i <= values@.len(),
                r@ == max_inclusive_violations(self.max_inclusive, values@.take(i as int)).map_values(
                    |v: Node| record(focus, ctx, v),
                ),
            decreases values@.len() - i,
        {
            let v = values[i];
            assert(values@.take(i as int + 1).drop_last() =~= values@.take(i as int));
            if self.violates(v) {
                r.push(ValidationResult::new(focus, ctx.path, Some(v), ctx.source_shape, ctx.component, None, None, ctx.severity));
                proof {
                    let s = max_inclusive_violations(self.max_inclusive, values@.take(i as int));
                    assert(s.push(v).map_values(|v: Node| record(focus, ctx, v)) =~= s.map_values(
                        |v: Node| record(focus, ctx, v),
                    ).push(record(focus, ctx, v)));
                }
            }
            i += 1;
        }
        assert(values@.take(i as int) =~= values@);
        r
    }

    /// Decides the value nodes of `focus` from the store's answers, one per value
    /// (`None` where the query failed): one record per value that is not a literal or
    /// whose answer is true, in order; `ConstraintError::Query` when the query of some
    /// literal failed.
    pub fn evaluate_query(&self, focus: Node, ctx: Context, values: &Vec<Node>, answers: &Vec<Option<bool>>) -> (r:
        Result<Vec<ValidationResult>, ConstraintError>)
        requires
            answers@.len() == values@.len(),
        ensures
            (r is Ok) == forall|i: int| 0 <= i < values@.len() && values@[i] is Literal ==> #[trigger] answers@[i] is Some,
            match r {
                Err(e) => e == ConstraintError::Query,
                Ok(rs) => rs@ == query_violations(values@, answers@).map_values(|v: Node| record(focus, ctx, v)),
            },
    {
        let mut r: Vec<ValidationResult> = Vec::new();
        let mut i: usize = 0;
        while i < values.len()
            invariant
                i <= values@.len(),
                answers@.len() == values@.len(),
                forall|k: int| 0 <= k < i && values@[k] is Literal ==> #[trigger] answers@[k] is Some,
                r@ == query_violations(values@.take(i as int), answers@.take(i as int)).map_values(
                    |v: Node| record(focus, ctx, v),
                ),
            decreases values@.len() - i,
        {
            let v = values[i];
            assert(values@.take(i as int + 1).drop_last() =~= values@.take(i as int));
            assert(answers@.take(i as int + 1).drop_last() =~= answers@.take(i as int));
            let bad = match v {
                Node::Literal(_) => match answers[i] {
                    Some(a) => self.violates_from_answer(v, a),
                    None => {
                        return Err(ConstraintError::Query);
                    },
                },
                Node::Iri(_) => true,
            };
            assert(bad == reported_from_answer(v, answers@[i as int]));
            if bad {
                r.push(ValidationResult::new(focus, ctx.path, Some(v), ctx.source_shape, ctx.component, None, None, ctx.severity));
                proof {
                    let s = query_violations(values@.take(i as int), answers@.take(i as int));
                    assert(s.push(v).map_values(|v: Node| record(focus, ctx, v)) =~= s.map_values(
                        |v: Node| record(focus, ctx, v),
                    ).push(record(focus, ctx, v)));
                }
            }
            i += 1;
        }
        assert(values@.take(i as int) =~= values@);
        assert(answers@.take(i as int) =~= answers@);
        Ok(r)
    }
}

impl MaxInclusive {
    /// Evaluates the value nodes of `focus` with the strategy of the run. The query
    /// strategy needs the store's answers to `ask_query`, one per value; without them the
    /// constraint cannot be evaluated that way.
    pub fn evaluate(
        &self,
        strategy: Strategy,
        focus: Node,
        ctx: Context,
        values: &Vec<Node>,
        answers: Option<&Vec<Option<bool>>>,
    ) -> (r: Result<Vec<ValidationResult>, ConstraintError>)
        requires
            answers matches Some(a) ==> a@.len() == values@.len(),
        ensures
            match (strategy, answers) {
                (Strategy::Default, _) => r matches Ok(rs) && rs@ == max_inclusive_violations(
                    self.max_inclusive,
                    values@,
                ).map_values(|v: Node| record(focus, ctx, v)),
                (Strategy::Query, None) => r == Err::<Vec<ValidationResult>, ConstraintError>(
                    ConstraintError::NotImplemented,
                ),
                (Strategy::Query, Some(a)) => {
                    &&& (r is Ok) == forall|i: int|
                        0 <= i < values@.len() && values@[i] is Literal ==> #[trigger] a@[i] is Some
                    &&& match r {
                        Err(e) => e == ConstraintError::Query,
                        Ok(rs) => rs@ == query_violations(values@, a@).map_values(|v: Node| record(focus, ctx, v)),
                    }
                },
            },
    {
        match strategy {
            Strategy::Default => Ok(self.evaluate_default(focus, ctx, values)),
            Strategy::Query => match answers {
                None => Err(ConstraintError::NotImplemented),
                Some(a) => self.evaluate_query(focus, ctx, values, a),
            },
        }
    }
}

/// With the answers a store owes, the query strategy reports exactly the values that the
/// default strategy reports.
pub proof fn lemma_query_matches_default(bound: i64, values: Seq<Node>, answers: Seq<Option<bool>>)
    requires
        truthful(bound, values, answers),
    ensures
        query_violations(values, answers) == max_inclusive_violations(bound, values),
    decreases values.len(),
{
    if values.len() > 0 {
        let vs = values.drop_last();
        let ans = answers.drop_last();
        assert forall|i: int| 0 <= i < vs.len() && vs[i] is Literal implies #[trigger] ans[i] == Some(
            ask_answer(bound, vs[i]),
        ) by {
            assert(vs[i] == values[i] && ans[i] == answers[i]);
        }
        lemma_query_matches_default(bound, vs, ans);
        let last = values.len() - 1;
        assert(values.last() == values[last]);
    }
}

/// A field that every violation record must carry.
#[derive(Clone, Copy, Debug, PartialEq, Eq, Structural)]
pub enum RequiredField {
    FocusNode,
    Severity,
    SourceConstraintComponent,
}

#[derive(Clone, Copy, Debug, PartialEq, Eq, Structural)]
pub enum ResultError {
    MissingRequiredField(RequiredField),
    /// A field that must hold an IRI holds a literal.
    ExpectedIri { found: Node },
}

/// The predicates of a violation record in a report graph.
#[derive(Clone, Copy, Debug, PartialEq, Eq, Structural)]
pub struct ReportVocabulary {
    pub focus_node: u64,
    pub result_severity: u64,
    pub source_constraint_component: u64,
    pub result_path: u64,
    pub source_shape: u64,
    pub value: u64,
}

/// The first object of `s` through `p`.
pub open spec fn first_object(g: Seq<Triple>, s: Node, p: u64) -> Option<Node> {
    let os = objects(g, s, p);
    if os.len() == 0 {
        None
    } else {
        Some(os[0])
    }
}

/// The first object of `s` through `p`, which must be an IRI.
pub open spec fn iri_field(g: Seq<Triple>, s: Node, p: u64) -> Result<Option<Node>, ResultError> {
    match first_object(g, s, p) {
        None => Ok(None),
        Some(o) => if o is Iri {
            Ok(Some(o))
        } else {
            Err(ResultError::ExpectedIri { found: o })
        },
    }
}

pub open spec fn required(f: Result<Option<Node>, ResultError>, which: RequiredField) -> Result<Node, ResultError> {
    match f {
        Err(e) => Err(e),
        Ok(None) => Err(ResultError::MissingRequiredField(which)),
        Ok(Some(n)) => Ok(n),
    }
}

/// The record that node `r` of report graph `g` describes.
pub open spec fn parse_spec(g: Seq<Triple>, voc: ReportVocabulary, r: Node) -> Result<ValidationResult, ResultError> {
    match required(iri_field(g, r, voc.focus_node), RequiredField::FocusNode) {
        Err(e) => Err(e),
        Ok(focus) => match required(iri_field(g, r, voc.result_severity), RequiredField::Severity) {
            Err(e) => Err(e),
            Ok(severity) => match required(
                iri_field(g, r, voc.source_constraint_component),
                RequiredField::SourceConstraintComponent,
            ) {
                Err(e) => Err(e),
                Ok(component) => match iri_field(g, r, voc.result_path) {
                    Err(e) => Err(e),
                    Ok(path) => match iri_field(g, r, voc.source_shape) {
                        Err(e) => Err(e),
                        Ok(source) => Ok(
                            ValidationResult {
                                focus_node: focus,
                                path,
                                value: first_object(g, r, voc.value),
                                source,
                                constraint_component: component,
                                details: None,
                                message: None,
                                severity,
                            },
                        ),
                    },
                },
            },
        },
    }
}

fn first_object_of(g: &Graph, s: Node, p: u64) -> (r: Option<Node>)
    ensures
        r == first_object(g@, s, p),
{
    let os = g.neighbours(s, p);
    if os.len() == 0 {
        None
    } else {
        Some(os[0])
    }
}

fn iri_field_of(g: &Graph, s: Node, p: u64) -> (r: Result<Option<Node>, ResultError>)
    ensures
        r == iri_field(g@, s, p),
{
    match first_object_of(g, s, p) {
        None => Ok(None),
        Some(o) => match o {
            Node::Iri(_) => Ok(Some(o)),
            Node::Literal(_) => Err(ResultError::ExpectedIri { found: o }),
        },
    }
}

fn required_of(f: Result<Option<Node>, ResultError>, which: RequiredField) -> (r: Result<Node, ResultError>)
    ensures
        r == required(f, which),
{
    match f {
        Err(e) => Err(e),
        Ok(None) => Err(ResultError::MissingRequiredField(which)),
        Ok(Some(n)) => Ok(n),
    }
}

impl ValidationResult {
    /// Reads the violation record at node `r` of a report graph. The focus node, severity
    /// and source constraint component are required.
    pub fn parse(store: &Graph, voc: &ReportVocabulary, r: Node) -> (res: Result<ValidationResult, ResultError>)
        ensures
            res == parse_spec(store@, *voc, r),
    {
        let focus = match required_of(iri_field_of(store, r, voc.focus_node), RequiredField::FocusNode) {
            Ok(n) => n,
            Err(e) => return Err(e),
        };
        let severity = match required_of(iri_field_of(store, r, voc.result_severity), RequiredField::Severity) {
            Ok(n) => n,
            Err(e) => return Err(e),
        };
        let component = match required_of(
            iri_field_of(store, r, voc.source_constraint_component),
            RequiredField::SourceConstraintComponent,
        ) {
            Ok(n) => n,
            Err(e) => return Err(e),
        };
        let path = match iri_field_of(store, r, voc.result_path) {
            Ok(p) => p,
            Err(e) => return Err(e),
        };
        let source = match iri_field_of(store, r, voc.source_shape) {
            Ok(p) => p,
            Err(e) => return Err(e),
        };
        let value = first_object_of(store, r, voc.value);
        Ok(ValidationResult::new(focus, path, value, source, component, None, None, severity))
    }
}

/// Both strategies reach the same verdict on every value node: the answer the store owes
/// to the boolean query, read as `violates_from_answer` reads it, is the direct comparison.
pub proof fn lemma_strategies_agree(c: MaxInclusive, v: Node)
    ensures
        (match v {
            Node::Literal(_) => ask_answer(c.max_inclusive, v),
            Node::Iri(_) => true,
        }) == violates_max_inclusive(c.max_inclusive, v),
{
}

} // verus!
