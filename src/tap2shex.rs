use vstd::prelude::*;
use vstd::string::StringExecFns;

verus! {

/// One row of a tabular profile.
#[derive(Debug)]
pub struct TapStatement {
    pub property_id: String,
    pub mandatory: Option<bool>,
    pub repeatable: Option<bool>,
    pub value_datatype: Option<String>,
    pub value_shape: Option<String>,
}

/// The rows of a tabular profile that describe one shape.
#[derive(Debug)]
pub struct TapShape {
    pub shape_id: Option<String>,
    pub statements: Vec<TapStatement>,
}

/// A tabular profile: a list of shapes.
#[derive(Debug)]
pub struct DCTap {
    pub shapes: Vec<TapShape>,
}

/// How identifiers of a profile become IRIs.
#[derive(Debug)]
pub struct Tap2ShExConfig {
    pub base_iri: Option<String>,
    pub datatype_base_iri: Option<String>,
    /// Prefix declarations: (prefix, namespace IRI).
    pub prefixmap: Vec<(String, String)>,
}

/// The values allowed for a triple: a datatype, or conformance to another shape.
#[derive(Debug, PartialEq, Eq)]
pub enum ValueExpr {
    Datatype(String),
    ShapeRef(String),
}

/// A triple constraint of the generated schema.
#[derive(Debug, PartialEq, Eq)]
pub struct TripleExpr {
    pub predicate: String,
    pub value_expr: Option<ValueExpr>,
    pub min: Option<i32>,
    pub max: Option<i32>,
}

/// A shape of the generated schema: a label and the triple constraints that all must hold.
#[derive(Debug, PartialEq, Eq)]
pub struct ShapeDecl {
    pub label: String,
    pub triple_exprs: Vec<TripleExpr>,
}

#[derive(Debug, PartialEq, Eq)]
pub struct Schema {
    pub prefixmap: Vec<(String, String)>,
    pub shapes: Vec<ShapeDecl>,
}

#[derive(Debug, PartialEq, Eq)]
pub enum Tap2ShExError {
    /// The shape at this position of the profile has no identifier.
    NoShapeId { shape_index: usize },
    /// Shape and property identifiers need a base IRI.
    NoBaseIri,
    MultipleValueExprInStatement { value_datatype: String, value_shape: String },
    /// A datatype without base IRI must be written `prefix:local`.
    DatatypeId2IriNoPrefix { datatype_id: String },
    PrefixNotFound { prefix: String },
}

/// The text of `s` before its first ':' (all of it when there is none).
pub open spec fn before_colon(s: Seq<char>) -> Seq<char>
    decreases s.len(),
{
    if s.len() == 0 || s[0] == ':' {
        Seq::empty()
    } else {
        seq![s[0]] + before_colon(s.drop_first())
    }
}

/// The text of `s` after its first ':'.
pub open spec fn after_colon(s: Seq<char>) -> Seq<char> {
    s.skip(before_colon(s).len() as int + 1)
}

/// Relies on `str::split_once`: splits at the first ':', if there is one.
#[verifier::external_body]
fn split_at_colon(s: &str) -> (r: Option<(&str, &str)>)
    ensures
        match r {
            Some((p, l)) => s@.contains(':') && p@ == before_colon(s@) && l@ == after_colon(s@),
            None => !s@.contains(':'),
        },
{
    s.split_once(':')
}

/// The namespace declared for prefix `p`: the first declaration that names it.
pub open spec fn namespace_of(pm: Seq<(String, String)>, p: Seq<char>) -> Option<Seq<char>>
    decreases pm.len(),
{
    if pm.len() == 0 {
        None
    } else if pm[0].0@ == p {
        Some(pm[0].1@)
    } else {
        namespace_of(pm.drop_first(), p)
    }
}

/// The minimum cardinality of a statement: 0 when optional, else 1.
pub open spec fn min_of(mandatory: Option<bool>) -> Option<i32> {
    match mandatory {
        Some(false) => Some(0i32),
        _ => Some(1i32),
    }
}

/// The maximum cardinality of a statement: 1 when not repeatable, unbounded (-1) when
/// repeatable, unstated when not said.
pub open spec fn max_of(repeatable: Option<bool>) -> Option<i32> {
    match repeatable {
        Some(false) => Some(1i32),
        Some(true) => Some(-1i32),
        None => None,
    }
}

fn get_min(mandatory: Option<bool>) -> (r: Option<i32>)
    ensures
        r == min_of(mandatory),
{
    match mandatory {
        Some(true) => Some(1),
        Some(false) => Some(0),
        None => Some(1),
    }
}

fn get_max(repeatable: Option<bool>) -> (r: Option<i32>)
    ensures
        r == max_of(repeatable),
{
    match repeatable {
        Some(false) => Some(1),
        Some(true) => Some(-1),
        None => None,
    }
}

/// The IRI of a shape or property identifier: the base IRI followed by the identifier.
fn id2iri(id: &String, config: &Tap2ShExConfig) -> (r: Result<String, Tap2ShExError>)
    ensures
        match config.base_iri {
            Some(b) => r matches Ok(s) && s@ == b@ + id@,
            None => r == Err::<String, Tap2ShExError>(Tap2ShExError::NoBaseIri),
        },
{
    match &config.base_iri {
        None => Err(Tap2ShExError::NoBaseIri),
        Some(base) => Ok(base.clone().concat(id.as_str())),
    }
}

fn resolve_prefix(pm: &Vec<(String, String)>, prefix: &str, local: &str) -> (r: Option<String>)
    ensures
        match namespace_of(pm@, prefix@) {
            Some(ns) => r matches Some(s) && s@ == ns + local@,
            None => r is None,
        },
{
    let wanted = prefix.to_owned();
    let mut i: usize = 0;
    assert(pm@.skip(0) =~= pm@);
    while i < pm.len()
        invariant
            i <= pm@.len(),
            wanted@ == prefix@,
            namespace_of(pm@, prefix@) == namespace_of(pm@.skip(i as int), prefix@),
        decreases pm@.len() - i,
    {
        assert(pm@.skip(i as int).drop_first() =~= pm@.skip(i as int + 1));
        if pm[i].0 == wanted {
            return Some(pm[i].1.clone().concat(local));
        }
        i += 1;
    }
    assert(pm@.skip(i as int) =~= Seq::<(String, String)>::empty());
    None
}

/// The IRI a datatype identifier stands for, if it can be formed.
pub open spec fn datatype_iri(id: Seq<char>, config: Tap2ShExConfig) -> Option<Seq<char>> {
    match config.datatype_base_iri {
        Some(b) => Some(b@ + id),
        None => if !id.contains(':') {
            None
        } else {
            match namespace_of(config.prefixmap@, before_colon(id)) {
                Some(ns) => Some(ns + after_colon(id)),
                None => None,
            }
        },
    }
}

/// Statement `st` can be turned into a triple constraint.
pub open spec fn statement_convertible(st: TapStatement, config: Tap2ShExConfig) -> bool {
    &&& config.base_iri is Some
    &&& match (st.value_datatype, st.value_shape) {
        (Some(_), Some(_)) => false,
        (Some(d), None) => datatype_iri(d@, config) is Some,
        _ => true,
    }
}

/// `te` is the triple constraint that statement `st` becomes.
pub open spec fn triple_expr_of(te: TripleExpr, st: TapStatement, config: Tap2ShExConfig) -> bool {
    match config.base_iri {
        None => false,
        Some(b) => {
            &&& te.predicate@ == b@ + st.property_id@
            &&& te.min == min_of(st.mandatory)
            &&& te.max == max_of(st.repeatable)
            &&& match (st.value_datatype, st.value_shape) {
                (None, None) => te.value_expr is None,
                (None, Some(v)) => te.value_expr matches Some(ValueExpr::ShapeRef(r)) && r@ == b@ + v@,
                (Some(d), _) => te.value_expr matches Some(ValueExpr::Datatype(r)) && Some(r@) == datatype_iri(
                    d@,
                    config,
                ),
            }
        },
    }
}

/// Shape `sh` and all its statements can be converted.
pub open spec fn shape_convertible(sh: TapShape, config: Tap2ShExConfig) -> bool {
    &&& sh.shape_id is Some
    &&& config.base_iri is Some
    &&& forall|j: int| 0 <= j < sh.statements@.len() ==> #[trigger] statement_convertible(sh.statements@[j], config)
}

/// `d` is the shape declaration that `sh` becomes.
pub open spec fn shape_decl_of(d: ShapeDecl, sh: TapShape, config: Tap2ShExConfig) -> bool {
    &&& sh.shape_id matches Some(id) && config.base_iri matches Some(b) && d.label@ == b@ + id@
    &&& d.triple_exprs@.len() == sh.statements@.len()
    &&& forall|j: int| 0 <= j < sh.statements@.len() ==> #[trigger] triple_expr_of(
        d.triple_exprs@[j],
        sh.statements@[j],
        config,
    )
}

/// `e` is the error that forming the IRI of datatype `id` gives.
pub open spec fn datatype_err(e: Tap2ShExError, id: Seq<char>, config: Tap2ShExConfig) -> bool {
    match config.datatype_base_iri {
        Some(_) => false,
        None => if !id.contains(':') {
            e matches Tap2ShExError::DatatypeId2IriNoPrefix { datatype_id } && datatype_id@ == id
        } else {
            &&& namespace_of(config.prefixmap@, before_colon(id)) is None
            &&& e matches Tap2ShExError::PrefixNotFound { prefix } && prefix@ == before_colon(id)
        },
    }
}

/// `e` is the error that converting statement `st` gives.
pub open spec fn statement_err(e: Tap2ShExError, st: TapStatement, config: Tap2ShExConfig) -> bool {
    match config.base_iri {
        None => e == Tap2ShExError::NoBaseIri,
        Some(_) => match (st.value_datatype, st.value_shape) {
            (Some(d), Some(v)) => e == (Tap2ShExError::MultipleValueExprInStatement { value_datatype: d, value_shape: v }),
            (Some(d), None) => datatype_err(e, d@, config),
            _ => false,
        },
    }
}

/// `e` is the error of the first statement of `sts` that cannot be converted.
pub open spec fn first_statement_err(e: Tap2ShExError, sts: Seq<TapStatement>, config: Tap2ShExConfig) -> bool {
    exists|j: int|
        0 <= j < sts.len() && (forall|k: int| 0 <= k < j ==> #[trigger] statement_convertible(sts[k], config))
            && #[trigger] statement_err(e, sts[j], config)
}

/// `e` is the error that converting shape `sh`, at position `index`, gives.
pub open spec fn shape_err(e: Tap2ShExError, sh: TapShape, index: usize, config: Tap2ShExConfig) -> bool {
    match sh.shape_id {
        None => e == (Tap2ShExError::NoShapeId { shape_index: index }),
        Some(_) => match config.base_iri {
            None => e == Tap2ShExError::NoBaseIri,
            Some(_) => first_statement_err(e, sh.statements@, config),
        },
    }
}

/// The IRI of a datatype identifier: after the datatype base IRI when there is one, else
/// the identifier's prefix resolved through the prefix map.
fn datatype_id2iri(id: &String, config: &Tap2ShExConfig) -> (r: Result<String, Tap2ShExError>)
    ensures
        (r is Ok) == (datatype_iri(id@, *config) is Some),
        r matches Ok(s) ==> Some(s@) == datatype_iri(id@, *config),
        r matches Err(e) ==> datatype_err(e, id@, *config),
        match config.datatype_base_iri {
            Some(b) => r matches Ok(s) && s@ == b@ + id@,
            None => if !id@.contains(':') {
                r matches Err(Tap2ShExError::DatatypeId2IriNoPrefix { datatype_id }) && datatype_id@ == id@
            } else {
                match namespace_of(config.prefixmap@, before_colon(id@)) {
                    Some(ns) => r matches Ok(s) && s@ == ns + after_colon(id@),
                    None => r matches Err(Tap2ShExError::PrefixNotFound { prefix }) && prefix@ == before_colon(
                        id@,
                    ),
                }
            },
        },
{
    match &config.datatype_base_iri {
        Some(base) => Ok(base.clone().concat(id.as_str())),
        None => match split_at_colon(id.as_str()) {
            None => Err(Tap2ShExError::DatatypeId2IriNoPrefix { datatype_id: id.clone() }),
            Some((prefix, local)) => match resolve_prefix(&config.prefixmap, prefix, local) {
                Some(iri) => Ok(iri),
                None => Err(Tap2ShExError::PrefixNotFound { prefix: prefix.to_owned() }),
            },
        },
    }
}

fn statement_to_triple_expr(statement: &TapStatement, config: &Tap2ShExConfig) -> (r: Result<TripleExpr, Tap2ShExError>)
    ensures
        (r is Ok) == statement_convertible(*statement, *config),
        r matches Ok(te) ==> triple_expr_of(te, *statement, *config),
        r matches Err(e) ==> statement_err(e, *statement, *config),
{
    let pred = match id2iri(&statement.property_id, config) {
        Ok(p) => p,
        Err(e) => return Err(e),
    };
    let min = get_min(statement.mandatory);
    let max = get_max(statement.repeatable);
    let value_expr = match (&statement.value_datatype, &statement.value_shape) {
        (Some(datatype), None) => match datatype_id2iri(datatype, config) {
            Ok(iri) => Some(ValueExpr::Datatype(iri)),
            Err(e) => return Err(e),
        },
        (None, Some(shape_id)) => match id2iri(shape_id, config) {
            Ok(iri) => Some(ValueExpr::ShapeRef(iri)),
            Err(e) => return Err(e),
        },
        (None, None) => None,
        (Some(datatype), Some(value_shape)) => {
            return Err(
                Tap2ShExError::MultipleValueExprInStatement {
                    value_datatype: datatype.clone(),
                    value_shape: value_shape.clone(),
                },
            );
        },
    };
    Ok(TripleExpr { predicate: pred, value_expr, min, max })
}

fn tapshape_to_shape_expr(tap_shape: &TapShape, config: &Tap2ShExConfig) -> (r: Result<Vec<TripleExpr>, Tap2ShExError>)
    ensures
        (r is Ok) == (forall|j: int|
            0 <= j < tap_shape.statements@.len() ==> #[trigger] statement_convertible(tap_shape.statements@[j], *config)),
        r matches Err(e) ==> first_statement_err(e, tap_shape.statements@, *config),
        r matches Ok(tes) ==> tes@.len() == tap_shape.statements@.len() && forall|j: int|
            0 <= j < tes@.len() ==> #[trigger] triple_expr_of(tes@[j], tap_shape.statements@[j], *config),
{
    let mut tes: Vec<TripleExpr> = Vec::new();
    let mut i: usize = 0;
    while i < tap_shape.statements.len()
        invariant
            i <= tap_shape.statements@.len(),
            tes@.len() == i,
            forall|j: int| 0 <= j < i ==> #[trigger] statement_convertible(tap_shape.statements@[j], *config),
            forall|j: int| 0 <= j < i ==> #[trigger] triple_expr_of(tes@[j], tap_shape.statements@[j], *config),
        decreases tap_shape.statements@.len() - i,
    {
        match statement_to_triple_expr(&tap_shape.statements[i], config) {
            Ok(te) => tes.push(te),
            Err(e) => {
                assert(statement_err(e, tap_shape.statements@[i as int], *config));
                return Err(e);
            },
        }
        i += 1;
    }
    Ok(tes)
}

fn tapshape_to_shape(tap_shape: &TapShape, shape_index: usize, config: &Tap2ShExConfig) -> (r: Result<ShapeDecl, Tap2ShExError>)
    ensures
        (r is Ok) == shape_convertible(*tap_shape, *config),
        r matches Ok(d) ==> shape_decl_of(d, *tap_shape, *config),
        r matches Err(e) ==> shape_err(e, *tap_shape, shape_index, *config),
{
    match &tap_shape.shape_id {
        Some(shape_id) => {
            let label = match id2iri(shape_id, config) {
                Ok(l) => l,
                Err(e) => return Err(e),
            };
            let triple_exprs = match tapshape_to_shape_expr(tap_shape, config) {
                Ok(tes) => tes,
                Err(e) => return Err(e),
            };
            Ok(ShapeDecl { label, triple_exprs })
        },
        None => Err(Tap2ShExError::NoShapeId { shape_index }),
    }
}

fn copy_prefixmap(pm: &Vec<(String, String)>) -> (r: Vec<(String, String)>)
    ensures
        r@ == pm@,
{
    let mut r: Vec<(String, String)> = Vec::new();
    let mut i: usize = 0;
    while i < pm.len()
        invariant
            i <= pm@.len(),
            r@ == pm@.take(i as int),
        decreases pm@.len() - i,
    {
        r.push((pm[i].0.clone(), pm[i].1.clone()));
        assert(pm@.take(i as int + 1) =~= pm@.take(i as int).push(pm@[i as int]));
        i += 1;
    }
    assert(pm@.take(i as int) =~= pm@);
    r
}

/// Converts tabular profiles into shape schemas.
pub struct Tap2ShEx {
    config: Tap2ShExConfig,
}

impl Tap2ShEx {
    pub closed spec fn config(&self) -> Tap2ShExConfig {
        self.config
    }

    pub fn new(config: Tap2ShExConfig) -> (r: Tap2ShEx)
        ensures
            r.config() == config,
    {
        Tap2ShEx { config }
    }

    /// One shape declaration per shape of the profile, in order, with the prefix map of
    /// the configuration; an error when a shape lacks an identifier or a statement cannot
    /// be converted.
    pub fn convert(&self, tap: &DCTap) -> (r: Result<Schema, Tap2ShExError>)
        ensures
            (r is Ok) == forall|i: int| 0 <= i < tap.shapes@.len() ==> #[trigger] shape_convertible(tap.shapes@[i], self.config()),
            r matches Ok(s) ==> {
                &&& s.prefixmap@ == self.config().prefixmap@
                &&& s.shapes@.len() == tap.shapes@.len()
                &&& forall|i: int| 0 <= i < tap.shapes@.len() ==> #[trigger] shape_decl_of(s.shapes@[i], tap.shapes@[i], self.config())
            },
            r matches Err(e) ==> exists|i: int|
                0 <= i < tap.shapes@.len() && (forall|k: int| 0 <= k < i ==> #[trigger] shape_convertible(tap.shapes@[k], self.config()))
                    && #[trigger] shape_err(e, tap.shapes@[i], i as usize, self.config()),
    {
        let mut shapes: Vec<ShapeDecl> = Vec::new();
        let mut i: usize = 0;
        while i < tap.shapes.len()
            invariant
                i <= tap.shapes@.len(),
                shapes@.len() == i,
                forall|j: int| 0 <= j < i ==> #[trigger] shape_convertible(tap.shapes@[j], self.config()),
                forall|j: int| 0 <= j < i ==> #[trigger] shape_decl_of(shapes@[j], tap.shapes@[j], self.config()),
            decreases tap.shapes@.len() - i,
        {
            match tapshape_to_shape(&tap.shapes[i], i, &self.config) {
                Ok(d) => shapes.push(d),
                Err(e) => {
                    assert(shape_err(e, tap.shapes@[i as int], (i as int) as usize, self.config()));
                    return Err(e);
                },
            }
            i += 1;
        }
        Ok(Schema { prefixmap: copy_prefixmap(&self.config.prefixmap), shapes })
    }
}

} // verus!
