//! The logical planner: resolves the projection against the chosen format's
//! schema, type-checks each filter comparison's literal against its column's
//! declared kind (coercing where the kinds allow it), and builds the fixed
//! tree `Limit?(Project(Filter?(Scan)))` bottom-up.

use vstd::prelude::*;

use crate::schema::{
    cols_view, schema_columns, spec_fields, spec_resolve, spec_resolve_from, spec_schema,
    split_fields, Column, Format,
};
use crate::syntax::{CmpOp, Expr, ExprM, ProjM, Projection, SelectStatement, StmtM};
use crate::values::{HttpReq, Value, ValueKind, Vm};

verus! {

/// A semantic planning failure.
#[derive(Debug)]
pub enum ParseError {
    /// A projected or filtered column is not in the schema; `known` lists
    /// the schema's columns.
    UnknownColumn { column: String, known: Vec<String> },
    /// A filter literal cannot be coerced to the column's kind.
    TypeMismatch { column: String, expected: ValueKind },
    /// A filter literal is coercible but outside the representable range.
    LiteralOutOfRange { column: String },
    /// A `LIMIT` count too large to bind as a variable.
    LimitTooLarge,
}

/// Mathematical model of a planning failure.
pub enum ParseErrM {
    UnknownColumn { column: Seq<char>, known: Seq<Seq<char>> },
    TypeMismatch { column: Seq<char>, expected: ValueKind },
    LiteralOutOfRange { column: Seq<char> },
    LimitTooLarge,
}

impl View for ParseError {
    type V = ParseErrM;

    open spec fn view(&self) -> ParseErrM {
        match self {
            ParseError::UnknownColumn { column, known } => ParseErrM::UnknownColumn {
                column: column@,
                known: known@.map_values(|s: String| s@),
            },
            ParseError::TypeMismatch { column, expected } => ParseErrM::TypeMismatch {
                column: column@,
                expected: *expected,
            },
            ParseError::LiteralOutOfRange { column } => ParseErrM::LiteralOutOfRange {
                column: column@,
            },
            ParseError::LimitTooLarge => ParseErrM::LimitTooLarge,
        }
    }
}

/// A compiled filter predicate: columns resolved to indices, literals
/// coerced to the column's kind.
#[derive(Debug)]
pub enum Pred {
    Cmp { col: usize, op: CmpOp, lit: Value },
    And(Box<Pred>, Box<Pred>),
    Or(Box<Pred>, Box<Pred>),
}

/// Mathematical model of a compiled predicate.
pub enum PredM {
    Cmp { col: int, op: CmpOp, lit: Vm },
    And(Box<PredM>, Box<PredM>),
    Or(Box<PredM>, Box<PredM>),
}

pub open spec fn pred_view(p: Pred) -> PredM
    decreases p,
{
    match p {
        Pred::Cmp { col, op, lit } => PredM::Cmp { col: col as int, op, lit: lit@ },
        Pred::And(a, b) => PredM::And(Box::new(pred_view(*a)), Box::new(pred_view(*b))),
        Pred::Or(a, b) => PredM::Or(Box::new(pred_view(*a)), Box::new(pred_view(*b))),
    }
}

/// Every column index in the predicate is below `n`.
pub open spec fn spec_pred_wf(p: PredM, n: int) -> bool
    decreases p,
{
    match p {
        PredM::Cmp { col, op, lit } => 0 <= col < n,
        PredM::And(a, b) => spec_pred_wf(*a, n) && spec_pred_wf(*b, n),
        PredM::Or(a, b) => spec_pred_wf(*a, n) && spec_pred_wf(*b, n),
    }
}

/// A logical plan node; each parent exclusively owns its child.
#[derive(Debug)]
pub enum LogicalNode {
    Scan { format: Format },
    Filter { pred: Pred, child: Box<LogicalNode> },
    Project { columns: Vec<usize>, names: Vec<String>, child: Box<LogicalNode> },
    Limit { count: i64, child: Box<LogicalNode> },
}

/// Mathematical model of a logical plan node.
pub enum LNodeM {
    Scan { format: Format },
    Filter { pred: PredM, child: Box<LNodeM> },
    Project { columns: Seq<int>, names: Seq<Seq<char>>, child: Box<LNodeM> },
    Limit { count: i64, child: Box<LNodeM> },
}

pub open spec fn lnode_view(n: LogicalNode) -> LNodeM
    decreases n,
{
    match n {
        LogicalNode::Scan { format } => LNodeM::Scan { format },
        LogicalNode::Filter { pred, child } => LNodeM::Filter {
            pred: pred_view(pred),
            child: Box::new(lnode_view(*child)),
        },
        LogicalNode::Project { columns, names, child } => LNodeM::Project {
            columns: columns@.map_values(|i: usize| i as int),
            names: names@.map_values(|s: String| s@),
            child: Box::new(lnode_view(*child)),
        },
        LogicalNode::Limit { count, child } => LNodeM::Limit {
            count,
            child: Box::new(lnode_view(*child)),
        },
    }
}

/// Why a literal cannot stand against a column.
#[derive(Clone, Copy, Debug, PartialEq, Eq, Structural)]
pub enum CoerceFail {
    Mismatch,
    OutOfRange,
}

/// The value a filter literal takes at a column of kind `kind`, if the
/// kinds admit it. `Null` is allowed against every column; an integer
/// literal against a fixed-point column is scaled to millionths; a string
/// literal is accepted at the text-like kinds.
pub open spec fn spec_coerce(kind: ValueKind, lit: Vm) -> Result<Vm, CoerceFail> {
    match lit {
        Vm::Null => Ok(Vm::Null),
        Vm::Int(m) => match kind {
            ValueKind::Int => Ok(Vm::Int(m)),
            ValueKind::Float => if -9223372036853 <= m <= 9223372036853 {
                Ok(Vm::Float(m * 1000000))
            } else {
                Err(CoerceFail::OutOfRange)
            },
            _ => Err(CoerceFail::Mismatch),
        },
        Vm::Float(m) => if kind == ValueKind::Float {
            Ok(Vm::Float(m))
        } else {
            Err(CoerceFail::Mismatch)
        },
        Vm::Boolean(b) => if kind == ValueKind::Bool {
            Ok(Vm::Boolean(b))
        } else {
            Err(CoerceFail::Mismatch)
        },
        Vm::Str(s) => match kind {
            ValueKind::Str => Ok(Vm::Str(s)),
            ValueKind::DateTime => Ok(Vm::DateTime(s)),
            ValueKind::Host => Ok(Vm::Host(s)),
            ValueKind::HttpRequest => match spec_fields(s, 0) {
                Some(parts) => if parts.len() == 3 && parts[0].len() > 0 && parts[1].len() > 0
                    && parts[2].len() > 0 {
                    Ok(Vm::HttpRequest(parts[0], parts[1], parts[2]))
                } else {
                    Err(CoerceFail::Mismatch)
                },
                None => Err(CoerceFail::Mismatch),
            },
            _ => Err(CoerceFail::Mismatch),
        },
        _ => Err(CoerceFail::Mismatch),
    }
}

fn coerce_lit(kind: ValueKind, lit: &Value) -> (r: Result<Value, CoerceFail>)
    ensures
        match r {
            Ok(v) => spec_coerce(kind, lit@) == Ok::<Vm, CoerceFail>(v@),
            Err(e) => spec_coerce(kind, lit@) == Err::<Vm, CoerceFail>(e),
        },
{
    match lit {
        Value::Null => Ok(Value::Null),
        Value::Int(m) => match kind {
            ValueKind::Int => Ok(Value::Int(*m)),
            ValueKind::Float => {
                if -9223372036853i64 <= *m && *m <= 9223372036853i64 {
                    Ok(Value::Float(*m * 1000000))
                } else {
                    Err(CoerceFail::OutOfRange)
                }
            },
            _ => Err(CoerceFail::Mismatch),
        },
        Value::Float(m) => {
            if matches!(kind, ValueKind::Float) {
                Ok(Value::Float(*m))
            } else {
                Err(CoerceFail::Mismatch)
            }
        },
        Value::Boolean(b) => {
            if matches!(kind, ValueKind::Bool) {
                Ok(Value::Boolean(*b))
            } else {
                Err(CoerceFail::Mismatch)
            }
        },
        Value::Str(s) => match kind {
            ValueKind::Str => Ok(Value::Str(s.clone())),
            ValueKind::DateTime => Ok(Value::DateTime(s.clone())),
            ValueKind::Host => Ok(Value::Host(s.clone())),
            ValueKind::HttpRequest => match split_fields(s.as_str()) {
                Some(parts) => {
                    if parts.len() == 3 && !parts[0].as_str().is_empty()
                        && !parts[1].as_str().is_empty() && !parts[2].as_str().is_empty() {
                        Ok(
                            Value::HttpRequest(
                                HttpReq {
                                    method: parts[0].clone(),
                                    path: parts[1].clone(),
                                    protocol: parts[2].clone(),
                                },
                            ),
                        )
                    } else {
                        Err(CoerceFail::Mismatch)
                    }
                },
                None => Err(CoerceFail::Mismatch),
            },
            _ => Err(CoerceFail::Mismatch),
        },
        _ => Err(CoerceFail::Mismatch),
    }
}

/// The schema's column names, for diagnostics.
pub open spec fn spec_schema_names(fmt: Format) -> Seq<Seq<char>> {
    spec_schema(fmt).map_values(|c: (Seq<char>, ValueKind)| c.0)
}

/// Build the schema's name list.
fn schema_names(cols: &Vec<Column>, fmt: Format) -> (r: Vec<String>)
    requires
        cols_view(*cols) == spec_schema(fmt),
    ensures
        r@.map_values(|s: String| s@) == spec_schema_names(fmt),
{
    let mut r: Vec<String> = Vec::new();
    let mut i: usize = 0;
    proof {
        assert(cols_view(*cols).len() == cols.len());
    }
    while i < cols.len()
        invariant
            i <= cols.len(),
            cols_view(*cols) == spec_schema(fmt),
            cols_view(*cols).len() == cols.len(),
            r.len() == i,
            forall|k: int| 0 <= k < i ==> r@[k]@ == spec_schema_names(fmt)[k],
        decreases cols.len() - i,
    {
        r.push(cols[i].name.clone());
        proof {
            assert(cols_view(*cols)[i as int] == (cols@[i as int].name@, cols@[i as int].kind));
            assert(spec_schema_names(fmt)[i as int] == spec_schema(fmt)[i as int].0);
        }
        i = i + 1;
    }
    proof {
        assert(r@.map_values(|s: String| s@) =~= spec_schema_names(fmt));
    }
    r
}

/// Compile one filter expression against a format's schema.
pub open spec fn spec_compile_expr(fmt: Format, e: ExprM) -> Result<PredM, ParseErrM>
    decreases e,
{
    match e {
        ExprM::Cmp { col, op, lit } => match spec_resolve(fmt, col) {
            None => Err(ParseErrM::UnknownColumn { column: col, known: spec_schema_names(fmt) }),
            Some(i) => match spec_coerce(spec_schema(fmt)[i].1, lit) {
                Ok(v) => Ok(PredM::Cmp { col: i, op, lit: v }),
                Err(CoerceFail::Mismatch) => Err(
                    ParseErrM::TypeMismatch { column: col, expected: spec_schema(fmt)[i].1 },
                ),
                Err(CoerceFail::OutOfRange) => Err(ParseErrM::LiteralOutOfRange { column: col }),
            },
        },
        ExprM::And(a, b) => match spec_compile_expr(fmt, *a) {
            Err(e1) => Err(e1),
            Ok(p1) => match spec_compile_expr(fmt, *b) {
                Err(e2) => Err(e2),
                Ok(p2) => Ok(PredM::And(Box::new(p1), Box::new(p2))),
            },
        },
        ExprM::Or(a, b) => match spec_compile_expr(fmt, *a) {
            Err(e1) => Err(e1),
            Ok(p1) => match spec_compile_expr(fmt, *b) {
                Err(e2) => Err(e2),
                Ok(p2) => Ok(PredM::Or(Box::new(p1), Box::new(p2))),
            },
        },
    }
}

fn compile_expr(fmt: Format, cols: &Vec<Column>, e: &Expr) -> (r: Result<Pred, ParseError>)
    requires
        cols_view(*cols) == spec_schema(fmt),
    ensures
        match r {
            Ok(p) => spec_compile_expr(fmt, crate::syntax::expr_view(*e)) == Ok::<
                PredM,
                ParseErrM,
            >(pred_view(p)),
            Err(err) => spec_compile_expr(fmt, crate::syntax::expr_view(*e)) == Err::<
                PredM,
                ParseErrM,
            >(err@),
        },
    decreases *e,
{
    match e {
        Expr::Cmp { col, op, lit } => {
            match crate::schema::resolve_col(cols, col.as_str()) {
                None => Err(
                    ParseError::UnknownColumn { column: col.clone(), known: schema_names(cols, fmt) },
                ),
                Some(i) => {
                    proof {
                        assert(cols_view(*cols)[i as int] == (cols@[i as int].name@, cols@[
                            i as int].kind));
                    }
                    match coerce_lit(cols[i].kind, lit) {
                        Ok(v) => Ok(Pred::Cmp { col: i, op: *op, lit: v }),
                        Err(CoerceFail::Mismatch) => Err(
                            ParseError::TypeMismatch { column: col.clone(), expected: cols[i].kind },
                        ),
                        Err(CoerceFail::OutOfRange) => Err(
                            ParseError::LiteralOutOfRange { column: col.clone() },
                        ),
                    }
                },
            }
        },
        Expr::And(a, b) => match compile_expr(fmt, cols, a) {
            Err(e1) => Err(e1),
            Ok(p1) => match compile_expr(fmt, cols, b) {
                Err(e2) => Err(e2),
                Ok(p2) => Ok(Pred::And(Box::new(p1), Box::new(p2))),
            },
        },
        Expr::Or(a, b) => match compile_expr(fmt, cols, a) {
            Err(e1) => Err(e1),
            Ok(p1) => match compile_expr(fmt, cols, b) {
                Err(e2) => Err(e2),
                Ok(p2) => Ok(Pred::Or(Box::new(p1), Box::new(p2))),
            },
        },
    }
}

/// Resolve the projected column names from `i` on.
pub open spec fn spec_resolve_cols(fmt: Format, cols: Seq<Seq<char>>, i: int) -> Result<
    Seq<int>,
    ParseErrM,
>
    decreases cols.len() - i,
    when 0 <= i <= cols.len()
{
    if i >= cols.len() {
        Ok(Seq::empty())
    } else {
        match spec_resolve(fmt, cols[i]) {
            None => Err(
                ParseErrM::UnknownColumn { column: cols[i], known: spec_schema_names(fmt) },
            ),
            Some(j) => match spec_resolve_cols(fmt, cols, i + 1) {
                Ok(rest) => Ok(seq![j] + rest),
                Err(e) => Err(e),
            },
        }
    }
}

fn resolve_cols(fmt: Format, cols: &Vec<Column>, names: &Vec<String>, i: usize) -> (r: Result<
    Vec<usize>,
    ParseError,
>)
    requires
        cols_view(*cols) == spec_schema(fmt),
        i <= names.len(),
    ensures
        match r {
            Ok(v) => spec_resolve_cols(fmt, names@.map_values(|s: String| s@), i as int) == Ok::<
                Seq<int>,
                ParseErrM,
            >(v@.map_values(|k: usize| k as int)) && (forall|k: int|
                0 <= k < v.len() ==> #[trigger] v@[k] < spec_schema(fmt).len()),
            Err(e) => spec_resolve_cols(fmt, names@.map_values(|s: String| s@), i as int) == Err::<
                Seq<int>,
                ParseErrM,
            >(e@),
        },
    decreases names.len() - i,
{
    if i >= names.len() {
        let v: Vec<usize> = Vec::new();
        proof {
            assert(v@.map_values(|k: usize| k as int) =~= Seq::<int>::empty());
        }
        return Ok(v);
    }
    match crate::schema::resolve_col(cols, names[i].as_str()) {
        None => Err(
            ParseError::UnknownColumn { column: names[i].clone(), known: schema_names(cols, fmt) },
        ),
        Some(j) => match resolve_cols(fmt, cols, names, i + 1) {
            Ok(rest) => {
                let ghost oldr = rest;
                let mut rest = rest;
                rest.insert(0, j);
                proof {
                    assert(cols_view(*cols).len() == cols.len());
                    assert(rest@.map_values(|k: usize| k as int) =~= seq![j as int]
                        + oldr@.map_values(|k: usize| k as int));
                }
                Ok(rest)
            },
            Err(e) => Err(e),
        },
    }
}

/// The resolved projection: column indices and output names, in requested
/// order; `*` expands to the schema's full declared order at plan time.
pub open spec fn spec_projection_cols(fmt: Format, p: ProjM) -> Result<
    (Seq<int>, Seq<Seq<char>>),
    ParseErrM,
> {
    match p {
        ProjM::Star => Ok(
            (
                Seq::new(spec_schema(fmt).len(), |i: int| i),
                spec_schema_names(fmt),
            ),
        ),
        ProjM::Columns(cols) => match spec_resolve_cols(fmt, cols, 0) {
            Ok(idxs) => Ok((idxs, cols)),
            Err(e) => Err(e),
        },
    }
}

/// Plan one statement whose table resolved to `fmt`: validate and resolve
/// the projection, type-check the filter, and build the fixed tree
/// `Limit?(Project(Filter?(Scan)))`.
pub open spec fn spec_plan(fmt: Format, stmt: StmtM) -> Result<LNodeM, ParseErrM> {
    match spec_projection_cols(fmt, stmt.projection) {
        Err(e) => Err(e),
        Ok((idxs, names)) => {
            let base = match stmt.filter {
                None => Ok(LNodeM::Scan { format: fmt }),
                Some(e) => match spec_compile_expr(fmt, e) {
                    Ok(p) => Ok(
                        LNodeM::Filter {
                            pred: p,
                            child: Box::new(LNodeM::Scan { format: fmt }),
                        },
                    ),
                    Err(e2) => Err(e2),
                },
            };
            match base {
                Err(e) => Err(e),
                Ok(b) => {
                    let proj = LNodeM::Project { columns: idxs, names: names, child: Box::new(b) };
                    match stmt.limit {
                        None => Ok(proj),
                        Some(n) => if n <= 0x7fffffffffffffff {
                            Ok(LNodeM::Limit { count: n as i64, child: Box::new(proj) })
                        } else {
                            Err(ParseErrM::LimitTooLarge)
                        },
                    }
                },
            }
        },
    }
}

/// Plan one parsed statement against its resolved format.
pub fn parse_query(fmt: Format, stmt: &SelectStatement) -> (r: Result<LogicalNode, ParseError>)
    ensures
        match r {
            Ok(n) => spec_plan(fmt, crate::syntax::stmt_view(*stmt)) == Ok::<LNodeM, ParseErrM>(
                lnode_view(n),
            ),
            Err(e) => spec_plan(fmt, crate::syntax::stmt_view(*stmt)) == Err::<LNodeM, ParseErrM>(
                e@,
            ),
        },
{
    proof {
        reveal_with_fuel(lnode_view, 5);
    }
    let cols = schema_columns(fmt);
    let (idxs, names): (Vec<usize>, Vec<String>) = match &stmt.projection {
        Projection::Star => {
            let mut idxs: Vec<usize> = Vec::new();
            let mut i: usize = 0;
            while i < cols.len()
                invariant
                    i <= cols.len(),
                    idxs.len() == i,
                    forall|k: int| 0 <= k < i ==> idxs@[k] == k,
                decreases cols.len() - i,
            {
                idxs.push(i);
                i = i + 1;
            }
            proof {
                assert(cols_view(cols).len() == cols.len());
                assert(idxs@.map_values(|k: usize| k as int) =~= Seq::new(
                    spec_schema(fmt).len(),
                    |k: int| k,
                ));
            }
            (idxs, schema_names(&cols, fmt))
        },
        Projection::Columns(ns) => {
            match resolve_cols(fmt, &cols, ns, 0) {
                Ok(idxs) => {
                    let mut names: Vec<String> = Vec::new();
                    let mut i: usize = 0;
                    while i < ns.len()
                        invariant
                            i <= ns.len(),
                            names.len() == i,
                            forall|k: int| 0 <= k < i ==> names@[k]@ == ns@[k]@,
                        decreases ns.len() - i,
                    {
                        names.push(ns[i].clone());
                        i = i + 1;
                    }
                    proof {
                        assert(names@.map_values(|s: String| s@) =~= ns@.map_values(
                            |s: String| s@,
                        ));
                    }
                    (idxs, names)
                },
                Err(e) => {
                    return Err(e);
                },
            }
        },
    };
    let base: LogicalNode = match &stmt.filter {
        None => LogicalNode::Scan { format: fmt },
        Some(e) => match compile_expr(fmt, &cols, e) {
            Ok(p) => LogicalNode::Filter {
                pred: p,
                child: Box::new(LogicalNode::Scan { format: fmt }),
            },
            Err(e2) => {
                return Err(e2);
            },
        },
    };
    let proj = LogicalNode::Project { columns: idxs, names, child: Box::new(base) };
    match stmt.limit {
        None => Ok(proj),
        Some(n) => {
            if n <= 0x7fffffffffffffffu64 {
                Ok(LogicalNode::Limit { count: n as i64, child: Box::new(proj) })
            } else {
                Err(ParseError::LimitTooLarge)
            }
        },
    }
}

} // verus!
