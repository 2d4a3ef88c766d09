//! The streaming executor: value comparison semantics (three-valued on
//! `Null`: any comparison touching `Null` is not true), predicate
//! evaluation, and the pull-based stream that decodes, filters, projects and
//! limits lazily. Once the stream is exhausted — its limit spent, its source
//! drained, or a decode error reported — every further pull returns `None`.

use vstd::prelude::*;

use crate::logical::{pred_view, spec_pred_wf, Pred, PredM};
use crate::physical::{dup_strings, pnode_view, PNodeM, PhysicalNode};
use crate::schema::{
    cols_view, decode_line, schema_columns, spec_decode, spec_schema, strs_view, Column, DecErrM,
    DecodeError, Format,
};
use crate::syntax::CmpOp;
use crate::text::{spec_str_lt, str_eq, str_lt};
use crate::values::{
    spec_var_lookup, vals_view, vars_view, Value, Variables, Vm,
};

verus! {

/// Equality of two values of the same kind; values of different kinds are
/// never equal.
pub open spec fn spec_vals_eq(a: Vm, b: Vm) -> bool {
    match (a, b) {
        (Vm::Boolean(x), Vm::Boolean(y)) => x == y,
        (Vm::Int(x), Vm::Int(y)) => x == y,
        (Vm::Float(x), Vm::Float(y)) => x == y,
        (Vm::Str(x), Vm::Str(y)) => x == y,
        (Vm::DateTime(x), Vm::DateTime(y)) => x == y,
        (Vm::Host(x), Vm::Host(y)) => x == y,
        (Vm::HttpRequest(m1, p1, r1), Vm::HttpRequest(m2, p2, r2)) => m1 == m2 && p1 == p2 && r1
            == r2,
        _ => false,
    }
}

/// Strict order on two values of the same kind: numeric on numbers,
/// `false < true` on booleans, lexicographic on the text-like kinds.
pub open spec fn spec_vals_lt(a: Vm, b: Vm) -> bool {
    match (a, b) {
        (Vm::Boolean(x), Vm::Boolean(y)) => !x && y,
        (Vm::Int(x), Vm::Int(y)) => x < y,
        (Vm::Float(x), Vm::Float(y)) => x < y,
        (Vm::Str(x), Vm::Str(y)) => spec_str_lt(x, y),
        (Vm::DateTime(x), Vm::DateTime(y)) => spec_str_lt(x, y),
        (Vm::Host(x), Vm::Host(y)) => spec_str_lt(x, y),
        (Vm::HttpRequest(m1, p1, r1), Vm::HttpRequest(m2, p2, r2)) => spec_str_lt(m1, m2) || (m1
            == m2 && (spec_str_lt(p1, p2) || (p1 == p2 && spec_str_lt(r1, r2)))),
        _ => false,
    }
}

/// One comparison under three-valued logic: any comparison involving
/// `Null`, on either side and under every operator, is not true.
pub open spec fn spec_cmp_vals(a: Vm, op: CmpOp, b: Vm) -> bool {
    if a == Vm::Null || b == Vm::Null {
        false
    } else {
        match op {
            CmpOp::Eq => spec_vals_eq(a, b),
            CmpOp::Ne => !spec_vals_eq(a, b),
            CmpOp::Lt => spec_vals_lt(a, b),
            CmpOp::Le => spec_vals_lt(a, b) || spec_vals_eq(a, b),
            CmpOp::Gt => spec_vals_lt(b, a),
            CmpOp::Ge => spec_vals_lt(b, a) || spec_vals_eq(a, b),
        }
    }
}

/// A compiled predicate over one decoded tuple.
pub open spec fn spec_eval_pred(p: PredM, t: Seq<Vm>) -> bool
    decreases p,
{
    match p {
        PredM::Cmp { col, op, lit } => spec_cmp_vals(t[col], op, lit),
        PredM::And(a, b) => spec_eval_pred(*a, t) && spec_eval_pred(*b, t),
        PredM::Or(a, b) => spec_eval_pred(*a, t) || spec_eval_pred(*b, t),
    }
}

fn value_eq(a: &Value, b: &Value) -> (r: bool)
    ensures
        r == spec_vals_eq(a@, b@),
{
    match (a, b) {
        (Value::Boolean(x), Value::Boolean(y)) => *x == *y,
        (Value::Int(x), Value::Int(y)) => *x == *y,
        (Value::Float(x), Value::Float(y)) => *x == *y,
        (Value::Str(x), Value::Str(y)) => str_eq(x.as_str(), y.as_str()),
        (Value::DateTime(x), Value::DateTime(y)) => str_eq(x.as_str(), y.as_str()),
        (Value::Host(x), Value::Host(y)) => str_eq(x.as_str(), y.as_str()),
        (Value::HttpRequest(x), Value::HttpRequest(y)) => str_eq(
            x.method.as_str(),
            y.method.as_str(),
        ) && str_eq(x.path.as_str(), y.path.as_str()) && str_eq(
            x.protocol.as_str(),
            y.protocol.as_str(),
        ),
        _ => false,
    }
}

fn value_lt(a: &Value, b: &Value) -> (r: bool)
    ensures
        r == spec_vals_lt(a@, b@),
{
    match (a, b) {
        (Value::Boolean(x), Value::Boolean(y)) => !*x && *y,
        (Value::Int(x), Value::Int(y)) => *x < *y,
        (Value::Float(x), Value::Float(y)) => *x < *y,
        (Value::Str(x), Value::Str(y)) => str_lt(x.as_str(), y.as_str()),
        (Value::DateTime(x), Value::DateTime(y)) => str_lt(x.as_str(), y.as_str()),
        (Value::Host(x), Value::Host(y)) => str_lt(x.as_str(), y.as_str()),
        (Value::HttpRequest(x), Value::HttpRequest(y)) => {
            if str_lt(x.method.as_str(), y.method.as_str()) {
                true
            } else if str_eq(x.method.as_str(), y.method.as_str()) {
                if str_lt(x.path.as_str(), y.path.as_str()) {
                    true
                } else if str_eq(x.path.as_str(), y.path.as_str()) {
                    str_lt(x.protocol.as_str(), y.protocol.as_str())
                } else {
                    false
                }
            } else {
                false
            }
        },
        _ => false,
    }
}

fn eval_cmp(a: &Value, op: CmpOp, b: &Value) -> (r: bool)
    ensures
        r == spec_cmp_vals(a@, op, b@),
{
    let a_null = matches!(a, Value::Null);
    let b_null = matches!(b, Value::Null);
    if a_null || b_null {
        false
    } else {
        match op {
            CmpOp::Eq => value_eq(a, b),
            CmpOp::Ne => !value_eq(a, b),
            CmpOp::Lt => value_lt(a, b),
            CmpOp::Le => value_lt(a, b) || value_eq(a, b),
            CmpOp::Gt => value_lt(b, a),
            CmpOp::Ge => value_lt(b, a) || value_eq(a, b),
        }
    }
}

/// Decide whether one predicate passes on one decoded tuple.
pub fn eval_pred(p: &Pred, t: &Vec<Value>) -> (r: bool)
    requires
        spec_pred_wf(pred_view(*p), t.len() as int),
    ensures
        r == spec_eval_pred(pred_view(*p), vals_view(*t)),
    decreases *p,
{
    match p {
        Pred::Cmp { col, op, lit } => eval_cmp(&t[*col], *op, lit),
        Pred::And(a, b) => eval_pred(a, t) && eval_pred(b, t),
        Pred::Or(a, b) => eval_pred(a, t) || eval_pred(b, t),
    }
}

/// A materialized result row: output column names and their values, in the
/// projection's order.
#[derive(Debug, PartialEq)]
pub struct Record {
    pub columns: Vec<String>,
    pub values: Vec<Value>,
}

impl Record {
    pub open spec fn wf(&self) -> bool {
        self.columns.len() == self.values.len()
    }

    /// The record as ordered (name, value) pairs, for structured output.
    pub fn to_tuples(&self) -> (r: Vec<(String, Value)>)
        requires
            self.wf(),
        ensures
            r@.map_values(|p: (String, Value)| (p.0@, p.1@)) == Seq::new(
                self.values@.len(),
                |k: int| (self.columns@[k]@, self.values@[k]@),
            ),
    {
        let mut r: Vec<(String, Value)> = Vec::new();
        let mut i: usize = 0;
        while i < self.values.len()
            invariant
                self.wf(),
                i <= self.values.len(),
                r.len() == i,
                forall|k: int|
                    0 <= k < i ==> #[trigger] r@[k].0@ == self.columns@[k]@ && r@[k].1@
                        == self.values@[k]@,
            decreases self.values.len() - i,
        {
            r.push((self.columns[i].clone(), self.values[i].dup()));
            i = i + 1;
        }
        proof {
            assert(r@.map_values(|p: (String, Value)| (p.0@, p.1@)) =~= Seq::new(
                self.values@.len(),
                |k: int| (self.columns@[k]@, self.values@[k]@),
            ));
        }
        r
    }
}

/// The model of a record: column names and values, positionally paired.
pub type RecM = (Seq<Seq<char>>, Seq<Vm>);

pub open spec fn rec_view(r: Record) -> RecM {
    (strs_view(r.columns), vals_view(r.values))
}

pub open spec fn recs_view(v: Vec<Record>) -> Seq<RecM> {
    v@.map_values(|r: Record| rec_view(r))
}

/// The spec-level execution context of one stream: what it scans, filters
/// and projects.
pub struct ExecCtx {
    pub format: Format,
    pub pred: Option<PredM>,
    pub columns: Seq<int>,
    pub names: Seq<Seq<char>>,
}

/// Projection of one decoded tuple.
pub open spec fn spec_project(columns: Seq<int>, names: Seq<Seq<char>>, t: Seq<Vm>) -> RecM {
    (names, Seq::new(columns.len(), |k: int| t[columns[k]]))
}

pub open spec fn spec_pred_passes(pred: Option<PredM>, t: Seq<Vm>) -> bool {
    match pred {
        None => true,
        Some(p) => spec_eval_pred(p, t),
    }
}

pub open spec fn dec_limit(rem: Option<u64>) -> Option<u64> {
    match rem {
        None => None,
        Some(k) => Some((k - 1) as u64),
    }
}

/// A mid-execution stream failure, naming the line it arose at (1-based)
/// and the format whose decoder rejected it.
#[derive(Debug)]
pub enum StreamError {
    Decode { line_number: usize, format: Format, cause: DecodeError },
}

/// Mathematical model of a stream failure.
pub enum StreamErrM {
    Decode { line_number: int, format: Format, cause: DecErrM },
}

impl View for StreamError {
    type V = StreamErrM;

    open spec fn view(&self) -> StreamErrM {
        match self {
            StreamError::Decode { line_number, format, cause } => StreamErrM::Decode {
                line_number: *line_number as int,
                format: *format,
                cause: cause@,
            },
        }
    }
}

/// Everything the stream will still produce from line `pos` on: the records
/// of the remaining matching lines (up to the remaining limit), and the
/// error that stops it early, if one does.
pub open spec fn spec_run_from(
    ctx: ExecCtx,
    lines: Seq<Seq<char>>,
    pos: int,
    rem: Option<u64>,
) -> (Seq<RecM>, Option<StreamErrM>)
    decreases lines.len() - pos,
    when 0 <= pos <= lines.len()
{
    if rem == Some(0u64) {
        (Seq::empty(), None)
    } else if pos >= lines.len() {
        (Seq::empty(), None)
    } else {
        match spec_decode(ctx.format, lines[pos]) {
            Err(e) => (
                Seq::empty(),
                Some(StreamErrM::Decode { line_number: pos + 1, format: ctx.format, cause: e }),
            ),
            Ok(t) => if spec_pred_passes(ctx.pred, t) {
                let rest = spec_run_from(ctx, lines, pos + 1, dec_limit(rem));
                (seq![spec_project(ctx.columns, ctx.names, t)] + rest.0, rest.1)
            } else {
                spec_run_from(ctx, lines, pos + 1, rem)
            },
        }
    }
}

/// A failure while instantiating a stream from a physical plan.
#[derive(Debug)]
pub enum CreateStreamError {
    /// The plan's tree is not of the shape the planner builds.
    UnsupportedPlanShape,
    MissingVariable { name: String },
    /// The variable is bound, but not to a usable value.
    BadVariable { name: String },
}

/// Mathematical model of a stream-creation failure.
pub enum CsErrM {
    UnsupportedPlanShape,
    MissingVariable { name: Seq<char> },
    BadVariable { name: Seq<char> },
}

impl View for CreateStreamError {
    type V = CsErrM;

    open spec fn view(&self) -> CsErrM {
        match self {
            CreateStreamError::UnsupportedPlanShape => CsErrM::UnsupportedPlanShape,
            CreateStreamError::MissingVariable { name } => CsErrM::MissingVariable { name: name@ },
            CreateStreamError::BadVariable { name } => CsErrM::BadVariable { name: name@ },
        }
    }
}

/// The initial state a plan instantiates to.
pub struct InitM {
    pub ctx: ExecCtx,
    pub lines: Seq<Seq<char>>,
    pub limit: Option<u64>,
}

/// The core of a plan below any `Limit`: `Project(Filter?(Scan))`, with
/// every column index in range and the predicate well-formed.
pub open spec fn spec_check_core(
    format: Format,
    pred: Option<PredM>,
    columns: Seq<int>,
    names: Seq<Seq<char>>,
    lines: Seq<Seq<char>>,
) -> Result<InitM, CsErrM> {
    if (match pred {
        Some(p) => spec_pred_wf(p, spec_schema(format).len() as int),
        None => true,
    }) && (forall|k: int|
        0 <= k < columns.len() ==> 0 <= #[trigger] columns[k] < spec_schema(format).len())
        && names.len() == columns.len() {
        Ok(InitM { ctx: ExecCtx { format, pred, columns, names }, lines, limit: None })
    } else {
        Err(CsErrM::UnsupportedPlanShape)
    }
}

pub open spec fn spec_get_core(p: PNodeM) -> Result<InitM, CsErrM> {
    match p {
        PNodeM::Project { columns, names, child } => match *child {
            PNodeM::Filter { pred, child: c2 } => match *c2 {
                PNodeM::Scan { format, lines } => spec_check_core(
                    format,
                    Some(pred),
                    columns,
                    names,
                    lines,
                ),
                _ => Err(CsErrM::UnsupportedPlanShape),
            },
            PNodeM::Scan { format, lines } => spec_check_core(format, None, columns, names, lines),
            _ => Err(CsErrM::UnsupportedPlanShape),
        },
        _ => Err(CsErrM::UnsupportedPlanShape),
    }
}

/// Instantiate one physical plan with its variables: resolve the limit
/// variable if the plan is limited, and check the core's shape.
pub open spec fn spec_get(p: PNodeM, vars: Seq<(Seq<char>, Vm)>) -> Result<InitM, CsErrM> {
    match p {
        PNodeM::Limit { var_name, child } => match spec_var_lookup(vars, var_name) {
            None => Err(CsErrM::MissingVariable { name: var_name }),
            Some(v) => match v {
                Vm::Int(n) => if n < 0 {
                    Err(CsErrM::BadVariable { name: var_name })
                } else {
                    match spec_get_core(*child) {
                        Ok(init) => Ok(
                            InitM { ctx: init.ctx, lines: init.lines, limit: Some(n as u64) },
                        ),
                        Err(e) => Err(e),
                    }
                },
                _ => Err(CsErrM::BadVariable { name: var_name }),
            },
        },
        _ => spec_get_core(p),
    }
}

} // verus!

verus! {

fn check_bounds(columns: &Vec<usize>, n: usize) -> (r: bool)
    ensures
        r == (forall|k: int| 0 <= k < columns.len() ==> 0 <= #[trigger] columns@[k] < n),
{
    let mut i: usize = 0;
    while i < columns.len()
        invariant
            i <= columns.len(),
            forall|k: int| 0 <= k < i ==> 0 <= #[trigger] columns@[k] < n,
        decreases columns.len() - i,
    {
        if columns[i] >= n {
            return false;
        }
        i = i + 1;
    }
    true
}

fn check_pred_wf(p: &Pred, n: usize) -> (r: bool)
    ensures
        r == spec_pred_wf(pred_view(*p), n as int),
    decreases *p,
{
    match p {
        Pred::Cmp { col, op, lit } => *col < n,
        Pred::And(a, b) => check_pred_wf(a, n) && check_pred_wf(b, n),
        Pred::Or(a, b) => check_pred_wf(a, n) && check_pred_wf(b, n),
    }
}

/// The pull-based stream one physical plan instantiates to.
#[derive(Debug)]
pub struct Stream {
    format: Format,
    cols: Vec<Column>,
    pred: Option<Pred>,
    columns: Vec<usize>,
    names: Vec<String>,
    lines: Vec<String>,
    pos: usize,
    remaining: Option<u64>,
    exhausted: bool,
}

impl Stream {
    /// The execution context this stream runs.
    pub closed spec fn ctx(&self) -> ExecCtx {
        ExecCtx {
            format: self.format,
            pred: match self.pred {
                Some(p) => Some(pred_view(p)),
                None => None,
            },
            columns: self.columns@.map_values(|i: usize| i as int),
            names: strs_view(self.names),
        }
    }

    /// Well-formedness: the column table matches the format, the predicate
    /// and projection stay inside the schema, and the cursor stays inside
    /// the line buffer. Stream construction establishes it; `next`
    /// preserves it.
    pub closed spec fn wf(&self) -> bool {
        &&& cols_view(self.cols) == spec_schema(self.format)
        &&& (match self.pred {
            Some(p) => spec_pred_wf(pred_view(p), spec_schema(self.format).len() as int),
            None => true,
        })
        &&& (forall|k: int|
            0 <= k < self.columns.len() ==> 0 <= #[trigger] self.columns@[k] < spec_schema(
                self.format,
            ).len())
        &&& self.names.len() == self.columns.len()
        &&& self.pos <= self.lines.len()
    }

    /// Everything this stream will still produce.
    pub closed spec fn rest(&self) -> (Seq<RecM>, Option<StreamErrM>) {
        if self.exhausted {
            (Seq::empty(), None)
        } else {
            spec_run_from(self.ctx(), strs_view(self.lines), self.pos as int, self.remaining)
        }
    }
}

fn stream_build(
    format: Format,
    pred: Option<Pred>,
    columns: Vec<usize>,
    names: Vec<String>,
    lines: Vec<String>,
) -> (r: Result<Stream, CreateStreamError>)
    ensures
        match r {
            Ok(st) => spec_check_core(
                format,
                match pred {
                    Some(p) => Some(pred_view(p)),
                    None => None,
                },
                columns@.map_values(|i: usize| i as int),
                strs_view(names),
                strs_view(lines),
            ) matches Ok(init) && st.wf() && !st.spec_exhausted() && st.ctx() == init.ctx
                && st.spec_lines() == init.lines && st.spec_pos() == 0 && st.spec_remaining()
                == None::<u64>,
            Err(e) => spec_check_core(
                format,
                match pred {
                    Some(p) => Some(pred_view(p)),
                    None => None,
                },
                columns@.map_values(|i: usize| i as int),
                strs_view(names),
                strs_view(lines),
            ) == Err::<InitM, CsErrM>(e@),
        },
{
    let cols = schema_columns(format);
    proof {
        assert(cols_view(cols).len() == cols.len());
        assert(strs_view(names).len() == names.len());
        assert(strs_view(lines).len() == lines.len());
        assert(columns@.map_values(|i: usize| i as int).len() == columns.len());
        assert(forall|k: int|
            0 <= k < columns.len() ==> columns@.map_values(|i: usize| i as int)[k] == columns@[
                k
            ] as int);
    }
    let pred_ok = match &pred {
        Some(p) => check_pred_wf(p, cols.len()),
        None => true,
    };
    let bounds_ok = check_bounds(&columns, cols.len());
    if pred_ok && bounds_ok && names.len() == columns.len() {
        Ok(
            Stream {
                format,
                cols,
                pred,
                columns,
                names,
                lines,
                pos: 0,
                remaining: None,
                exhausted: false,
            },
        )
    } else {
        Err(CreateStreamError::UnsupportedPlanShape)
    }
}

impl Stream {
    /// Whether the stream is already exhausted.
    pub closed spec fn spec_exhausted(&self) -> bool {
        self.exhausted
    }

    pub closed spec fn spec_lines(&self) -> Seq<Seq<char>> {
        strs_view(self.lines)
    }

    pub closed spec fn spec_pos(&self) -> int {
        self.pos as int
    }

    pub closed spec fn spec_remaining(&self) -> Option<u64> {
        self.remaining
    }
}

impl PhysicalNode {
    /// Instantiate this plan into a stream, resolving its variables.
    pub fn get(self, variables: &Variables) -> (r: Result<Stream, CreateStreamError>)
        ensures
            match r {
                Ok(st) => spec_get(pnode_view(self), vars_view(*variables)) matches Ok(init)
                    && st.wf() && st.rest() == spec_run_from(init.ctx, init.lines, 0, init.limit),
                Err(e) => spec_get(pnode_view(self), vars_view(*variables)) == Err::<
                    InitM,
                    CsErrM,
                >(e@),
            },
    {
        proof {
            reveal_with_fuel(pnode_view, 5);
        }
        match self {
            PhysicalNode::Limit { var_name, child } => {
                let lim: u64 = match variables.get(var_name.as_str()) {
                    None => {
                        return Err(CreateStreamError::MissingVariable { name: var_name });
                    },
                    Some(v) => match v {
                        Value::Int(n) => {
                            if *n < 0 {
                                return Err(CreateStreamError::BadVariable { name: var_name });
                            } else {
                                *n as u64
                            }
                        },
                        _ => {
                            return Err(CreateStreamError::BadVariable { name: var_name });
                        },
                    },
                };
                match Self::get_core(*child) {
                    Ok(st) => {
                        let mut st = st;
                        st.remaining = Some(lim);
                        Ok(st)
                    },
                    Err(e) => Err(e),
                }
            },
            _ => Self::get_core(self),
        }
    }

    fn get_core(p: PhysicalNode) -> (r: Result<Stream, CreateStreamError>)
        ensures
            match r {
                Ok(st) => spec_get_core(pnode_view(p)) matches Ok(init) && st.wf()
                    && !st.spec_exhausted() && st.ctx() == init.ctx && st.spec_lines()
                    == init.lines && st.spec_pos() == 0 && st.spec_remaining() == None::<u64>,
                Err(e) => spec_get_core(pnode_view(p)) == Err::<InitM, CsErrM>(e@),
            },
    {
        proof {
            reveal_with_fuel(pnode_view, 5);
        }
        match p {
            PhysicalNode::Project { columns, names, child } => match *child {
                PhysicalNode::Filter { pred, child: c2 } => match *c2 {
                    PhysicalNode::Scan { format, lines } => stream_build(
                        format,
                        Some(pred),
                        columns,
                        names,
                        lines,
                    ),
                    _ => Err(CreateStreamError::UnsupportedPlanShape),
                },
                PhysicalNode::Scan { format, lines } => stream_build(
                    format,
                    None,
                    columns,
                    names,
                    lines,
                ),
                _ => Err(CreateStreamError::UnsupportedPlanShape),
            },
            _ => Err(CreateStreamError::UnsupportedPlanShape),
        }
    }
}

fn project_record(names: &Vec<String>, columns: &Vec<usize>, t: &Vec<Value>) -> (r: Record)
    requires
        names.len() == columns.len(),
        forall|k: int| 0 <= k < columns.len() ==> #[trigger] columns@[k] < t.len(),
    ensures
        rec_view(r) == spec_project(
            columns@.map_values(|i: usize| i as int),
            strs_view(*names),
            vals_view(*t),
        ),
        r.wf(),
{
    let mut vals: Vec<Value> = Vec::new();
    let mut i: usize = 0;
    while i < columns.len()
        invariant
            i <= columns.len(),
            vals.len() == i,
            forall|k: int| 0 <= k < columns.len() ==> #[trigger] columns@[k] < t.len(),
            forall|k: int| 0 <= k < i ==> vals@[k]@ == t@[columns@[k] as int]@,
        decreases columns.len() - i,
    {
        vals.push(t[columns[i]].dup());
        i = i + 1;
    }
    let ns = dup_strings(names);
    let r = Record { columns: ns, values: vals };
    proof {
        assert(vals_view(r.values) =~= Seq::new(
            columns@.map_values(|i: usize| i as int).len(),
            |k: int| vals_view(*t)[columns@.map_values(|i: usize| i as int)[k]],
        ));
        assert(strs_view(r.columns) =~= strs_view(*names));
    }
    r
}

impl Stream {
    /// Advance by exactly one output row: the next record, `Ok(None)` on
    /// exhaustion (permanently thereafter), or the error that stops the
    /// stream.
    pub fn next(&mut self) -> (r: Result<Option<Record>, StreamError>)
        requires
            old(self).wf(),
        ensures
            final(self).wf(),
            match r {
                Ok(Some(rec)) => {
                    &&& old(self).rest().0.len() > 0
                    &&& rec.wf()
                    &&& rec_view(rec) == old(self).rest().0[0]
                    &&& final(self).rest() == (old(self).rest().0.drop_first(), old(self).rest().1)
                },
                Ok(None) => {
                    &&& old(self).rest().0.len() == 0
                    &&& old(self).rest().1 is None
                    &&& final(self).rest() == (Seq::<RecM>::empty(), None::<StreamErrM>)
                },
                Err(e) => {
                    &&& old(self).rest().0.len() == 0
                    &&& old(self).rest().1 == Some(e@)
                    &&& final(self).rest() == (Seq::<RecM>::empty(), None::<StreamErrM>)
                },
            },
    {
        if self.exhausted {
            return Ok(None);
        }
        loop
            invariant
                self.wf(),
                !self.exhausted,
                self.format == old(self).format,
                self.cols == old(self).cols,
                self.pred == old(self).pred,
                self.columns == old(self).columns,
                self.names == old(self).names,
                self.lines == old(self).lines,
                spec_run_from(
                    self.ctx(),
                    strs_view(self.lines),
                    self.pos as int,
                    self.remaining,
                ) == old(self).rest(),
            decreases self.lines.len() - self.pos,
        {
            if let Some(k) = self.remaining {
                if k == 0 {
                    self.exhausted = true;
                    return Ok(None);
                }
            }
            if self.pos >= self.lines.len() {
                self.exhausted = true;
                return Ok(None);
            }
            proof {
                assert(strs_view(self.lines)[self.pos as int] == self.lines@[self.pos as int]@);
            }
            match decode_line(self.format, &self.cols, self.lines[self.pos].as_str()) {
                Err(e) => {
                    let ln = self.pos + 1;
                    let fmtv = self.format;
                    self.exhausted = true;
                    return Err(StreamError::Decode { line_number: ln, format: fmtv, cause: e });
                },
                Ok(t) => {
                    proof {
                        assert(cols_view(self.cols).len() == self.cols.len());
                    }
                    let passes = match &self.pred {
                        None => true,
                        Some(p) => eval_pred(p, &t),
                    };
                    if passes {
                        let rec = project_record(&self.names, &self.columns, &t);
                        self.pos = self.pos + 1;
                        self.remaining = match self.remaining {
                            None => None,
                            Some(k) => Some(k - 1),
                        };
                        proof {
                            assert((seq![rec_view(rec)] + spec_run_from(
                                self.ctx(),
                                strs_view(self.lines),
                                self.pos as int,
                                self.remaining,
                            ).0).drop_first() =~= spec_run_from(
                                self.ctx(),
                                strs_view(self.lines),
                                self.pos as int,
                                self.remaining,
                            ).0);
                        }
                        return Ok(Some(rec));
                    } else {
                        self.pos = self.pos + 1;
                    }
                },
            }
        }
    }
}

} // verus!
