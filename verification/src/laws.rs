//! The library's cross-cutting guarantees, each proved from the public
//! contracts: projection order under `*`, the `LIMIT` bound, three-valued
//! `Null` comparison, and determinism of a whole query run.

use vstd::prelude::*;

use crate::driver::{spec_run, AppErrM};
use crate::execution::{
    dec_limit, spec_cmp_vals, spec_eval_pred, spec_get, spec_run_from, ExecCtx, RecM,
};
use crate::logical::{spec_plan, LNodeM, PredM};
use crate::physical::{spec_physical, DsM};
use crate::schema::{spec_format_of, Format};
use crate::syntax::{spec_parse, CmpOp, ProjM, StmtM, SynErrM};
use crate::values::{spec_var_lookup, Vm};

verus! {

/// Any comparison with `Null` on either side, under every operator, is not
/// true: the row is excluded rather than matched or erroring.
pub proof fn lemma_null_comparison(a: Vm, op: CmpOp)
    ensures
        !spec_cmp_vals(a, op, Vm::Null),
        !spec_cmp_vals(Vm::Null, op, a),
{
}

/// A filter that compares any column against a `Null` literal excludes
/// every row, regardless of operator direction.
pub proof fn lemma_null_literal_excludes(col: int, op: CmpOp, t: Seq<Vm>)
    ensures
        !spec_eval_pred(PredM::Cmp { col, op, lit: Vm::Null }, t),
{
}

/// Running the same query against the same static data source twice yields
/// identical ordered output: the result is a mathematical function of the
/// query text and the source's lines, which `run_query`'s contract pins.
pub proof fn lemma_query_deterministic(q: Seq<char>, ds: DsM)
    ensures
        spec_run(q, ds) == spec_run(q, ds),
{
}

/// Every record a stream yields carries the context's output column names,
/// in order.
pub proof fn lemma_run_from_columns(ctx: ExecCtx, lines: Seq<Seq<char>>, pos: int, rem: Option<
    u64,
>)
    requires
        0 <= pos <= lines.len(),
    ensures
        forall|k: int|
            0 <= k < spec_run_from(ctx, lines, pos, rem).0.len() ==> #[trigger] spec_run_from(
                ctx,
                lines,
                pos,
                rem,
            ).0[k].0 == ctx.names,
    decreases lines.len() - pos,
{
    if rem == Some(0u64) || pos >= lines.len() {
    } else {
        match crate::schema::spec_decode(ctx.format, lines[pos]) {
            Err(_) => {},
            Ok(t) => {
                if crate::execution::spec_pred_passes(ctx.pred, t) {
                    lemma_run_from_columns(ctx, lines, pos + 1, dec_limit(rem));
                    let h = crate::execution::spec_project(ctx.columns, ctx.names, t);
                    let rest = spec_run_from(ctx, lines, pos + 1, dec_limit(rem));
                    assert(spec_run_from(ctx, lines, pos, rem).0 == seq![h] + rest.0);
                    assert forall|k: int|
                        0 <= k < spec_run_from(ctx, lines, pos, rem).0.len() implies spec_run_from(
                        ctx,
                        lines,
                        pos,
                        rem,
                    ).0[k].0 == ctx.names by {
                        if k == 0 {
                        } else {
                            assert((seq![h] + rest.0)[k] == rest.0[k - 1]);
                        }
                    }
                } else {
                    lemma_run_from_columns(ctx, lines, pos + 1, rem);
                    assert(spec_run_from(ctx, lines, pos, rem) == spec_run_from(
                        ctx,
                        lines,
                        pos + 1,
                        rem,
                    ));
                    assert forall|k: int|
                        0 <= k < spec_run_from(ctx, lines, pos, rem).0.len() implies spec_run_from(
                        ctx,
                        lines,
                        pos,
                        rem,
                    ).0[k].0 == ctx.names by {
                        assert(spec_run_from(ctx, lines, pos, rem).0[k] == spec_run_from(
                            ctx,
                            lines,
                            pos + 1,
                            rem,
                        ).0[k]);
                    }
                }
            },
        }
    }
}

/// A stream created with `LIMIT n` yields at most `n` records.
pub proof fn lemma_run_from_limit(ctx: ExecCtx, lines: Seq<Seq<char>>, pos: int, n: u64)
    requires
        0 <= pos <= lines.len(),
    ensures
        spec_run_from(ctx, lines, pos, Some(n)).0.len() <= n,
    decreases lines.len() - pos,
{
    if n == 0 || pos >= lines.len() {
    } else {
        match crate::schema::spec_decode(ctx.format, lines[pos]) {
            Err(_) => {},
            Ok(t) => {
                if crate::execution::spec_pred_passes(ctx.pred, t) {
                    lemma_run_from_limit(ctx, lines, pos + 1, (n - 1) as u64);
                } else {
                    lemma_run_from_limit(ctx, lines, pos + 1, n);
                }
            },
        }
    }
}

/// For a well-formed query with `*` projection over a known format, every
/// emitted record's column order equals the schema's declared column order.
pub proof fn lemma_star_columns(
    q: Seq<char>,
    ds: DsM,
    stmt: StmtM,
    pos: int,
    fmt: Format,
    recs: Seq<RecM>,
)
    requires
        spec_parse(q) == Ok::<(StmtM, int), SynErrM>((stmt, pos)),
        stmt.projection == ProjM::Star,
        spec_format_of(stmt.table) == Some(fmt),
        spec_run(q, ds) == Ok::<Seq<RecM>, AppErrM>(recs),
    ensures
        forall|k: int|
            0 <= k < recs.len() ==> #[trigger] recs[k].0 == crate::logical::spec_schema_names(fmt),
{
    reveal_with_fuel(spec_physical, 6);
    let names = crate::logical::spec_schema_names(fmt);
    let plan = spec_plan(fmt, stmt)->Ok_0;
    let lowered = spec_physical(plan, ds)->Ok_0;
    let init = spec_get(lowered.0, lowered.1)->Ok_0;
    assert(init.ctx.names == names);
    lemma_run_from_columns(init.ctx, init.lines, 0, init.limit);
    assert(spec_run_from(init.ctx, init.lines, 0, init.limit).0 == recs);
}

/// For a query with `LIMIT n`, the whole run yields at most `n` records.
/// (That a finished stream yields nothing further is part of `next`'s
/// contract: once its remaining output is empty it returns `None` forever.)
pub proof fn lemma_limit_output(
    q: Seq<char>,
    ds: DsM,
    stmt: StmtM,
    pos: int,
    n: u64,
    recs: Seq<RecM>,
)
    requires
        spec_parse(q) == Ok::<(StmtM, int), SynErrM>((stmt, pos)),
        stmt.limit == Some(n),
        spec_run(q, ds) == Ok::<Seq<RecM>, AppErrM>(recs),
    ensures
        recs.len() <= n,
{
    reveal_with_fuel(spec_physical, 6);
    let fmt = spec_format_of(stmt.table)->Some_0;
    let plan = spec_plan(fmt, stmt)->Ok_0;
    let lowered = spec_physical(plan, ds)->Ok_0;
    let pnode = lowered.0;
    let vars = lowered.1;
    match plan {
        LNodeM::Limit { count, child } => {
            let lowered_child = spec_physical(*child, ds)->Ok_0;
            assert(vars == lowered_child.1.push(("limit"@, Vm::Int(count as int))));
            assert(lowered_child.1 =~= Seq::<(Seq<char>, Vm)>::empty()) by {
                match *child {
                    LNodeM::Project { columns: _, names: _, child: c2 } => {
                        match *c2 {
                            LNodeM::Filter { pred: _, child: c3 } => {},
                            _ => {},
                        }
                    },
                    _ => {},
                }
            }
            assert(spec_var_lookup(vars, "limit"@) == Some(Vm::Int(count as int))) by {
                assert(vars.len() == 1 && vars[0] == ("limit"@, Vm::Int(count as int)));
            }
            let init = spec_get(pnode, vars)->Ok_0;
            assert(init.limit == Some(n));
            lemma_run_from_limit(init.ctx, init.lines, 0, n);
            assert(spec_run_from(init.ctx, init.lines, 0, init.limit).0 == recs);
        },
        _ => {
            assert(false);
        },
    }
}

} // verus!

verus! {

/// A resolved column index always lies inside the schema.
proof fn lemma_resolve_bounds(
    sch: Seq<(Seq<char>, crate::values::ValueKind)>,
    name: Seq<char>,
    i: int,
)
    requires
        0 <= i <= sch.len(),
    ensures
        crate::schema::spec_resolve_from(sch, name, i) matches Some(j) ==> i <= j < sch.len(),
    decreases sch.len() - i,
{
    if i < sch.len() && sch[i].0 != name {
        lemma_resolve_bounds(sch, name, i + 1);
    }
}

/// A predicate the planner compiles is well-formed for its schema.
proof fn lemma_compiled_pred_wf(fmt: Format, e: crate::syntax::ExprM)
    ensures
        crate::logical::spec_compile_expr(fmt, e) matches Ok(p) ==> crate::logical::spec_pred_wf(
            p,
            crate::schema::spec_schema(fmt).len() as int,
        ),
    decreases e,
{
    match e {
        crate::syntax::ExprM::Cmp { col, op, lit } => {
            lemma_resolve_bounds(crate::schema::spec_schema(fmt), col, 0);
        },
        crate::syntax::ExprM::And(a, b) => {
            lemma_compiled_pred_wf(fmt, *a);
            lemma_compiled_pred_wf(fmt, *b);
        },
        crate::syntax::ExprM::Or(a, b) => {
            lemma_compiled_pred_wf(fmt, *a);
            lemma_compiled_pred_wf(fmt, *b);
        },
    }
}

/// Every projection index the planner resolves lies inside the schema, one
/// per requested column.
proof fn lemma_resolved_cols(fmt: Format, cols: Seq<Seq<char>>, i: int)
    requires
        0 <= i <= cols.len(),
    ensures
        crate::logical::spec_resolve_cols(fmt, cols, i) matches Ok(idxs) ==> idxs.len()
            == cols.len() - i && (forall|k: int|
            0 <= k < idxs.len() ==> 0 <= #[trigger] idxs[k] < crate::schema::spec_schema(
                fmt,
            ).len()),
    decreases cols.len() - i,
{
    if i < cols.len() {
        lemma_resolve_bounds(crate::schema::spec_schema(fmt), cols[i], 0);
        lemma_resolved_cols(fmt, cols, i + 1);
        match crate::schema::spec_resolve(fmt, cols[i]) {
            Some(j) => {
                match crate::logical::spec_resolve_cols(fmt, cols, i + 1) {
                    Ok(rest) => {
                        assert forall|k: int|
                            0 <= k < (seq![j] + rest).len() implies 0 <= #[trigger] (seq![j]
                            + rest)[k] < crate::schema::spec_schema(fmt).len() by {
                            if k > 0 {
                                assert((seq![j] + rest)[k] == rest[k - 1]);
                            }
                        }
                    },
                    Err(_) => {},
                }
            },
            None => {},
        }
    }
}

/// A planned query against a bound data source always lowers and
/// instantiates: once planning succeeds, the only failure still possible is
/// a stream decode error, and binding failures never surface later than
/// lowering.
pub proof fn lemma_bound_source_reaches_execution(
    q: Seq<char>,
    ds: DsM,
    stmt: StmtM,
    pos: int,
    fmt: Format,
)
    requires
        spec_parse(q) == Ok::<(StmtM, int), SynErrM>((stmt, pos)),
        pos == q.len(),
        spec_format_of(stmt.table) == Some(fmt),
        spec_plan(fmt, stmt) is Ok,
        ds.lines is Some,
    ensures
        spec_run(q, ds) matches Ok(_) || (spec_run(q, ds) matches Err(e) && e is Stream),
{
    reveal_with_fuel(spec_physical, 6);
    let plan = spec_plan(fmt, stmt)->Ok_0;
    let pc = crate::logical::spec_projection_cols(fmt, stmt.projection)->Ok_0;
    match stmt.projection {
        ProjM::Star => {},
        ProjM::Columns(cols) => {
            lemma_resolved_cols(fmt, cols, 0);
        },
    }
    match stmt.filter {
        None => {},
        Some(e) => {
            lemma_compiled_pred_wf(fmt, e);
        },
    }
    let lowered = spec_physical(plan, ds)->Ok_0;
    assert(spec_physical(plan, ds) is Ok);
    assert(spec_get(lowered.0, lowered.1) is Ok);
}

} // verus!
