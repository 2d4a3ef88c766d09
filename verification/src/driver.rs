//! The driver-facing surface: the error taxonomy, the output-mode selector,
//! and `run_query`, which runs syntax → logical plan → physical plan →
//! stream and collects the records. Rendering belongs to the caller.

use vstd::prelude::*;

use crate::execution::{
    recs_view, rec_view, spec_get, spec_run_from, CreateStreamError, CsErrM, RecM, Record,
    StreamErrM, StreamError,
};
use crate::logical::{parse_query, spec_plan, ParseErrM, ParseError};
use crate::physical::{
    spec_physical, DataSource, DsM, PhysErrM, PhysicalPlanCreator, PhysicalPlanError,
};
use crate::schema::{format_of, spec_format_of};
use crate::syntax::{parse_select, spec_parse, stmt_view, StmtM, SynErrM, SyntaxError};
use crate::values::vars_view;

verus! {

/// Everything one query run can fail with.
#[derive(Debug)]
pub enum AppError {
    Syntax(SyntaxError),
    /// The statement parsed, but trailing text was left over.
    InputNotAllConsumed(String),
    InvalidLogFileFormat,
    Parse(ParseError),
    PhysicalPlan(PhysicalPlanError),
    CreateStream(CreateStreamError),
    Stream(StreamError),
}

/// Mathematical model of a query failure.
pub enum AppErrM {
    Syntax(SynErrM),
    InputNotAllConsumed(Seq<char>),
    InvalidLogFileFormat,
    Parse(ParseErrM),
    PhysicalPlan(PhysErrM),
    CreateStream(CsErrM),
    Stream(StreamErrM),
}

impl View for AppError {
    type V = AppErrM;

    open spec fn view(&self) -> AppErrM {
        match self {
            AppError::Syntax(e) => AppErrM::Syntax(e@),
            AppError::InputNotAllConsumed(s) => AppErrM::InputNotAllConsumed(s@),
            AppError::InvalidLogFileFormat => AppErrM::InvalidLogFileFormat,
            AppError::Parse(e) => AppErrM::Parse(e@),
            AppError::PhysicalPlan(e) => AppErrM::PhysicalPlan(e@),
            AppError::CreateStream(e) => AppErrM::CreateStream(e@),
            AppError::Stream(e) => AppErrM::Stream(e@),
        }
    }
}

/// How the caller wants the records rendered.
#[derive(Clone, Copy, Debug, PartialEq, Eq, Structural)]
pub enum OutputMode {
    Table,
    Csv,
    Json,
}

impl OutputMode {
    /// The mode a flag value names: exactly `table`, `csv` or `json`.
    pub fn from_str(s: &str) -> (r: Result<OutputMode, String>)
        ensures
            match r {
                Ok(m) => (s@ == "table"@ && m == OutputMode::Table) || (s@ == "csv"@ && m
                    == OutputMode::Csv) || (s@ == "json"@ && m == OutputMode::Json),
                Err(msg) => s@ != "table"@ && s@ != "csv"@ && s@ != "json"@ && msg@
                    == "unknown output mode"@,
            },
    {
        if crate::text::str_eq(s, "table") {
            Ok(OutputMode::Table)
        } else if crate::text::str_eq(s, "csv") {
            Ok(OutputMode::Csv)
        } else if crate::text::str_eq(s, "json") {
            Ok(OutputMode::Json)
        } else {
            Err("unknown output mode".to_owned())
        }
    }
}

/// One whole query run: what `run_query` returns, as a mathematical
/// function of the query text and the data source. Running it twice on the
/// same inputs gives the same value.
pub open spec fn spec_run(q: Seq<char>, ds: DsM) -> Result<Seq<RecM>, AppErrM> {
    match spec_parse(q) {
        Err(e) => Err(AppErrM::Syntax(e)),
        Ok((stmt, pos)) => if pos < q.len() {
            Err(AppErrM::InputNotAllConsumed(q.subrange(pos, q.len() as int)))
        } else {
            match spec_format_of(stmt.table) {
                None => Err(AppErrM::InvalidLogFileFormat),
                Some(fmt) => match spec_plan(fmt, stmt) {
                    Err(e) => Err(AppErrM::Parse(e)),
                    Ok(lnode) => match spec_physical(lnode, ds) {
                        Err(e) => Err(AppErrM::PhysicalPlan(e)),
                        Ok((pnode, vars)) => match spec_get(pnode, vars) {
                            Err(e) => Err(AppErrM::CreateStream(e)),
                            Ok(init) => {
                                let out = spec_run_from(init.ctx, init.lines, 0, init.limit);
                                match out.1 {
                                    Some(e) => Err(AppErrM::Stream(e)),
                                    None => Ok(out.0),
                                }
                            },
                        },
                    },
                },
            }
        },
    }
}

/// Parse, validate, plan, lower, execute: the records of one query against
/// one data source, or the first error on the way.
pub fn run_query(query: &str, data_source: &DataSource) -> (r: Result<Vec<Record>, AppError>)
    ensures
        match r {
            Ok(recs) => spec_run(query@, data_source@) == Ok::<Seq<RecM>, AppErrM>(
                recs_view(recs),
            ) && (forall|k: int| 0 <= k < recs.len() ==> #[trigger] recs@[k].wf()),
            Err(e) => spec_run(query@, data_source@) == Err::<Seq<RecM>, AppErrM>(e@),
        },
{
    let n = query.unicode_len();
    let (stmt, pos) = match parse_select(query) {
        Ok(p) => p,
        Err(e) => {
            return Err(AppError::Syntax(e));
        },
    };
    if pos < n {
        let rest = query.substring_char(pos, n).to_owned();
        return Err(AppError::InputNotAllConsumed(rest));
    }
    let fmt = match format_of(stmt.table_name.as_str()) {
        Some(f) => f,
        None => {
            return Err(AppError::InvalidLogFileFormat);
        },
    };
    let lnode = match parse_query(fmt, &stmt) {
        Ok(nd) => nd,
        Err(e) => {
            return Err(AppError::Parse(e));
        },
    };
    let mut creator = PhysicalPlanCreator::new(data_source.dup());
    let (pnode, vars) = match lnode.physical(&mut creator) {
        Ok(p) => p,
        Err(e) => {
            return Err(AppError::PhysicalPlan(e));
        },
    };
    let mut stream = match pnode.get(&vars) {
        Ok(s) => s,
        Err(e) => {
            return Err(AppError::CreateStream(e));
        },
    };
    let ghost total = stream.rest();
    let mut out: Vec<Record> = Vec::new();
    proof {
        assert(recs_view(out) + stream.rest().0 =~= total.0);
    }
    loop
        invariant
            stream.wf(),
            recs_view(out) + stream.rest().0 == total.0,
            stream.rest().1 == total.1,
            spec_run(query@, data_source@) == (match total.1 {
                Some(e) => Err::<Seq<RecM>, AppErrM>(AppErrM::Stream(e)),
                None => Ok::<Seq<RecM>, AppErrM>(total.0),
            }),
            forall|k: int| 0 <= k < out.len() ==> #[trigger] out@[k].wf(),
        decreases stream.rest().0.len() + (match stream.rest().1 {
            Some(_) => 1int,
            None => 0int,
        }),
    {
        let ghost pre = stream.rest();
        let ghost out_pre = recs_view(out);
        match stream.next() {
            Ok(Some(rec)) => {
                let ghost rv = rec_view(rec);
                out.push(rec);
                proof {
                    assert(recs_view(out) =~= out_pre.push(rv));
                    assert(recs_view(out) + stream.rest().0 =~= out_pre + pre.0);
                }
            },
            Ok(None) => {
                proof {
                    assert(recs_view(out) + pre.0 =~= recs_view(out));
                }
                return Ok(out);
            },
            Err(e) => {
                return Err(AppError::Stream(e));
            },
        }
    }
}

} // verus!
