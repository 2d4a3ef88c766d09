//! The physical-plan compiler: lowers a logical tree 1:1 into an executable
//! tree, binding the concrete data source at the `Scan` leaf (a binding
//! failure surfaces here, never during streaming) and introducing the
//! variable bindings that stream construction resolves (the `LIMIT` count).

use vstd::prelude::*;

use crate::logical::{lnode_view, LNodeM, LogicalNode, Pred, PredM};
use crate::schema::{strs_view, Format};
use crate::values::{empty_variables, vars_view, Value, Variables, Vm};

verus! {

/// An opaque descriptor plus the line buffer it was bound to; `None` means
/// the caller could not bind it (the file was unreadable, say).
#[derive(Debug)]
pub struct DataSource {
    pub descriptor: String,
    pub lines: Option<Vec<String>>,
}

/// Mathematical model of a data source.
pub struct DsM {
    pub descriptor: Seq<char>,
    pub lines: Option<Seq<Seq<char>>>,
}

impl View for DataSource {
    type V = DsM;

    open spec fn view(&self) -> DsM {
        DsM {
            descriptor: self.descriptor@,
            lines: match &self.lines {
                Some(v) => Some(strs_view(*v)),
                None => None,
            },
        }
    }
}

pub fn dup_strings(v: &Vec<String>) -> (r: Vec<String>)
    ensures
        r@ == v@,
{
    let mut r: Vec<String> = Vec::new();
    let mut i: usize = 0;
    while i < v.len()
        invariant
            i <= v.len(),
            r.len() == i,
            forall|k: int| 0 <= k < i ==> r@[k] == v@[k],
        decreases v.len() - i,
    {
        r.push(v[i].clone());
        i = i + 1;
    }
    proof {
        assert(r@ =~= v@);
    }
    r
}

impl DataSource {
    /// A data source whose lines were read successfully.
    pub fn bound(descriptor: String, lines: Vec<String>) -> (r: DataSource)
        ensures
            r@ == (DsM { descriptor: descriptor@, lines: Some(strs_view(lines)) }),
    {
        DataSource { descriptor, lines: Some(lines) }
    }

    /// A data source that could not be read.
    pub fn unbound(descriptor: String) -> (r: DataSource)
        ensures
            r@ == (DsM { descriptor: descriptor@, lines: None::<Seq<Seq<char>>> }),
    {
        DataSource { descriptor, lines: None }
    }

    /// An exact copy.
    pub fn dup(&self) -> (r: DataSource)
        ensures
            r@ == self@,
    {
        DataSource {
            descriptor: self.descriptor.clone(),
            lines: match &self.lines {
                Some(v) => Some(dup_strings(v)),
                None => None,
            },
        }
    }
}

/// A data-source binding failure during lowering.
#[derive(Debug)]
pub enum PhysicalPlanError {
    SourceNotBound { descriptor: String },
}

/// Mathematical model of a lowering failure.
pub enum PhysErrM {
    SourceNotBound { descriptor: Seq<char> },
}

impl View for PhysicalPlanError {
    type V = PhysErrM;

    open spec fn view(&self) -> PhysErrM {
        match self {
            PhysicalPlanError::SourceNotBound { descriptor } => PhysErrM::SourceNotBound {
                descriptor: descriptor@,
            },
        }
    }
}

/// The compiler instance, bound to one concrete data source.
#[derive(Debug)]
pub struct PhysicalPlanCreator {
    pub data_source: DataSource,
}

impl PhysicalPlanCreator {
    pub fn new(data_source: DataSource) -> (r: PhysicalPlanCreator)
        ensures
            r.data_source@ == data_source@,
    {
        PhysicalPlanCreator { data_source }
    }
}

/// An executable plan node: the logical tree with the data source bound at
/// the `Scan` leaf and the `LIMIT` count behind a variable.
#[derive(Debug)]
pub enum PhysicalNode {
    Scan { format: Format, lines: Vec<String> },
    Filter { pred: Pred, child: Box<PhysicalNode> },
    Project { columns: Vec<usize>, names: Vec<String>, child: Box<PhysicalNode> },
    Limit { var_name: String, child: Box<PhysicalNode> },
}

/// Mathematical model of a physical plan node.
pub enum PNodeM {
    Scan { format: Format, lines: Seq<Seq<char>> },
    Filter { pred: PredM, child: Box<PNodeM> },
    Project { columns: Seq<int>, names: Seq<Seq<char>>, child: Box<PNodeM> },
    Limit { var_name: Seq<char>, child: Box<PNodeM> },
}

pub open spec fn pnode_view(n: PhysicalNode) -> PNodeM
    decreases n,
{
    match n {
        PhysicalNode::Scan { format, lines } => PNodeM::Scan { format, lines: strs_view(lines) },
        PhysicalNode::Filter { pred, child } => PNodeM::Filter {
            pred: crate::logical::pred_view(pred),
            child: Box::new(pnode_view(*child)),
        },
        PhysicalNode::Project { columns, names, child } => PNodeM::Project {
            columns: columns@.map_values(|i: usize| i as int),
            names: strs_view(names),
            child: Box::new(pnode_view(*child)),
        },
        PhysicalNode::Limit { var_name, child } => PNodeM::Limit {
            var_name: var_name@,
            child: Box::new(pnode_view(*child)),
        },
    }
}

/// Lower one logical node against a data source: a pure 1:1 structural
/// mapping, except that `Scan` binds the source's lines and `Limit` binds
/// its count as the variable `limit`.
pub open spec fn spec_physical(n: LNodeM, ds: DsM) -> Result<
    (PNodeM, Seq<(Seq<char>, Vm)>),
    PhysErrM,
>
    decreases n,
{
    match n {
        LNodeM::Scan { format } => match ds.lines {
            None => Err(PhysErrM::SourceNotBound { descriptor: ds.descriptor }),
            Some(ls) => Ok(
                (PNodeM::Scan { format, lines: ls }, Seq::<(Seq<char>, Vm)>::empty()),
            ),
        },
        LNodeM::Filter { pred, child } => match spec_physical(*child, ds) {
            Ok((c, vars)) => Ok((PNodeM::Filter { pred, child: Box::new(c) }, vars)),
            Err(e) => Err(e),
        },
        LNodeM::Project { columns, names, child } => match spec_physical(*child, ds) {
            Ok((c, vars)) => Ok((PNodeM::Project { columns, names, child: Box::new(c) }, vars)),
            Err(e) => Err(e),
        },
        LNodeM::Limit { count, child } => match spec_physical(*child, ds) {
            Ok((c, vars)) => Ok(
                (
                    PNodeM::Limit { var_name: "limit"@, child: Box::new(c) },
                    vars.push(("limit"@, Vm::Int(count as int))),
                ),
            ),
            Err(e) => Err(e),
        },
    }
}

impl LogicalNode {
    /// Lower this logical node through the compiler instance.
    pub fn physical(&self, creator: &mut PhysicalPlanCreator) -> (r: Result<
        (PhysicalNode, Variables),
        PhysicalPlanError,
    >)
        ensures
            *final(creator) == *old(creator),
            match r {
                Ok((p, vars)) => spec_physical(lnode_view(*self), old(creator).data_source@)
                    == Ok::<(PNodeM, Seq<(Seq<char>, Vm)>), PhysErrM>(
                    (pnode_view(p), vars_view(vars)),
                ),
                Err(e) => spec_physical(lnode_view(*self), old(creator).data_source@) == Err::<
                    (PNodeM, Seq<(Seq<char>, Vm)>),
                    PhysErrM,
                >(e@),
            },
        decreases *self,
    {
        match self {
            LogicalNode::Scan { format } => match &creator.data_source.lines {
                None => Err(
                    PhysicalPlanError::SourceNotBound {
                        descriptor: creator.data_source.descriptor.clone(),
                    },
                ),
                Some(ls) => Ok(
                    (
                        PhysicalNode::Scan { format: *format, lines: dup_strings(ls) },
                        empty_variables(),
                    ),
                ),
            },
            LogicalNode::Filter { pred, child } => match child.physical(creator) {
                Ok((c, vars)) => Ok(
                    (PhysicalNode::Filter { pred: pred.dup(), child: Box::new(c) }, vars),
                ),
                Err(e) => Err(e),
            },
            LogicalNode::Project { columns, names, child } => match child.physical(creator) {
                Ok((c, vars)) => Ok(
                    (
                        PhysicalNode::Project {
                            columns: dup_usizes(columns),
                            names: dup_strings(names),
                            child: Box::new(c),
                        },
                        vars,
                    ),
                ),
                Err(e) => Err(e),
            },
            LogicalNode::Limit { count, child } => match child.physical(creator) {
                Ok((c, vars)) => {
                    let mut vars = vars;
                    vars.insert("limit".to_owned(), Value::Int(*count));
                    Ok(
                        (
                            PhysicalNode::Limit {
                                var_name: "limit".to_owned(),
                                child: Box::new(c),
                            },
                            vars,
                        ),
                    )
                },
                Err(e) => Err(e),
            },
        }
    }
}

fn dup_usizes(v: &Vec<usize>) -> (r: Vec<usize>)
    ensures
        r@ == v@,
{
    let mut r: Vec<usize> = Vec::new();
    let mut i: usize = 0;
    while i < v.len()
        invariant
            i <= v.len(),
            r.len() == i,
            forall|k: int| 0 <= k < i ==> r@[k] == v@[k],
        decreases v.len() - i,
    {
        r.push(v[i]);
        i = i + 1;
    }
    proof {
        assert(r@ =~= v@);
    }
    r
}

impl Pred {
    /// An exact copy of a compiled predicate.
    pub fn dup(&self) -> (r: Pred)
        ensures
            crate::logical::pred_view(r) == crate::logical::pred_view(*self),
        decreases *self,
    {
        match self {
            Pred::Cmp { col, op, lit } => Pred::Cmp { col: *col, op: *op, lit: lit.dup() },
            Pred::And(a, b) => Pred::And(Box::new(a.dup()), Box::new(b.dup())),
            Pred::Or(a, b) => Pred::Or(Box::new(a.dup()), Box::new(b.dup())),
        }
    }
}

} // verus!
