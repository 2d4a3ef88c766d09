//! The typed data model shared by every stage of the pipeline: `Value`, its
//! mathematical model `Vm`, tuples, and records.
//!
//! Fractional numbers are held as fixed-point integers with six decimal
//! places (millionths), so that every value is exactly representable and
//! totally ordered; the renderers turn them back into decimal text.

use vstd::prelude::*;

verus! {

/// The declared kind of a schema column.
#[derive(Clone, Copy, Debug, PartialEq, Eq, Structural)]
pub enum ValueKind {
    Bool,
    Int,
    Float,
    Str,
    DateTime,
    Host,
    HttpRequest,
}

/// A decomposed HTTP request line: method, path and protocol.
#[derive(Debug, PartialEq)]
pub struct HttpReq {
    pub method: String,
    pub path: String,
    pub protocol: String,
}

/// Mathematical model of a `Value`.
pub enum Vm {
    Boolean(bool),
    Int(int),
    /// Fixed-point with six decimal places: the mathematical number is
    /// `millionths / 1000000`.
    Float(int),
    Str(Seq<char>),
    DateTime(Seq<char>),
    Host(Seq<char>),
    HttpRequest(Seq<char>, Seq<char>, Seq<char>),
    Null,
}

/// A typed value: the closed tagged union every stage dispatches over.
#[derive(Debug, PartialEq)]
pub enum Value {
    Boolean(bool),
    Int(i64),
    /// Fixed-point millionths: `Float(1_500_000)` is the number 1.5.
    Float(i64),
    Str(String),
    DateTime(String),
    Host(String),
    HttpRequest(HttpReq),
    Null,
}

impl View for Value {
    type V = Vm;

    open spec fn view(&self) -> Vm {
        match self {
            Value::Boolean(b) => Vm::Boolean(*b),
            Value::Int(i) => Vm::Int(*i as int),
            Value::Float(m) => Vm::Float(*m as int),
            Value::Str(s) => Vm::Str(s@),
            Value::DateTime(s) => Vm::DateTime(s@),
            Value::Host(s) => Vm::Host(s@),
            Value::HttpRequest(r) => Vm::HttpRequest(r.method@, r.path@, r.protocol@),
            Value::Null => Vm::Null,
        }
    }
}

/// The model of a tuple: one `Vm` per schema column, in column order.
pub open spec fn vals_view(v: Vec<Value>) -> Seq<Vm> {
    v@.map_values(|x: Value| x@)
}

/// The kind a value belongs to, or `None` for `Null` (which has every kind's
/// comparisons rejecting it, never a kind of its own).
pub open spec fn spec_kind_of(v: Vm) -> Option<ValueKind> {
    match v {
        Vm::Boolean(_) => Some(ValueKind::Bool),
        Vm::Int(_) => Some(ValueKind::Int),
        Vm::Float(_) => Some(ValueKind::Float),
        Vm::Str(_) => Some(ValueKind::Str),
        Vm::DateTime(_) => Some(ValueKind::DateTime),
        Vm::Host(_) => Some(ValueKind::Host),
        Vm::HttpRequest(_, _, _) => Some(ValueKind::HttpRequest),
        Vm::Null => None,
    }
}

impl Value {
    /// An exact copy: same variant, same content.
    pub fn dup(&self) -> (r: Value)
        ensures
            r@ == self@,
    {
        match self {
            Value::Boolean(b) => Value::Boolean(*b),
            Value::Int(i) => Value::Int(*i),
            Value::Float(m) => Value::Float(*m),
            Value::Str(s) => Value::Str(s.clone()),
            Value::DateTime(s) => Value::DateTime(s.clone()),
            Value::Host(s) => Value::Host(s.clone()),
            Value::HttpRequest(r) => Value::HttpRequest(
                HttpReq {
                    method: r.method.clone(),
                    path: r.path.clone(),
                    protocol: r.protocol.clone(),
                },
            ),
            Value::Null => Value::Null,
        }
    }
}

} // verus!

verus! {

/// Runtime value bindings threaded from physical-plan compilation into
/// stream construction: a name-to-value mapping with first-binding-wins
/// lookup.
#[derive(Debug)]
pub struct Variables {
    pub items: Vec<(String, Value)>,
}

pub open spec fn vars_view(v: Variables) -> Seq<(Seq<char>, Vm)> {
    v.items@.map_values(|p: (String, Value)| (p.0@, p.1@))
}

/// First binding of `name`, searched from `i`.
pub open spec fn spec_var_lookup_from(vs: Seq<(Seq<char>, Vm)>, name: Seq<char>, i: int) -> Option<
    Vm,
>
    decreases vs.len() - i,
    when 0 <= i <= vs.len()
{
    if i >= vs.len() {
        None
    } else if vs[i].0 == name {
        Some(vs[i].1)
    } else {
        spec_var_lookup_from(vs, name, i + 1)
    }
}

/// First binding of `name`.
pub open spec fn spec_var_lookup(vs: Seq<(Seq<char>, Vm)>, name: Seq<char>) -> Option<Vm> {
    spec_var_lookup_from(vs, name, 0)
}

/// A `Variables` with no bindings.
pub fn empty_variables() -> (r: Variables)
    ensures
        vars_view(r) == Seq::<(Seq<char>, Vm)>::empty(),
{
    let r = Variables { items: Vec::new() };
    proof {
        assert(vars_view(r) =~= Seq::<(Seq<char>, Vm)>::empty());
    }
    r
}

impl Variables {
    /// Append a binding.
    pub fn insert(&mut self, name: String, value: Value)
        ensures
            vars_view(*final(self)) == vars_view(*old(self)).push((name@, value@)),
    {
        let ghost old_view = vars_view(*self);
        let ghost nm = name@;
        let ghost vm = value@;
        self.items.push((name, value));
        proof {
            assert(vars_view(*self) =~= old_view.push((nm, vm)));
        }
    }

    /// Look a name up.
    pub fn get(&self, name: &str) -> (r: Option<&Value>)
        ensures
            match r {
                Some(v) => spec_var_lookup(vars_view(*self), name@) == Some(v@),
                None => spec_var_lookup(vars_view(*self), name@).is_none(),
            },
    {
        let mut i: usize = 0;
        while i < self.items.len()
            invariant
                i <= self.items.len(),
                spec_var_lookup(vars_view(*self), name@) == spec_var_lookup_from(
                    vars_view(*self),
                    name@,
                    i as int,
                ),
            decreases self.items.len() - i,
        {
            if crate::text::str_eq(self.items[i].0.as_str(), name) {
                return Some(&self.items[i].1);
            }
            i = i + 1;
        }
        None
    }
}

} // verus!
