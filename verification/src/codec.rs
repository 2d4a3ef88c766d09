//! The JSON value mapping the core guarantees: every `Value` variant maps
//! to exactly one JSON shape (`Boolean`→boolean, `Int`/`Float`→number,
//! `DateTime`/`Host`/`HttpRequest`→string, `Null`→null, `String`→string),
//! and decoding against the column's kind restores the value. The renderer
//! turns `Jv` into JSON text; this module owns the value-level mapping and
//! its round-trip law.

use vstd::prelude::*;

use crate::schema::{spec_fields, split_fields, strs_view};
use crate::text::find_char;
use crate::values::{spec_kind_of, HttpReq, Value, ValueKind, Vm};

verus! {

/// A JSON value, as far as records need: null, boolean, number (integer or
/// fixed-point millionths) or string.
#[derive(Debug, PartialEq)]
pub enum Jv {
    Null,
    Bool(bool),
    Int(i64),
    /// A number with six decimal places, held in millionths.
    Float(i64),
    Str(String),
}

/// Mathematical model of a JSON value.
pub enum JvM {
    Null,
    Bool(bool),
    Int(int),
    Float(int),
    Str(Seq<char>),
}

impl View for Jv {
    type V = JvM;

    open spec fn view(&self) -> JvM {
        match self {
            Jv::Null => JvM::Null,
            Jv::Bool(b) => JvM::Bool(*b),
            Jv::Int(i) => JvM::Int(*i as int),
            Jv::Float(m) => JvM::Float(*m as int),
            Jv::Str(s) => JvM::Str(s@),
        }
    }
}

/// An HTTP request line rendered back to one string.
pub open spec fn spec_join_req(m: Seq<char>, p: Seq<char>, r: Seq<char>) -> Seq<char> {
    m + seq![' '] + p + seq![' '] + r
}

/// The JSON encoding of one value.
pub open spec fn spec_encode_value(v: Vm) -> JvM {
    match v {
        Vm::Boolean(b) => JvM::Bool(b),
        Vm::Int(i) => JvM::Int(i),
        Vm::Float(m) => JvM::Float(m),
        Vm::Str(s) => JvM::Str(s),
        Vm::DateTime(s) => JvM::Str(s),
        Vm::Host(s) => JvM::Str(s),
        Vm::HttpRequest(m, p, r) => JvM::Str(spec_join_req(m, p, r)),
        Vm::Null => JvM::Null,
    }
}

/// The value one JSON value decodes back to at a column's kind.
pub open spec fn spec_decode_value(j: JvM, kind: ValueKind) -> Option<Vm> {
    match j {
        JvM::Null => Some(Vm::Null),
        JvM::Bool(b) => if kind == ValueKind::Bool {
            Some(Vm::Boolean(b))
        } else {
            None
        },
        JvM::Int(i) => if kind == ValueKind::Int {
            Some(Vm::Int(i))
        } else {
            None
        },
        JvM::Float(m) => if kind == ValueKind::Float {
            Some(Vm::Float(m))
        } else {
            None
        },
        JvM::Str(s) => match kind {
            ValueKind::Str => Some(Vm::Str(s)),
            ValueKind::DateTime => Some(Vm::DateTime(s)),
            ValueKind::Host => Some(Vm::Host(s)),
            ValueKind::HttpRequest => match spec_fields(s, 0) {
                Some(parts) => if parts.len() == 3 && parts[0].len() > 0 && parts[1].len() > 0
                    && parts[2].len() > 0 {
                    Some(Vm::HttpRequest(parts[0], parts[1], parts[2]))
                } else {
                    None
                },
                None => None,
            },
            _ => None,
        },
    }
}

/// Encode one value for the JSON renderer.
pub fn encode_value(v: &Value) -> (r: Jv)
    ensures
        r@ == spec_encode_value(v@),
{
    match v {
        Value::Boolean(b) => Jv::Bool(*b),
        Value::Int(i) => Jv::Int(*i),
        Value::Float(m) => Jv::Float(*m),
        Value::Str(s) => Jv::Str(s.clone()),
        Value::DateTime(s) => Jv::Str(s.clone()),
        Value::Host(s) => Jv::Str(s.clone()),
        Value::HttpRequest(h) => {
            let mut s = h.method.clone();
            s.append(" ");
            s.append(h.path.as_str());
            s.append(" ");
            s.append(h.protocol.as_str());
            proof {
                reveal_strlit(" ");
                assert(" "@ =~= seq![' ']);
                assert(s@ =~= spec_join_req(h.method@, h.path@, h.protocol@));
            }
            Jv::Str(s)
        },
        Value::Null => Jv::Null,
    }
}

/// Decode one JSON value back at a column's kind.
pub fn decode_value(j: &Jv, kind: ValueKind) -> (r: Option<Value>)
    ensures
        match r {
            Some(v) => spec_decode_value(j@, kind) == Some(v@),
            None => spec_decode_value(j@, kind).is_none(),
        },
{
    match j {
        Jv::Null => Some(Value::Null),
        Jv::Bool(b) => {
            if matches!(kind, ValueKind::Bool) {
                Some(Value::Boolean(*b))
            } else {
                None
            }
        },
        Jv::Int(i) => {
            if matches!(kind, ValueKind::Int) {
                Some(Value::Int(*i))
            } else {
                None
            }
        },
        Jv::Float(m) => {
            if matches!(kind, ValueKind::Float) {
                Some(Value::Float(*m))
            } else {
                None
            }
        },
        Jv::Str(s) => match kind {
            ValueKind::Str => Some(Value::Str(s.clone())),
            ValueKind::DateTime => Some(Value::DateTime(s.clone())),
            ValueKind::Host => Some(Value::Host(s.clone())),
            ValueKind::HttpRequest => match split_fields(s.as_str()) {
                Some(parts) => {
                    if parts.len() == 3 && !parts[0].as_str().is_empty()
                        && !parts[1].as_str().is_empty() && !parts[2].as_str().is_empty() {
                        Some(
                            Value::HttpRequest(
                                HttpReq {
                                    method: parts[0].clone(),
                                    path: parts[1].clone(),
                                    protocol: parts[2].clone(),
                                },
                            ),
                        )
                    } else {
                        None
                    }
                },
                None => None,
            },
            _ => None,
        },
    }
}

/// What the JSON mapping asks of a request-line value: its three parts are
/// nonempty, hold no space, and do not begin with a quote or bracket — as
/// every decoder-produced request satisfies.
pub open spec fn vm_json_safe(v: Vm) -> bool {
    match v {
        Vm::HttpRequest(m, p, r) => m.len() > 0 && p.len() > 0 && r.len() > 0 && (forall|k: int|
            0 <= k < m.len() ==> m[k] != ' ') && (forall|k: int| 0 <= k < p.len() ==> p[k] != ' ')
            && (forall|k: int| 0 <= k < r.len() ==> r[k] != ' ') && m[0] != '"' && m[0] != '['
            && p[0] != '"' && p[0] != '[' && r[0] != '"' && r[0] != '[',
        _ => true,
    }
}

proof fn lemma_find_char_exact(s: Seq<char>, i: int, t: char, j: int)
    requires
        0 <= i <= j <= s.len(),
        forall|k: int| i <= k < j ==> s[k] != t,
        j < s.len() ==> s[j] == t,
    ensures
        find_char(s, i, t) == j,
    decreases j - i,
{
    if i < j {
        lemma_find_char_exact(s, i + 1, t, j);
    }
}

/// Splitting the joined request line recovers its three parts.
proof fn lemma_split_join3(m: Seq<char>, p: Seq<char>, r: Seq<char>)
    requires
        vm_json_safe(Vm::HttpRequest(m, p, r)),
    ensures
        spec_fields(spec_join_req(m, p, r), 0) == Some(seq![m, p, r]),
{
    let j = spec_join_req(m, p, r);
    let lm = m.len() as int;
    let lp = p.len() as int;
    let lr = r.len() as int;
    assert(j.len() == lm + lp + lr + 2);
    assert(forall|k: int| 0 <= k < lm ==> j[k] == m[k]);
    assert(j[lm] == ' ');
    assert(forall|k: int| 0 <= k < lp ==> j[lm + 1 + k] == p[k]);
    assert(j[lm + 1 + lp] == ' ');
    assert(forall|k: int| 0 <= k < lr ==> j[lm + lp + 2 + k] == r[k]);
    lemma_find_char_exact(j, 0, ' ', lm);
    assert(j.subrange(0, lm) =~= m);
    assert(spec_fields(j, 0) == crate::schema::cons_field(m, spec_fields(j, lm)));
    assert(spec_fields(j, lm) == spec_fields(j, lm + 1));
    lemma_find_char_exact(j, lm + 1, ' ', lm + 1 + lp);
    assert(j.subrange(lm + 1, lm + 1 + lp) =~= p);
    assert(spec_fields(j, lm + 1) == crate::schema::cons_field(p, spec_fields(j, lm + 1 + lp)));
    assert(spec_fields(j, lm + 1 + lp) == spec_fields(j, lm + 2 + lp));
    lemma_find_char_exact(j, lm + 2 + lp, ' ', j.len() as int);
    assert(j.subrange(lm + 2 + lp, j.len() as int) =~= r);
    assert(spec_fields(j, lm + 2 + lp) == crate::schema::cons_field(
        r,
        spec_fields(j, j.len() as int),
    ));
    assert(spec_fields(j, j.len() as int) == Some(Seq::<Seq<char>>::empty()));
    assert(seq![m] + (seq![p] + (seq![r] + Seq::<Seq<char>>::empty())) =~= seq![m, p, r]);
}

/// Round trip: encoding a value to its JSON shape and decoding back at the
/// value's own kind restores it exactly — numbers, strings, booleans stay
/// equal and `Null` stays `Null`.
pub proof fn lemma_value_round_trip(v: Vm, kind: ValueKind)
    requires
        vm_json_safe(v),
        spec_kind_of(v) == Some(kind) || v == Vm::Null,
    ensures
        spec_decode_value(spec_encode_value(v), kind) == Some(v),
{
    match v {
        Vm::HttpRequest(m, p, r) => {
            lemma_split_join3(m, p, r);
            assert(seq![m, p, r][0] == m && seq![m, p, r][1] == p && seq![m, p, r][2] == r);
        },
        _ => {},
    }
}

} // verus!

verus! {

/// The JSON encoding of one record: its (name, value) pairs in projection
/// order, each value encoded.
pub open spec fn spec_encode_record(names: Seq<Seq<char>>, vals: Seq<Vm>) -> Seq<
    (Seq<char>, JvM),
> {
    Seq::new(vals.len(), |k: int| (names[k], spec_encode_value(vals[k])))
}

/// Encode one record for the JSON renderer.
pub fn encode_record(rec: &crate::execution::Record) -> (r: Vec<(String, Jv)>)
    requires
        rec.wf(),
    ensures
        r@.map_values(|p: (String, Jv)| (p.0@, p.1@)) == spec_encode_record(
            strs_view(rec.columns),
            crate::values::vals_view(rec.values),
        ),
{
    let mut r: Vec<(String, Jv)> = Vec::new();
    let mut i: usize = 0;
    while i < rec.values.len()
        invariant
            rec.wf(),
            i <= rec.values.len(),
            r.len() == i,
            forall|k: int|
                0 <= k < i ==> #[trigger] r@[k].0@ == rec.columns@[k]@ && r@[k].1@
                    == spec_encode_value(rec.values@[k]@),
        decreases rec.values.len() - i,
    {
        r.push((rec.columns[i].clone(), encode_value(&rec.values[i])));
        i = i + 1;
    }
    proof {
        assert(r@.map_values(|p: (String, Jv)| (p.0@, p.1@)) =~= spec_encode_record(
            strs_view(rec.columns),
            crate::values::vals_view(rec.values),
        ));
    }
    r
}

/// Round trip at the record level: decoding each encoded pair at its
/// column's kind restores every value.
pub proof fn lemma_record_round_trip(
    names: Seq<Seq<char>>,
    vals: Seq<Vm>,
    kinds: Seq<ValueKind>,
)
    requires
        vals.len() == kinds.len(),
        forall|k: int|
            0 <= k < vals.len() ==> vm_json_safe(#[trigger] vals[k]) && (spec_kind_of(vals[k])
                == Some(kinds[k]) || vals[k] == Vm::Null),
    ensures
        forall|k: int|
            0 <= k < vals.len() ==> spec_decode_value(
                #[trigger] spec_encode_record(names, vals)[k].1,
                kinds[k],
            ) == Some(vals[k]),
{
    assert forall|k: int| 0 <= k < vals.len() implies spec_decode_value(
        #[trigger] spec_encode_record(names, vals)[k].1,
        kinds[k],
    ) == Some(vals[k]) by {
        lemma_value_round_trip(vals[k], kinds[k]);
    }
}

} // verus!
