//! Per-format log schemas and line decoders. A schema is the ordered list of
//! (column name, value kind) for one supported log format; the decoder
//! splits a raw line into fields (plain, double-quoted, or bracketed) and
//! parses each field at its column's declared kind. A field that is exactly
//! `-` decodes to `Null`, as log writers use it for a missing value.

use vstd::prelude::*;

use crate::text::{
    ch_is_digit, digits_end, digits_num, find_char, is_digit, lemma_digits_end,
    lemma_digits_num_bound, lemma_find_char, lemma_frac_scale, lemma_pow10_add, lemma_pow10_le,
    parse_digits, pow10, pow10_small, scan_digits_end, scan_find_char, str_eq,
};
use crate::values::{vals_view, HttpReq, Value, ValueKind, Vm};

verus! {

/// A supported log format.
#[derive(Clone, Copy, Debug, PartialEq, Eq, Structural)]
pub enum Format {
    Elb,
    Alb,
    Squid,
    S3,
}

/// The format a table identifier names, if any. Exactly `elb`, `alb`,
/// `squid` and `s3` are accepted, case-sensitively.
pub open spec fn spec_format_of(name: Seq<char>) -> Option<Format> {
    if name == "elb"@ {
        Some(Format::Elb)
    } else if name == "alb"@ {
        Some(Format::Alb)
    } else if name == "squid"@ {
        Some(Format::Squid)
    } else if name == "s3"@ {
        Some(Format::S3)
    } else {
        None
    }
}

pub fn format_of(name: &str) -> (r: Option<Format>)
    ensures
        r == spec_format_of(name@),
{
    if str_eq(name, "elb") {
        Some(Format::Elb)
    } else if str_eq(name, "alb") {
        Some(Format::Alb)
    } else if str_eq(name, "squid") {
        Some(Format::Squid)
    } else if str_eq(name, "s3") {
        Some(Format::S3)
    } else {
        None
    }
}

/// One schema column: its output name and the kind its raw field decodes to.
#[derive(Debug)]
pub struct Column {
    pub name: String,
    pub kind: ValueKind,
}

pub open spec fn cols_view(v: Vec<Column>) -> Seq<(Seq<char>, ValueKind)> {
    v@.map_values(|c: Column| (c.name@, c.kind))
}

/// The classic load-balancer access-log schema.
pub open spec fn spec_schema_elb() -> Seq<(Seq<char>, ValueKind)> {
    seq![
        ("timestamp"@, ValueKind::DateTime),
        ("elb"@, ValueKind::Str),
        ("client_and_port"@, ValueKind::Host),
        ("backend_and_port"@, ValueKind::Host),
        ("request_processing_time"@, ValueKind::Float),
        ("backend_processing_time"@, ValueKind::Float),
        ("response_processing_time"@, ValueKind::Float),
        ("elb_status_code"@, ValueKind::Int),
        ("backend_status_code"@, ValueKind::Int),
        ("received_bytes"@, ValueKind::Int),
        ("sent_bytes"@, ValueKind::Int),
        ("request"@, ValueKind::HttpRequest),
        ("user_agent"@, ValueKind::Str),
        ("ssl_cipher"@, ValueKind::Str),
        ("ssl_protocol"@, ValueKind::Str),
    ]
}

/// The application load-balancer access-log schema.
pub open spec fn spec_schema_alb() -> Seq<(Seq<char>, ValueKind)> {
    seq![
        ("type"@, ValueKind::Str),
        ("timestamp"@, ValueKind::DateTime),
        ("elb"@, ValueKind::Str),
        ("client_and_port"@, ValueKind::Host),
        ("target_and_port"@, ValueKind::Host),
        ("request_processing_time"@, ValueKind::Float),
        ("target_processing_time"@, ValueKind::Float),
        ("response_processing_time"@, ValueKind::Float),
        ("elb_status_code"@, ValueKind::Int),
        ("target_status_code"@, ValueKind::Int),
        ("received_bytes"@, ValueKind::Int),
        ("sent_bytes"@, ValueKind::Int),
        ("request"@, ValueKind::HttpRequest),
        ("user_agent"@, ValueKind::Str),
        ("ssl_cipher"@, ValueKind::Str),
        ("ssl_protocol"@, ValueKind::Str),
    ]
}

/// The squid native access-log schema.
pub open spec fn spec_schema_squid() -> Seq<(Seq<char>, ValueKind)> {
    seq![
        ("timestamp"@, ValueKind::Float),
        ("duration"@, ValueKind::Int),
        ("client"@, ValueKind::Host),
        ("result_code"@, ValueKind::Str),
        ("bytes"@, ValueKind::Int),
        ("method"@, ValueKind::Str),
        ("url"@, ValueKind::Str),
        ("user"@, ValueKind::Str),
        ("hierarchy"@, ValueKind::Str),
        ("content_type"@, ValueKind::Str),
    ]
}

/// The S3 server-access-log schema.
pub open spec fn spec_schema_s3() -> Seq<(Seq<char>, ValueKind)> {
    seq![
        ("bucket_owner"@, ValueKind::Str),
        ("bucket"@, ValueKind::Str),
        ("time"@, ValueKind::DateTime),
        ("remote_ip"@, ValueKind::Host),
        ("requester"@, ValueKind::Str),
        ("request_id"@, ValueKind::Str),
        ("operation"@, ValueKind::Str),
        ("key"@, ValueKind::Str),
        ("request_uri"@, ValueKind::HttpRequest),
        ("http_status"@, ValueKind::Int),
        ("error_code"@, ValueKind::Str),
        ("bytes_sent"@, ValueKind::Int),
    ]
}

/// The schema of one format: its declared column order.
pub open spec fn spec_schema(fmt: Format) -> Seq<(Seq<char>, ValueKind)> {
    match fmt {
        Format::Elb => spec_schema_elb(),
        Format::Alb => spec_schema_alb(),
        Format::Squid => spec_schema_squid(),
        Format::S3 => spec_schema_s3(),
    }
}

fn col(name: &str, kind: ValueKind) -> (c: Column)
    ensures
        c.name@ == name@,
        c.kind == kind,
{
    Column { name: name.to_owned(), kind }
}

/// Build the schema's column table.
pub fn schema_columns(fmt: Format) -> (r: Vec<Column>)
    ensures
        cols_view(r) == spec_schema(fmt),
{
    let mut v: Vec<Column> = Vec::new();
    match fmt {
        Format::Elb => {
            v.push(col("timestamp", ValueKind::DateTime));
            v.push(col("elb", ValueKind::Str));
            v.push(col("client_and_port", ValueKind::Host));
            v.push(col("backend_and_port", ValueKind::Host));
            v.push(col("request_processing_time", ValueKind::Float));
            v.push(col("backend_processing_time", ValueKind::Float));
            v.push(col("response_processing_time", ValueKind::Float));
            v.push(col("elb_status_code", ValueKind::Int));
            v.push(col("backend_status_code", ValueKind::Int));
            v.push(col("received_bytes", ValueKind::Int));
            v.push(col("sent_bytes", ValueKind::Int));
            v.push(col("request", ValueKind::HttpRequest));
            v.push(col("user_agent", ValueKind::Str));
            v.push(col("ssl_cipher", ValueKind::Str));
            v.push(col("ssl_protocol", ValueKind::Str));
            proof {
                assert(cols_view(v) =~= spec_schema_elb());
            }
        },
        Format::Alb => {
            v.push(col("type", ValueKind::Str));
            v.push(col("timestamp", ValueKind::DateTime));
            v.push(col("elb", ValueKind::Str));
            v.push(col("client_and_port", ValueKind::Host));
            v.push(col("target_and_port", ValueKind::Host));
            v.push(col("request_processing_time", ValueKind::Float));
            v.push(col("target_processing_time", ValueKind::Float));
            v.push(col("response_processing_time", ValueKind::Float));
            v.push(col("elb_status_code", ValueKind::Int));
            v.push(col("target_status_code", ValueKind::Int));
            v.push(col("received_bytes", ValueKind::Int));
            v.push(col("sent_bytes", ValueKind::Int));
            v.push(col("request", ValueKind::HttpRequest));
            v.push(col("user_agent", ValueKind::Str));
            v.push(col("ssl_cipher", ValueKind::Str));
            v.push(col("ssl_protocol", ValueKind::Str));
            proof {
                assert(cols_view(v) =~= spec_schema_alb());
            }
        },
        Format::Squid => {
            v.push(col("timestamp", ValueKind::Float));
            v.push(col("duration", ValueKind::Int));
            v.push(col("client", ValueKind::Host));
            v.push(col("result_code", ValueKind::Str));
            v.push(col("bytes", ValueKind::Int));
            v.push(col("method", ValueKind::Str));
            v.push(col("url", ValueKind::Str));
            v.push(col("user", ValueKind::Str));
            v.push(col("hierarchy", ValueKind::Str));
            v.push(col("content_type", ValueKind::Str));
            proof {
                assert(cols_view(v) =~= spec_schema_squid());
            }
        },
        Format::S3 => {
            v.push(col("bucket_owner", ValueKind::Str));
            v.push(col("bucket", ValueKind::Str));
            v.push(col("time", ValueKind::DateTime));
            v.push(col("remote_ip", ValueKind::Host));
            v.push(col("requester", ValueKind::Str));
            v.push(col("request_id", ValueKind::Str));
            v.push(col("operation", ValueKind::Str));
            v.push(col("key", ValueKind::Str));
            v.push(col("request_uri", ValueKind::HttpRequest));
            v.push(col("http_status", ValueKind::Int));
            v.push(col("error_code", ValueKind::Str));
            v.push(col("bytes_sent", ValueKind::Int));
            proof {
                assert(cols_view(v) =~= spec_schema_s3());
            }
        },
    }
    v
}

/// First schema column with the given name, searched from `i`.
pub open spec fn spec_resolve_from(
    sch: Seq<(Seq<char>, ValueKind)>,
    name: Seq<char>,
    i: int,
) -> Option<int>
    decreases sch.len() - i,
    when 0 <= i <= sch.len()
{
    if i >= sch.len() {
        None
    } else if sch[i].0 == name {
        Some(i)
    } else {
        spec_resolve_from(sch, name, i + 1)
    }
}

/// First schema column with the given name.
pub open spec fn spec_resolve(fmt: Format, name: Seq<char>) -> Option<int> {
    spec_resolve_from(spec_schema(fmt), name, 0)
}

/// Look a column name up in the schema's column table.
pub fn resolve_col(cols: &Vec<Column>, name: &str) -> (r: Option<usize>)
    ensures
        match r {
            Some(i) => spec_resolve_from(cols_view(*cols), name@, 0) == Some(i as int) && i
                < cols.len(),
            None => spec_resolve_from(cols_view(*cols), name@, 0).is_none(),
        },
{
    let mut i: usize = 0;
    while i < cols.len()
        invariant
            i <= cols.len(),
            spec_resolve_from(cols_view(*cols), name@, 0) == spec_resolve_from(
                cols_view(*cols),
                name@,
                i as int,
            ),
        decreases cols.len() - i,
    {
        if str_eq(cols[i].name.as_str(), name) {
            return Some(i);
        }
        i = i + 1;
    }
    None
}

} // verus!

verus! {

/// Why one raw log line failed to decode.
#[derive(Debug)]
pub enum DecodeError {
    /// An opening quote or bracket was never closed.
    Unterminated,
    WrongFieldCount { found: usize, expected: usize },
    BadField { index: usize },
}

/// Mathematical model of a decode failure.
pub enum DecErrM {
    Unterminated,
    WrongFieldCount { found: int, expected: int },
    BadField { index: int },
}

impl View for DecodeError {
    type V = DecErrM;

    open spec fn view(&self) -> DecErrM {
        match self {
            DecodeError::Unterminated => DecErrM::Unterminated,
            DecodeError::WrongFieldCount { found, expected } => DecErrM::WrongFieldCount {
                found: *found as int,
                expected: *expected as int,
            },
            DecodeError::BadField { index } => DecErrM::BadField { index: *index as int },
        }
    }
}

pub open spec fn strs_view(v: Vec<String>) -> Seq<Seq<char>> {
    v@.map_values(|s: String| s@)
}

/// Prepend a field to the rest of the split.
pub open spec fn cons_field(f: Seq<char>, rest: Option<Seq<Seq<char>>>) -> Option<
    Seq<Seq<char>>,
> {
    match rest {
        Some(fs) => Some(seq![f] + fs),
        None => None,
    }
}

/// Split a raw line into fields: runs of non-space characters, with
/// double-quoted and square-bracketed segments kept whole (delimiters
/// stripped). `None` when a quote or bracket is never closed.
pub open spec fn spec_fields(s: Seq<char>, i: int) -> Option<Seq<Seq<char>>>
    decreases s.len() - i,
    when 0 <= i <= s.len()
    via spec_fields_dec
{
    if i >= s.len() {
        Some(Seq::empty())
    } else if s[i] == ' ' {
        spec_fields(s, i + 1)
    } else if s[i] == '"' {
        let j = find_char(s, i + 1, '"');
        if j >= s.len() {
            None
        } else {
            cons_field(s.subrange(i + 1, j), spec_fields(s, j + 1))
        }
    } else if s[i] == '[' {
        let j = find_char(s, i + 1, ']');
        if j >= s.len() {
            None
        } else {
            cons_field(s.subrange(i + 1, j), spec_fields(s, j + 1))
        }
    } else {
        let j = find_char(s, i, ' ');
        cons_field(s.subrange(i, j), spec_fields(s, j))
    }
}

#[via_fn]
proof fn spec_fields_dec(s: Seq<char>, i: int) {
    if 0 <= i < s.len() {
        lemma_find_char(s, i + 1, '"');
        lemma_find_char(s, i + 1, ']');
        lemma_find_char(s, i, ' ');
        if s[i] != ' ' {
            assert(find_char(s, i, ' ') == find_char(s, i + 1, ' '));
            lemma_find_char(s, i + 1, ' ');
        }
    }
}

/// Split a line into its raw fields.
fn split_from(s: &str, i: usize, n: usize) -> (r: Option<Vec<String>>)
    requires
        n == s@.len(),
        i <= n,
    ensures
        match r {
            Some(v) => spec_fields(s@, i as int) == Some(strs_view(v)),
            None => spec_fields(s@, i as int).is_none(),
        },
    decreases n - i,
{
    if i >= n {
        let v: Vec<String> = Vec::new();
        proof {
            assert(strs_view(v) =~= Seq::<Seq<char>>::empty());
        }
        return Some(v);
    }
    let c = s.get_char(i);
    if c == ' ' {
        split_from(s, i + 1, n)
    } else if c == '"' {
        let j = scan_find_char(s, i + 1, n, '"');
        proof {
            lemma_find_char(s@, i + 1, '"');
        }
        if j >= n {
            None
        } else {
            let f = s.substring_char(i + 1, j).to_owned();
            match split_from(s, j + 1, n) {
                Some(v) => {
                    let ghost oldv = v;
                    let mut v = v;
                    v.insert(0, f);
                    proof {
                        assert(strs_view(v) =~= seq![s@.subrange(i + 1, j as int)] + strs_view(
                            oldv,
                        ));
                    }
                    Some(v)
                },
                None => None,
            }
        }
    } else if c == '[' {
        let j = scan_find_char(s, i + 1, n, ']');
        proof {
            lemma_find_char(s@, i + 1, ']');
        }
        if j >= n {
            None
        } else {
            let f = s.substring_char(i + 1, j).to_owned();
            match split_from(s, j + 1, n) {
                Some(v) => {
                    let ghost oldv = v;
                    let mut v = v;
                    v.insert(0, f);
                    proof {
                        assert(strs_view(v) =~= seq![s@.subrange(i + 1, j as int)] + strs_view(
                            oldv,
                        ));
                    }
                    Some(v)
                },
                None => None,
            }
        }
    } else {
        let j = scan_find_char(s, i, n, ' ');
        proof {
            lemma_find_char(s@, i as int, ' ');
            assert(find_char(s@, i as int, ' ') == find_char(s@, i + 1, ' '));
            lemma_find_char(s@, i + 1, ' ');
        }
        let f = s.substring_char(i, j).to_owned();
        match split_from(s, j, n) {
            Some(v) => {
                let ghost oldv = v;
                let mut v = v;
                v.insert(0, f);
                proof {
                    assert(strs_view(v) =~= seq![s@.subrange(i as int, j as int)] + strs_view(
                        oldv,
                    ));
                }
                Some(v)
            },
            None => None,
        }
    }
}

/// Split a whole line into its raw fields.
pub fn split_fields(s: &str) -> (r: Option<Vec<String>>)
    ensures
        match r {
            Some(v) => spec_fields(s@, 0) == Some(strs_view(v)),
            None => spec_fields(s@, 0).is_none(),
        },
{
    let n = s.unicode_len();
    split_from(s, 0, n)
}

/// A signed decimal integer field, at most eighteen digits.
pub open spec fn spec_field_int(f: Seq<char>) -> Option<int> {
    let d: int = if f.len() > 0 && f[0] == '-' {
        1
    } else {
        0
    };
    if f.len() == d {
        None
    } else if digits_end(f, d) != f.len() {
        None
    } else if f.len() - d > 18 {
        None
    } else {
        let m = digits_num(f, d, f.len() as int);
        Some(
            if d == 1 {
                -m
            } else {
                m
            },
        )
    }
}

/// A signed fixed-point field: digits with an optional fraction of at most
/// six places, valued in millionths.
pub open spec fn spec_field_float(f: Seq<char>) -> Option<int> {
    let d: int = if f.len() > 0 && f[0] == '-' {
        1
    } else {
        0
    };
    let j = digits_end(f, d);
    if j == d {
        None
    } else if j - d > 12 {
        None
    } else if j == f.len() {
        let m = digits_num(f, d, j) * 1000000;
        Some(
            if d == 1 {
                -m
            } else {
                m
            },
        )
    } else if f[j] == '.' {
        let k = digits_end(f, j + 1);
        if k != f.len() || k == j + 1 || k - (j + 1) > 6 {
            None
        } else {
            let m = digits_num(f, d, j) * 1000000 + digits_num(f, j + 1, k) * pow10(
                (6 - (k - (j + 1))) as nat,
            );
            Some(
                if d == 1 {
                    -m
                } else {
                    m
                },
            )
        }
    } else {
        None
    }
}

/// The value one raw field decodes to at a column's kind, if it is
/// well-formed there. A field of exactly `-` is `Null` at every kind.
pub open spec fn spec_decode_field(kind: ValueKind, f: Seq<char>) -> Option<Vm> {
    if f == seq!['-'] {
        Some(Vm::Null)
    } else {
        match kind {
            ValueKind::Str => Some(Vm::Str(f)),
            ValueKind::Bool => if f == "true"@ {
                Some(Vm::Boolean(true))
            } else if f == "false"@ {
                Some(Vm::Boolean(false))
            } else {
                None
            },
            ValueKind::Int => match spec_field_int(f) {
                Some(m) => Some(Vm::Int(m)),
                None => None,
            },
            ValueKind::Float => match spec_field_float(f) {
                Some(m) => Some(Vm::Float(m)),
                None => None,
            },
            ValueKind::DateTime => if f.len() > 0 && is_digit(f[0]) {
                Some(Vm::DateTime(f))
            } else {
                None
            },
            ValueKind::Host => if f.len() > 0 {
                Some(Vm::Host(f))
            } else {
                None
            },
            ValueKind::HttpRequest => match spec_fields(f, 0) {
                Some(parts) => if parts.len() == 3 && parts[0].len() > 0 && parts[1].len() > 0
                    && parts[2].len() > 0 {
                    Some(Vm::HttpRequest(parts[0], parts[1], parts[2]))
                } else {
                    None
                },
                None => None,
            },
        }
    }
}

} // verus!

verus! {

/// Parse a signed decimal integer field.
fn field_int(f: &str) -> (r: Option<i64>)
    ensures
        match r {
            Some(v) => spec_field_int(f@) == Some(v as int),
            None => spec_field_int(f@).is_none(),
        },
{
    let n = f.unicode_len();
    let d: usize = if n > 0 && f.get_char(0) == '-' {
        1
    } else {
        0
    };
    if n == d {
        return None;
    }
    let j = scan_digits_end(f, d, n);
    if j != n {
        return None;
    }
    if n - d > 18 {
        return None;
    }
    proof {
        lemma_digits_end(f@, d as int);
    }
    let m = parse_digits(f, d, n, n);
    let v: i64 = m as i64;
    if d == 1 {
        Some(-v)
    } else {
        Some(v)
    }
}

/// Parse a signed fixed-point field into millionths.
fn field_float(f: &str) -> (r: Option<i64>)
    ensures
        match r {
            Some(v) => spec_field_float(f@) == Some(v as int),
            None => spec_field_float(f@).is_none(),
        },
{
    let n = f.unicode_len();
    let d: usize = if n > 0 && f.get_char(0) == '-' {
        1
    } else {
        0
    };
    let j = scan_digits_end(f, d, n);
    proof {
        lemma_digits_end(f@, d as int);
    }
    if j == d {
        return None;
    }
    if j - d > 12 {
        return None;
    }
    proof {
        lemma_digits_num_bound(f@, d as int, j as int);
        lemma_pow10_le((j - d) as nat, 12);
        assert(pow10(12) == 1000000000000) by {
            reveal_with_fuel(pow10, 13);
        }
    }
    if j == n {
        let ip = parse_digits(f, d, j, n);
        let total: u64 = ip * 1000000;
        let v: i64 = total as i64;
        if d == 1 {
            return Some(-v);
        } else {
            return Some(v);
        }
    }
    if f.get_char(j) == '.' {
        let k = scan_digits_end(f, j + 1, n);
        proof {
            lemma_digits_end(f@, j + 1);
        }
        if k != n || k == j + 1 || k - (j + 1) > 6 {
            return None;
        }
        let ip = parse_digits(f, d, j, n);
        let fv = parse_digits(f, j + 1, k, n);
        let flen: usize = k - (j + 1);
        let p: u64 = pow10_small(6 - flen);
        proof {
            lemma_digits_num_bound(f@, j + 1, k as int);
            lemma_frac_scale(fv as int, flen as nat);
        }
        let total: u64 = ip * 1000000 + fv * p;
        let v: i64 = total as i64;
        if d == 1 {
            Some(-v)
        } else {
            Some(v)
        }
    } else {
        None
    }
}

/// Decode one raw field at a column's kind.
pub fn decode_field(kind: ValueKind, f: &str) -> (r: Option<Value>)
    ensures
        match r {
            Some(v) => spec_decode_field(kind, f@) == Some(v@),
            None => spec_decode_field(kind, f@).is_none(),
        },
{
    let n = f.unicode_len();
    if n == 1 && f.get_char(0) == '-' {
        proof {
            assert(f@ =~= seq!['-']);
        }
        return Some(Value::Null);
    }
    proof {
        assert(f@ != seq!['-']) by {
            if f@ == seq!['-'] {
                assert(f@.len() == 1 && f@[0] == '-');
            }
        }
    }
    match kind {
        ValueKind::Str => Some(Value::Str(f.to_owned())),
        ValueKind::Bool => {
            if str_eq(f, "true") {
                Some(Value::Boolean(true))
            } else if str_eq(f, "false") {
                Some(Value::Boolean(false))
            } else {
                None
            }
        },
        ValueKind::Int => match field_int(f) {
            Some(v) => Some(Value::Int(v)),
            None => None,
        },
        ValueKind::Float => match field_float(f) {
            Some(v) => Some(Value::Float(v)),
            None => None,
        },
        ValueKind::DateTime => {
            if n > 0 && ch_is_digit(f.get_char(0)) {
                Some(Value::DateTime(f.to_owned()))
            } else {
                None
            }
        },
        ValueKind::Host => {
            if n > 0 {
                Some(Value::Host(f.to_owned()))
            } else {
                None
            }
        },
        ValueKind::HttpRequest => match split_fields(f) {
            Some(parts) => {
                if parts.len() == 3 && !parts[0].as_str().is_empty() && !parts[1].as_str().is_empty()
                    && !parts[2].as_str().is_empty() {
                    Some(
                        Value::HttpRequest(
                            HttpReq {
                                method: parts[0].clone(),
                                path: parts[1].clone(),
                                protocol: parts[2].clone(),
                            },
                        ),
                    )
                } else {
                    None
                }
            },
            None => None,
        },
    }
}

/// Decode the fields from column `i` on.
pub open spec fn spec_decode_cols(
    sch: Seq<(Seq<char>, ValueKind)>,
    fs: Seq<Seq<char>>,
    i: int,
) -> Result<Seq<Vm>, DecErrM>
    decreases sch.len() - i,
    when 0 <= i <= sch.len()
{
    if i >= sch.len() {
        Ok(Seq::empty())
    } else {
        match spec_decode_field(sch[i].1, fs[i]) {
            None => Err(DecErrM::BadField { index: i }),
            Some(v) => match spec_decode_cols(sch, fs, i + 1) {
                Ok(vs) => Ok(seq![v] + vs),
                Err(e) => Err(e),
            },
        }
    }
}

/// Decode one raw log line into a typed tuple, one value per schema column.
pub open spec fn spec_decode(fmt: Format, line: Seq<char>) -> Result<Seq<Vm>, DecErrM> {
    match spec_fields(line, 0) {
        None => Err(DecErrM::Unterminated),
        Some(fs) => if fs.len() != spec_schema(fmt).len() {
            Err(
                DecErrM::WrongFieldCount {
                    found: fs.len() as int,
                    expected: spec_schema(fmt).len() as int,
                },
            )
        } else {
            spec_decode_cols(spec_schema(fmt), fs, 0)
        },
    }
}

pub proof fn lemma_decode_cols_len(sch: Seq<(Seq<char>, ValueKind)>, fs: Seq<Seq<char>>, i: int)
    requires
        0 <= i <= sch.len(),
    ensures
        spec_decode_cols(sch, fs, i) matches Ok(vs) ==> vs.len() == sch.len() - i,
    decreases sch.len() - i,
{
    if i < sch.len() {
        lemma_decode_cols_len(sch, fs, i + 1);
    }
}

fn decode_cols(cols: &Vec<Column>, fs: &Vec<String>, i: usize) -> (r: Result<
    Vec<Value>,
    DecodeError,
>)
    requires
        cols.len() == fs.len(),
        i <= cols.len(),
    ensures
        match r {
            Ok(vs) => spec_decode_cols(cols_view(*cols), strs_view(*fs), i as int) == Ok::<
                Seq<Vm>,
                DecErrM,
            >(vals_view(vs)),
            Err(e) => spec_decode_cols(cols_view(*cols), strs_view(*fs), i as int) == Err::<
                Seq<Vm>,
                DecErrM,
            >(e@),
        },
    decreases cols.len() - i,
{
    if i >= cols.len() {
        let vs: Vec<Value> = Vec::new();
        proof {
            assert(vals_view(vs) =~= Seq::<Vm>::empty());
        }
        return Ok(vs);
    }
    match decode_field(cols[i].kind, fs[i].as_str()) {
        None => Err(DecodeError::BadField { index: i }),
        Some(v) => match decode_cols(cols, fs, i + 1) {
            Ok(vs) => {
                let ghost oldvs = vs;
                let ghost vm = v@;
                let mut vs = vs;
                vs.insert(0, v);
                proof {
                    assert(vals_view(vs) =~= seq![vm] + vals_view(oldvs));
                }
                Ok(vs)
            },
            Err(e) => Err(e),
        },
    }
}

/// Decode one raw log line against a format's column table.
pub fn decode_line(fmt: Format, cols: &Vec<Column>, line: &str) -> (r: Result<
    Vec<Value>,
    DecodeError,
>)
    requires
        cols_view(*cols) == spec_schema(fmt),
    ensures
        match r {
            Ok(vs) => spec_decode(fmt, line@) == Ok::<Seq<Vm>, DecErrM>(vals_view(vs)) && vs.len()
                == cols.len(),
            Err(e) => spec_decode(fmt, line@) == Err::<Seq<Vm>, DecErrM>(e@),
        },
{
    proof {
        assert(cols_view(*cols).len() == cols.len());
    }
    match split_fields(line) {
        None => Err(DecodeError::Unterminated),
        Some(fs) => {
            if fs.len() != cols.len() {
                return Err(DecodeError::WrongFieldCount { found: fs.len(), expected: cols.len() });
            }
            let r = decode_cols(cols, &fs, 0);
            proof {
                lemma_decode_cols_len(cols_view(*cols), strs_view(fs), 0);
            }
            r
        },
    }
}

} // verus!
