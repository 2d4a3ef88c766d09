//! The syntax layer: tokenizing a query string and parsing it into a
//! `SelectStatement`. The grammar is
//! `SELECT <cols>|* FROM <table> [WHERE <bool_expr>] [LIMIT <n>]`, with
//! comparisons `column <op> literal`, `AND` binding tighter than `OR`, and
//! parenthesized grouping. Keywords are upper-case; string literals use
//! double quotes without escapes; numbers have at most eighteen digits, and
//! at most twelve before with at most six after the decimal point.
//!
//! Every function is stated against a spec-level mirror, so the result of
//! parsing is a mathematical function of the query text.

use vstd::prelude::*;

use crate::text::{
    ch_is_alpha, ch_is_digit, ch_is_space, digits_end, digits_num, find_char, is_alpha, is_digit,
    is_space, lemma_digits_end, lemma_digits_num_bound, lemma_find_char, lemma_pow10_add,
    lemma_pow10_le, lemma_word_end, parse_digits, pow10, pow10_small, scan_digits_end,
    scan_find_char, scan_word_end, str_eq, word_end,
};
use crate::values::{Value, Vm};

verus! {

/// A comparison operator of the query language.
#[derive(Clone, Copy, Debug, PartialEq, Eq, Structural)]
pub enum CmpOp {
    Eq,
    Ne,
    Lt,
    Le,
    Gt,
    Ge,
}

/// A token, with literal payloads carried as `Value`s.
#[derive(Debug)]
pub enum Tok {
    Select,
    From,
    Where,
    Limit,
    And,
    Or,
    Star,
    Comma,
    LParen,
    RParen,
    Op(CmpOp),
    Ident(String),
    Lit(Value),
}

/// Mathematical model of a token.
pub enum TokM {
    Select,
    From,
    Where,
    Limit,
    And,
    Or,
    Star,
    Comma,
    LParen,
    RParen,
    Op(CmpOp),
    Ident(Seq<char>),
    Lit(Vm),
}

impl View for Tok {
    type V = TokM;

    open spec fn view(&self) -> TokM {
        match self {
            Tok::Select => TokM::Select,
            Tok::From => TokM::From,
            Tok::Where => TokM::Where,
            Tok::Limit => TokM::Limit,
            Tok::And => TokM::And,
            Tok::Or => TokM::Or,
            Tok::Star => TokM::Star,
            Tok::Comma => TokM::Comma,
            Tok::LParen => TokM::LParen,
            Tok::RParen => TokM::RParen,
            Tok::Op(op) => TokM::Op(*op),
            Tok::Ident(w) => TokM::Ident(w@),
            Tok::Lit(v) => TokM::Lit(v@),
        }
    }
}

/// A syntax failure: the character position it arose at, and every
/// alternative that was expected there, for the diagnostic echoed back to
/// the operator.
#[derive(Debug)]
pub struct SyntaxError {
    pub pos: usize,
    pub expected: Vec<String>,
}

/// Mathematical model of a syntax failure.
pub struct SynErrM {
    pub pos: int,
    pub expected: Seq<Seq<char>>,
}

impl View for SyntaxError {
    type V = SynErrM;

    open spec fn view(&self) -> SynErrM {
        SynErrM { pos: self.pos as int, expected: self.expected@.map_values(|s: String| s@) }
    }
}

pub open spec fn toks_view(v: Vec<(Tok, usize)>) -> Seq<(TokM, int)> {
    v@.map_values(|p: (Tok, usize)| (p.0@, p.1 as int))
}

/// Prepend a token to the result of tokenizing the rest.
pub open spec fn cons_tok(t: TokM, p: int, rest: Result<Seq<(TokM, int)>, SynErrM>) -> Result<
    Seq<(TokM, int)>,
    SynErrM,
> {
    match rest {
        Ok(ts) => Ok(seq![(t, p)] + ts),
        Err(e) => Err(e),
    }
}

/// The token written by a digit run starting at `d` (with sign `neg`), and
/// the position scanning continues at.
pub open spec fn spec_number(s: Seq<char>, d: int, neg: bool) -> Result<(TokM, int), SynErrM> {
    let j = digits_end(s, d);
    if j - d > 18 {
        Err(SynErrM { pos: d, expected: seq!["a number of at most eighteen digits"@] })
    } else if j < s.len() && s[j] == '.' {
        let k = digits_end(s, j + 1);
        if k == j + 1 {
            Err(SynErrM { pos: j + 1, expected: seq!["a digit after the decimal point"@] })
        } else if k - (j + 1) > 6 {
            Err(SynErrM { pos: j + 1, expected: seq!["at most six decimal places"@] })
        } else if j - d > 12 {
            Err(
                SynErrM {
                    pos: d,
                    expected: seq!["at most twelve digits before the decimal point"@],
                },
            )
        } else {
            let m = digits_num(s, d, j) * 1000000 + digits_num(s, j + 1, k) * pow10(
                (6 - (k - (j + 1))) as nat,
            );
            Ok((TokM::Lit(Vm::Float(if neg { -m } else { m })), k))
        }
    } else {
        let m = digits_num(s, d, j);
        Ok((TokM::Lit(Vm::Int(if neg { -m } else { m })), j))
    }
}

/// The keyword or identifier token for the word `w`.
pub open spec fn spec_word_tok(w: Seq<char>) -> TokM {
    if w == "SELECT"@ {
        TokM::Select
    } else if w == "FROM"@ {
        TokM::From
    } else if w == "WHERE"@ {
        TokM::Where
    } else if w == "LIMIT"@ {
        TokM::Limit
    } else if w == "AND"@ {
        TokM::And
    } else if w == "OR"@ {
        TokM::Or
    } else if w == "NULL"@ {
        TokM::Lit(Vm::Null)
    } else if w == "true"@ {
        TokM::Lit(Vm::Boolean(true))
    } else if w == "false"@ {
        TokM::Lit(Vm::Boolean(false))
    } else {
        TokM::Ident(w)
    }
}

/// Tokenization of `s` from position `i` on.
pub open spec fn spec_tokenize(s: Seq<char>, i: int) -> Result<Seq<(TokM, int)>, SynErrM>
    decreases s.len() - i,
    when 0 <= i <= s.len()
    via spec_tokenize_dec
{
    if i >= s.len() {
        Ok(Seq::empty())
    } else if is_space(s[i]) {
        spec_tokenize(s, i + 1)
    } else if s[i] == '*' {
        cons_tok(TokM::Star, i, spec_tokenize(s, i + 1))
    } else if s[i] == ',' {
        cons_tok(TokM::Comma, i, spec_tokenize(s, i + 1))
    } else if s[i] == '(' {
        cons_tok(TokM::LParen, i, spec_tokenize(s, i + 1))
    } else if s[i] == ')' {
        cons_tok(TokM::RParen, i, spec_tokenize(s, i + 1))
    } else if s[i] == '=' {
        cons_tok(TokM::Op(CmpOp::Eq), i, spec_tokenize(s, i + 1))
    } else if s[i] == '!' {
        if i + 1 < s.len() && s[i + 1] == '=' {
            cons_tok(TokM::Op(CmpOp::Ne), i, spec_tokenize(s, i + 2))
        } else {
            Err(SynErrM { pos: i, expected: seq!["'=' after '!'"@] })
        }
    } else if s[i] == '<' {
        if i + 1 < s.len() && s[i + 1] == '=' {
            cons_tok(TokM::Op(CmpOp::Le), i, spec_tokenize(s, i + 2))
        } else {
            cons_tok(TokM::Op(CmpOp::Lt), i, spec_tokenize(s, i + 1))
        }
    } else if s[i] == '>' {
        if i + 1 < s.len() && s[i + 1] == '=' {
            cons_tok(TokM::Op(CmpOp::Ge), i, spec_tokenize(s, i + 2))
        } else {
            cons_tok(TokM::Op(CmpOp::Gt), i, spec_tokenize(s, i + 1))
        }
    } else if s[i] == '"' {
        let j = find_char(s, i + 1, '"');
        if j >= s.len() {
            Err(SynErrM { pos: i, expected: seq!["a closing '\"'"@] })
        } else {
            cons_tok(TokM::Lit(Vm::Str(s.subrange(i + 1, j))), i, spec_tokenize(s, j + 1))
        }
    } else if s[i] == '-' {
        if i + 1 < s.len() && is_digit(s[i + 1]) {
            match spec_number(s, i + 1, true) {
                Ok((t, j)) => cons_tok(t, i, spec_tokenize(s, j)),
                Err(e) => Err(e),
            }
        } else {
            Err(SynErrM { pos: i, expected: seq!["a digit after '-'"@] })
        }
    } else if is_digit(s[i]) {
        match spec_number(s, i, false) {
            Ok((t, j)) => cons_tok(t, i, spec_tokenize(s, j)),
            Err(e) => Err(e),
        }
    } else if is_alpha(s[i]) {
        let j = word_end(s, i);
        cons_tok(spec_word_tok(s.subrange(i, j)), i, spec_tokenize(s, j))
    } else {
        Err(
            SynErrM {
                pos: i,
                expected: seq![
                    "a keyword"@,
                    "an identifier"@,
                    "a literal"@,
                    "an operator"@,
                    "punctuation"@,
                ],
            },
        )
    }
}

/// The model of an executable tokenizer result.
pub open spec fn tok_res_view(r: Result<Vec<(Tok, usize)>, SyntaxError>) -> Result<
    Seq<(TokM, int)>,
    SynErrM,
> {
    match r {
        Ok(v) => Ok(toks_view(v)),
        Err(e) => Err(e@),
    }
}

fn err_one(pos: usize, what: &str) -> (e: SyntaxError)
    ensures
        e@ == (SynErrM { pos: pos as int, expected: seq![what@] }),
{
    let mut expected: Vec<String> = Vec::new();
    expected.push(what.to_owned());
    let e = SyntaxError { pos, expected };
    proof {
        assert(e@.expected =~= seq![what@]);
    }
    e
}

fn push_front(t: Tok, p: usize, r: Result<Vec<(Tok, usize)>, SyntaxError>) -> (r2: Result<
    Vec<(Tok, usize)>,
    SyntaxError,
>)
    ensures
        tok_res_view(r2) == cons_tok(t@, p as int, tok_res_view(r)),
{
    let ghost tm = t@;
    match r {
        Ok(v) => {
            let ghost oldv = v;
            let mut v = v;
            v.insert(0, (t, p));
            proof {
                assert(toks_view(v) =~= seq![(tm, p as int)] + toks_view(oldv));
            }
            Ok(v)
        },
        Err(e) => Err(e),
    }
}

/// Scan the number whose digits begin at `d`.
fn scan_number(s: &str, d: usize, n: usize, neg: bool) -> (r: Result<(Tok, usize), SyntaxError>)
    requires
        n == s@.len(),
        d < n,
        is_digit(s@[d as int]),
    ensures
        match r {
            Ok((t, j)) => spec_number(s@, d as int, neg) == Ok::<(TokM, int), SynErrM>(
                (t@, j as int),
            ) && d < j <= n,
            Err(e) => spec_number(s@, d as int, neg) == Err::<(TokM, int), SynErrM>(e@),
        },
{
    let j = scan_digits_end(s, d, n);
    proof {
        lemma_digits_end(s@, d as int);
        assert(digits_end(s@, d as int) == digits_end(s@, d + 1));
        lemma_digits_end(s@, d + 1);
    }
    if j - d > 18 {
        return Err(err_one(d, "a number of at most eighteen digits"));
    }
    if j < n && s.get_char(j) == '.' {
        let k = scan_digits_end(s, j + 1, n);
        proof {
            lemma_digits_end(s@, j + 1);
        }
        if k == j + 1 {
            return Err(err_one(j + 1, "a digit after the decimal point"));
        }
        if k - (j + 1) > 6 {
            return Err(err_one(j + 1, "at most six decimal places"));
        }
        if j - d > 12 {
            return Err(err_one(d, "at most twelve digits before the decimal point"));
        }
        let ip: u64 = parse_digits(s, d, j, n);
        let fv: u64 = parse_digits(s, j + 1, k, n);
        let flen: usize = k - (j + 1);
        let p: u64 = pow10_small(6 - flen);
        proof {
            lemma_digits_num_bound(s@, d as int, j as int);
            lemma_pow10_le((j - d) as nat, 12);
            assert(pow10(12) == 1000000000000) by {
                reveal_with_fuel(pow10, 13);
            }
            lemma_digits_num_bound(s@, j + 1, k as int);
            lemma_pow10_le((k - (j + 1)) as nat, 6);
            assert(pow10(6) == 1000000) by {
                reveal_with_fuel(pow10, 8);
            }
            lemma_pow10_le((6 - flen) as nat, 6);
            assert(pow10(flen as nat) * pow10((6 - flen) as nat) <= 1000000) by {
                lemma_pow10_add(flen as nat, (6 - flen) as nat);
            }
            assert(fv * p < 1000000) by (nonlinear_arith)
                requires
                    0 <= fv,
                    fv < pow10(flen as nat),
                    p == pow10((6 - flen) as nat),
                    1 <= p,
                    pow10(flen as nat) * pow10((6 - flen) as nat) <= 1000000,
            {
            }
        }
        let total: u64 = ip * 1000000 + fv * p;
        let v: i64 = total as i64;
        let val: i64 = if neg {
            -v
        } else {
            v
        };
        Ok((Tok::Lit(Value::Float(val)), k))
    } else {
        let m: u64 = parse_digits(s, d, j, n);
        let v: i64 = m as i64;
        let val: i64 = if neg {
            -v
        } else {
            v
        };
        Ok((Tok::Lit(Value::Int(val)), j))
    }
}

/// The keyword or identifier token for the word `w`.
fn word_tok(w: &str) -> (t: Tok)
    ensures
        t@ == spec_word_tok(w@),
{
    if str_eq(w, "SELECT") {
        Tok::Select
    } else if str_eq(w, "FROM") {
        Tok::From
    } else if str_eq(w, "WHERE") {
        Tok::Where
    } else if str_eq(w, "LIMIT") {
        Tok::Limit
    } else if str_eq(w, "AND") {
        Tok::And
    } else if str_eq(w, "OR") {
        Tok::Or
    } else if str_eq(w, "NULL") {
        Tok::Lit(Value::Null)
    } else if str_eq(w, "true") {
        Tok::Lit(Value::Boolean(true))
    } else if str_eq(w, "false") {
        Tok::Lit(Value::Boolean(false))
    } else {
        Tok::Ident(w.to_owned())
    }
}

/// Tokenize `s` from position `i` on.
fn tokenize_from(s: &str, i: usize, n: usize) -> (r: Result<Vec<(Tok, usize)>, SyntaxError>)
    requires
        n == s@.len(),
        i <= n,
    ensures
        tok_res_view(r) == spec_tokenize(s@, i as int),
    decreases n - i,
{
    if i >= n {
        let v: Vec<(Tok, usize)> = Vec::new();
        proof {
            assert(toks_view(v) =~= Seq::<(TokM, int)>::empty());
        }
        return Ok(v);
    }
    let c = s.get_char(i);
    if ch_is_space(c) {
        tokenize_from(s, i + 1, n)
    } else if c == '*' {
        push_front(Tok::Star, i, tokenize_from(s, i + 1, n))
    } else if c == ',' {
        push_front(Tok::Comma, i, tokenize_from(s, i + 1, n))
    } else if c == '(' {
        push_front(Tok::LParen, i, tokenize_from(s, i + 1, n))
    } else if c == ')' {
        push_front(Tok::RParen, i, tokenize_from(s, i + 1, n))
    } else if c == '=' {
        push_front(Tok::Op(CmpOp::Eq), i, tokenize_from(s, i + 1, n))
    } else if c == '!' {
        if i + 1 < n && s.get_char(i + 1) == '=' {
            push_front(Tok::Op(CmpOp::Ne), i, tokenize_from(s, i + 2, n))
        } else {
            Err(err_one(i, "'=' after '!'"))
        }
    } else if c == '<' {
        if i + 1 < n && s.get_char(i + 1) == '=' {
            push_front(Tok::Op(CmpOp::Le), i, tokenize_from(s, i + 2, n))
        } else {
            push_front(Tok::Op(CmpOp::Lt), i, tokenize_from(s, i + 1, n))
        }
    } else if c == '>' {
        if i + 1 < n && s.get_char(i + 1) == '=' {
            push_front(Tok::Op(CmpOp::Ge), i, tokenize_from(s, i + 2, n))
        } else {
            push_front(Tok::Op(CmpOp::Gt), i, tokenize_from(s, i + 1, n))
        }
    } else if c == '"' {
        let j = scan_find_char(s, i + 1, n, '"');
        proof {
            lemma_find_char(s@, i + 1, '"');
        }
        if j >= n {
            Err(err_one(i, "a closing '\"'"))
        } else {
            let w = s.substring_char(i + 1, j);
            push_front(Tok::Lit(Value::Str(w.to_owned())), i, tokenize_from(s, j + 1, n))
        }
    } else if c == '-' {
        if i + 1 < n && ch_is_digit(s.get_char(i + 1)) {
            match scan_number(s, i + 1, n, true) {
                Ok((t, j)) => push_front(t, i, tokenize_from(s, j, n)),
                Err(e) => Err(e),
            }
        } else {
            Err(err_one(i, "a digit after '-'"))
        }
    } else if ch_is_digit(c) {
        match scan_number(s, i, n, false) {
            Ok((t, j)) => push_front(t, i, tokenize_from(s, j, n)),
            Err(e) => Err(e),
        }
    } else if ch_is_alpha(c) {
        let j = scan_word_end(s, i, n);
        proof {
            lemma_word_end(s@, i as int);
            assert(word_end(s@, i as int) == word_end(s@, i + 1));
            lemma_word_end(s@, i + 1);
        }
        let w = s.substring_char(i, j);
        push_front(word_tok(w), i, tokenize_from(s, j, n))
    } else {
        let mut expected: Vec<String> = Vec::new();
        expected.push("a keyword".to_owned());
        expected.push("an identifier".to_owned());
        expected.push("a literal".to_owned());
        expected.push("an operator".to_owned());
        expected.push("punctuation".to_owned());
        let e = SyntaxError { pos: i, expected };
        proof {
            assert(e@.expected =~= seq![
                "a keyword"@,
                "an identifier"@,
                "a literal"@,
                "an operator"@,
                "punctuation"@,
            ]);
        }
        Err(e)
    }
}

#[via_fn]
proof fn spec_tokenize_dec(s: Seq<char>, i: int) {
    if 0 <= i < s.len() {
        lemma_find_char(s, i + 1, '"');
        lemma_word_end(s, i);
        lemma_digits_end(s, i);
        if i + 1 <= s.len() {
            lemma_digits_end(s, i + 1);
            if is_digit(s[i]) {
                assert(digits_end(s, i) == digits_end(s, i + 1));
            }
            let j0 = digits_end(s, i);
            if j0 + 1 <= s.len() {
                lemma_digits_end(s, j0 + 1);
            }
            let j1 = digits_end(s, i + 1);
            if j1 + 1 <= s.len() {
                lemma_digits_end(s, j1 + 1);
            }
            if i + 1 < s.len() && is_digit(s[i + 1]) {
                assert(digits_end(s, i + 1) == digits_end(s, i + 2));
                lemma_digits_end(s, i + 2);
            }
        }
        if is_alpha(s[i]) {
            assert(word_end(s, i) == word_end(s, i + 1));
            lemma_word_end(s, i + 1);
        }
    }
}

} // verus!

use vstd::prelude::*;

verus! {

/// The projection list of a query: `*` or named columns.
#[derive(Debug)]
pub enum Projection {
    Star,
    Columns(Vec<String>),
}

/// Mathematical model of a projection list.
pub enum ProjM {
    Star,
    Columns(Seq<Seq<char>>),
}

pub open spec fn proj_view(p: Projection) -> ProjM {
    match p {
        Projection::Star => ProjM::Star,
        Projection::Columns(v) => ProjM::Columns(v@.map_values(|s: String| s@)),
    }
}

/// A filter expression: comparisons joined by `AND` and `OR`.
#[derive(Debug)]
pub enum Expr {
    Cmp { col: String, op: CmpOp, lit: Value },
    And(Box<Expr>, Box<Expr>),
    Or(Box<Expr>, Box<Expr>),
}

/// Mathematical model of a filter expression.
pub enum ExprM {
    Cmp { col: Seq<char>, op: CmpOp, lit: Vm },
    And(Box<ExprM>, Box<ExprM>),
    Or(Box<ExprM>, Box<ExprM>),
}

pub open spec fn expr_view(e: Expr) -> ExprM
    decreases e,
{
    match e {
        Expr::Cmp { col, op, lit } => ExprM::Cmp { col: col@, op, lit: lit@ },
        Expr::And(a, b) => ExprM::And(Box::new(expr_view(*a)), Box::new(expr_view(*b))),
        Expr::Or(a, b) => ExprM::Or(Box::new(expr_view(*a)), Box::new(expr_view(*b))),
    }
}

/// The abstract syntax tree of one `SELECT` query.
#[derive(Debug)]
pub struct SelectStatement {
    pub table_name: String,
    pub projection: Projection,
    pub filter: Option<Expr>,
    pub limit: Option<u64>,
}

/// Mathematical model of a `SelectStatement`.
pub struct StmtM {
    pub table: Seq<char>,
    pub projection: ProjM,
    pub filter: Option<ExprM>,
    pub limit: Option<u64>,
}

pub open spec fn stmt_view(s: SelectStatement) -> StmtM {
    StmtM {
        table: s.table_name@,
        projection: proj_view(s.projection),
        filter: match s.filter {
            Some(e) => Some(expr_view(e)),
            None => None,
        },
        limit: s.limit,
    }
}

/// The character position of token `i`, or `end` past the last token.
pub open spec fn spec_tok_pos(toks: Seq<(TokM, int)>, end: int, i: int) -> int {
    if 0 <= i < toks.len() {
        toks[i].1
    } else {
        end
    }
}

/// One comparison, or a parenthesized expression.
pub open spec fn spec_cmp(toks: Seq<(TokM, int)>, end: int, i: int, fuel: nat) -> Result<
    (ExprM, int),
    SynErrM,
>
    decreases fuel,
{
    if fuel == 0 {
        Err(
            SynErrM {
                pos: spec_tok_pos(toks, end, i),
                expected: seq!["a less deeply nested expression"@],
            },
        )
    } else if i < toks.len() && toks[i].0 == TokM::LParen {
        match spec_or(toks, end, i + 1, (fuel - 1) as nat) {
            Ok((e, j)) => if j < toks.len() && toks[j].0 == TokM::RParen {
                Ok((e, j + 1))
            } else {
                Err(SynErrM { pos: spec_tok_pos(toks, end, j), expected: seq!["')'"@] })
            },
            Err(e) => Err(e),
        }
    } else if i >= toks.len() {
        Err(
            SynErrM {
                pos: spec_tok_pos(toks, end, i),
                expected: seq!["'('"@, "a column identifier"@],
            },
        )
    } else {
        match toks[i].0 {
            TokM::Ident(w) => if i + 1 < toks.len() {
                match toks[i + 1].0 {
                    TokM::Op(op) => if i + 2 < toks.len() {
                        match toks[i + 2].0 {
                            TokM::Lit(v) => Ok((ExprM::Cmp { col: w, op: op, lit: v }, i + 3)),
                            _ => Err(
                                SynErrM {
                                    pos: spec_tok_pos(toks, end, i + 2),
                                    expected: seq!["a literal value"@],
                                },
                            ),
                        }
                    } else {
                        Err(
                            SynErrM {
                                pos: spec_tok_pos(toks, end, i + 2),
                                expected: seq!["a literal value"@],
                            },
                        )
                    },
                    _ => Err(
                        SynErrM {
                            pos: spec_tok_pos(toks, end, i + 1),
                            expected: seq!["a comparison operator"@],
                        },
                    ),
                }
            } else {
                Err(
                    SynErrM {
                        pos: spec_tok_pos(toks, end, i + 1),
                        expected: seq!["a comparison operator"@],
                    },
                )
            },
            _ => Err(
                SynErrM {
                    pos: spec_tok_pos(toks, end, i),
                    expected: seq!["'('"@, "a column identifier"@],
                },
            ),
        }
    }
}

/// A chain of comparisons joined by `AND`.
pub open spec fn spec_and(toks: Seq<(TokM, int)>, end: int, i: int, fuel: nat) -> Result<
    (ExprM, int),
    SynErrM,
>
    decreases fuel,
{
    if fuel == 0 {
        Err(
            SynErrM {
                pos: spec_tok_pos(toks, end, i),
                expected: seq!["a less deeply nested expression"@],
            },
        )
    } else {
        match spec_cmp(toks, end, i, (fuel - 1) as nat) {
            Ok((l, j)) => if j < toks.len() && toks[j].0 == TokM::And {
                match spec_and(toks, end, j + 1, (fuel - 1) as nat) {
                    Ok((r, k)) => Ok((ExprM::And(Box::new(l), Box::new(r)), k)),
                    Err(e) => Err(e),
                }
            } else {
                Ok((l, j))
            },
            Err(e) => Err(e),
        }
    }
}

/// A chain of `AND`-expressions joined by `OR`.
pub open spec fn spec_or(toks: Seq<(TokM, int)>, end: int, i: int, fuel: nat) -> Result<
    (ExprM, int),
    SynErrM,
>
    decreases fuel,
{
    if fuel == 0 {
        Err(
            SynErrM {
                pos: spec_tok_pos(toks, end, i),
                expected: seq!["a less deeply nested expression"@],
            },
        )
    } else {
        match spec_and(toks, end, i, (fuel - 1) as nat) {
            Ok((l, j)) => if j < toks.len() && toks[j].0 == TokM::Or {
                match spec_or(toks, end, j + 1, (fuel - 1) as nat) {
                    Ok((r, k)) => Ok((ExprM::Or(Box::new(l), Box::new(r)), k)),
                    Err(e) => Err(e),
                }
            } else {
                Ok((l, j))
            },
            Err(e) => Err(e),
        }
    }
}

/// The fuel that bounds expression nesting: ample for any real query, and
/// part of the grammar's definition.
pub open spec fn spec_fuel(toks: Seq<(TokM, int)>) -> nat {
    (3 * toks.len() + 3) as nat
}

/// The identifiers that follow the first, each after a comma.
pub open spec fn spec_proj_rest(
    cols: Seq<Seq<char>>,
    toks: Seq<(TokM, int)>,
    end: int,
    i: int,
) -> Result<(Seq<Seq<char>>, int), SynErrM>
    decreases toks.len() - i,
    when 0 <= i <= toks.len()
{
    if i < toks.len() && toks[i].0 == TokM::Comma {
        if i + 1 < toks.len() {
            match toks[i + 1].0 {
                TokM::Ident(w) => spec_proj_rest(cols.push(w), toks, end, i + 2),
                _ => Err(
                    SynErrM {
                        pos: spec_tok_pos(toks, end, i + 1),
                        expected: seq!["a column identifier"@],
                    },
                ),
            }
        } else {
            Err(
                SynErrM {
                    pos: spec_tok_pos(toks, end, i + 1),
                    expected: seq!["a column identifier"@],
                },
            )
        }
    } else {
        Ok((cols, i))
    }
}

/// The projection clause, starting at token 1.
pub open spec fn spec_projection(toks: Seq<(TokM, int)>, end: int) -> Result<
    (ProjM, int),
    SynErrM,
> {
    if toks.len() > 1 {
        match toks[1].0 {
            TokM::Star => Ok((ProjM::Star, 2)),
            TokM::Ident(w) => match spec_proj_rest(seq![w], toks, end, 2) {
                Ok((cols, j)) => Ok((ProjM::Columns(cols), j)),
                Err(e) => Err(e),
            },
            _ => Err(
                SynErrM {
                    pos: spec_tok_pos(toks, end, 1),
                    expected: seq!["'*'"@, "a column identifier"@],
                },
            ),
        }
    } else {
        Err(
            SynErrM {
                pos: spec_tok_pos(toks, end, 1),
                expected: seq!["'*'"@, "a column identifier"@],
            },
        )
    }
}

/// The optional `WHERE` clause.
pub open spec fn spec_where_clause(toks: Seq<(TokM, int)>, end: int, i: int) -> Result<
    (Option<ExprM>, int),
    SynErrM,
> {
    if i < toks.len() && toks[i].0 == TokM::Where {
        match spec_or(toks, end, i + 1, spec_fuel(toks)) {
            Ok((e, j)) => Ok((Some(e), j)),
            Err(e) => Err(e),
        }
    } else {
        Ok((None, i))
    }
}

/// The optional `LIMIT` clause.
pub open spec fn spec_limit_clause(toks: Seq<(TokM, int)>, end: int, i: int) -> Result<
    (Option<u64>, int),
    SynErrM,
> {
    if i < toks.len() && toks[i].0 == TokM::Limit {
        if i + 1 < toks.len() {
            match toks[i + 1].0 {
                TokM::Lit(v) => match v {
                    Vm::Int(m) => if m >= 0 {
                        Ok((Some(m as u64), i + 2))
                    } else {
                        Err(
                            SynErrM {
                                pos: spec_tok_pos(toks, end, i + 1),
                                expected: seq!["a non-negative integer"@],
                            },
                        )
                    },
                    _ => Err(
                        SynErrM {
                            pos: spec_tok_pos(toks, end, i + 1),
                            expected: seq!["a non-negative integer"@],
                        },
                    ),
                },
                _ => Err(
                    SynErrM {
                        pos: spec_tok_pos(toks, end, i + 1),
                        expected: seq!["a non-negative integer"@],
                    },
                ),
            }
        } else {
            Err(
                SynErrM {
                    pos: spec_tok_pos(toks, end, i + 1),
                    expected: seq!["a non-negative integer"@],
                },
            )
        }
    } else {
        Ok((None, i))
    }
}

/// What may follow the projection clause.
pub open spec fn spec_from_expected(p: ProjM) -> Seq<Seq<char>> {
    match p {
        ProjM::Star => seq!["FROM"@],
        ProjM::Columns(_) => seq!["','"@, "FROM"@],
    }
}

/// One whole `SELECT` statement, from token 0; the returned index is the
/// first unconsumed token.
pub open spec fn spec_statement(toks: Seq<(TokM, int)>, end: int) -> Result<
    (StmtM, int),
    SynErrM,
> {
    if toks.len() > 100000000 {
        Err(SynErrM { pos: 0, expected: seq!["a shorter query"@] })
    } else if !(toks.len() > 0 && toks[0].0 == TokM::Select) {
        Err(SynErrM { pos: spec_tok_pos(toks, end, 0), expected: seq!["SELECT"@] })
    } else {
        match spec_projection(toks, end) {
            Err(e) => Err(e),
            Ok((proj, i)) => if !(i < toks.len() && toks[i].0 == TokM::From) {
                Err(SynErrM { pos: spec_tok_pos(toks, end, i), expected: spec_from_expected(proj) })
            } else if i + 1 >= toks.len() {
                Err(
                    SynErrM {
                        pos: spec_tok_pos(toks, end, i + 1),
                        expected: seq!["a table identifier"@],
                    },
                )
            } else {
                match toks[i + 1].0 {
                    TokM::Ident(t) => match spec_where_clause(toks, end, i + 2) {
                        Err(e) => Err(e),
                        Ok((filter, j)) => match spec_limit_clause(toks, end, j) {
                            Err(e) => Err(e),
                            Ok((limit, k)) => Ok(
                                (
                                    StmtM {
                                        table: t,
                                        projection: proj,
                                        filter: filter,
                                        limit: limit,
                                    },
                                    k,
                                ),
                            ),
                        },
                    },
                    _ => Err(
                        SynErrM {
                            pos: spec_tok_pos(toks, end, i + 1),
                            expected: seq!["a table identifier"@],
                        },
                    ),
                }
            },
        }
    }
}

/// The whole syntax layer: tokenize, parse one statement, and report the
/// character position the statement ends at.
pub open spec fn spec_parse(q: Seq<char>) -> Result<(StmtM, int), SynErrM> {
    match spec_tokenize(q, 0) {
        Err(e) => Err(e),
        Ok(toks) => match spec_statement(toks, q.len() as int) {
            Err(e) => Err(e),
            Ok((st, j)) => Ok((st, spec_tok_pos(toks, q.len() as int, j))),
        },
    }
}

/// Token positions always lie inside the tokenized text.
pub proof fn lemma_tokenize_pos(s: Seq<char>, i: int)
    requires
        0 <= i <= s.len(),
    ensures
        spec_tokenize(s, i) matches Ok(ts) ==> forall|k: int|
            0 <= k < ts.len() ==> 0 <= #[trigger] ts[k].1 < s.len(),
    decreases s.len() - i,
{
    if i < s.len() {
        if is_space(s[i]) {
            lemma_tokenize_pos(s, i + 1);
        } else if s[i] == '*' || s[i] == ',' || s[i] == '(' || s[i] == ')' || s[i] == '=' {
            lemma_tokenize_pos(s, i + 1);
        } else if s[i] == '!' {
            if i + 1 < s.len() && s[i + 1] == '=' {
                lemma_tokenize_pos(s, i + 2);
            }
        } else if s[i] == '<' || s[i] == '>' {
            if i + 1 < s.len() && s[i + 1] == '=' {
                lemma_tokenize_pos(s, i + 2);
            } else {
                lemma_tokenize_pos(s, i + 1);
            }
        } else if s[i] == '"' {
            let j = find_char(s, i + 1, '"');
            lemma_find_char(s, i + 1, '"');
            if j < s.len() {
                lemma_tokenize_pos(s, j + 1);
            }
        } else if s[i] == '-' {
            if i + 1 < s.len() && is_digit(s[i + 1]) {
                lemma_digits_end(s, i + 1);
                assert(digits_end(s, i + 1) == digits_end(s, i + 2));
                lemma_digits_end(s, i + 2);
                let j0 = digits_end(s, i + 1);
                if j0 + 1 <= s.len() {
                    lemma_digits_end(s, j0 + 1);
                }
                match spec_number(s, i + 1, true) {
                    Ok((t, j)) => {
                        lemma_tokenize_pos(s, j);
                    },
                    Err(_) => {},
                }
            }
        } else if is_digit(s[i]) {
            lemma_digits_end(s, i);
            assert(digits_end(s, i) == digits_end(s, i + 1));
            lemma_digits_end(s, i + 1);
            let j0 = digits_end(s, i);
            if j0 + 1 <= s.len() {
                lemma_digits_end(s, j0 + 1);
            }
            match spec_number(s, i, false) {
                Ok((t, j)) => {
                    lemma_tokenize_pos(s, j);
                },
                Err(_) => {},
            }
        } else if is_alpha(s[i]) {
            let j = word_end(s, i);
            lemma_word_end(s, i);
            assert(word_end(s, i) == word_end(s, i + 1));
            lemma_word_end(s, i + 1);
            lemma_tokenize_pos(s, j);
        }
    }
}

} // verus!

verus! {

pub open spec fn names_view(v: Vec<String>) -> Seq<Seq<char>> {
    v@.map_values(|s: String| s@)
}

fn err_two(pos: usize, a: &str, b: &str) -> (e: SyntaxError)
    ensures
        e@ == (SynErrM { pos: pos as int, expected: seq![a@, b@] }),
{
    let mut expected: Vec<String> = Vec::new();
    expected.push(a.to_owned());
    expected.push(b.to_owned());
    let e = SyntaxError { pos, expected };
    proof {
        assert(e@.expected =~= seq![a@, b@]);
    }
    e
}

fn tok_pos(toks: &Vec<(Tok, usize)>, end: usize, i: usize) -> (p: usize)
    ensures
        p as int == spec_tok_pos(toks_view(*toks), end as int, i as int),
{
    if i < toks.len() {
        toks[i].1
    } else {
        end
    }
}

/// One comparison, or a parenthesized expression.
fn parse_cmp(toks: &Vec<(Tok, usize)>, end: usize, i: usize, fuel: usize) -> (r: Result<
    (Expr, usize),
    SyntaxError,
>)
    requires
        i <= toks.len(),
    ensures
        match r {
            Ok((e, j)) => spec_cmp(toks_view(*toks), end as int, i as int, fuel as nat)
                == Ok::<(ExprM, int), SynErrM>((expr_view(e), j as int)) && i <= j <= toks.len(),
            Err(e) => spec_cmp(toks_view(*toks), end as int, i as int, fuel as nat) == Err::<
                (ExprM, int),
                SynErrM,
            >(e@),
        },
    decreases fuel,
{
    if fuel == 0 {
        return Err(err_one(tok_pos(toks, end, i), "a less deeply nested expression"));
    }
    if i < toks.len() && matches!(&toks[i].0, Tok::LParen) {
        match parse_or(toks, end, i + 1, fuel - 1) {
            Ok((e, j)) => {
                if j < toks.len() && matches!(&toks[j].0, Tok::RParen) {
                    Ok((e, j + 1))
                } else {
                    Err(err_one(tok_pos(toks, end, j), "')'"))
                }
            },
            Err(e) => Err(e),
        }
    } else if i >= toks.len() {
        Err(err_two(tok_pos(toks, end, i), "'('", "a column identifier"))
    } else {
        match &toks[i].0 {
            Tok::Ident(w) => {
                if i + 1 < toks.len() {
                    match &toks[i + 1].0 {
                        Tok::Op(op) => {
                            if i + 2 < toks.len() {
                                match &toks[i + 2].0 {
                                    Tok::Lit(v) => Ok(
                                        (
                                            Expr::Cmp { col: w.clone(), op: *op, lit: v.dup() },
                                            i + 3,
                                        ),
                                    ),
                                    _ => Err(err_one(tok_pos(toks, end, i + 2), "a literal value")),
                                }
                            } else {
                                Err(err_one(tok_pos(toks, end, i + 2), "a literal value"))
                            }
                        },
                        _ => Err(err_one(tok_pos(toks, end, i + 1), "a comparison operator")),
                    }
                } else {
                    Err(err_one(tok_pos(toks, end, i + 1), "a comparison operator"))
                }
            },
            _ => Err(err_two(tok_pos(toks, end, i), "'('", "a column identifier")),
        }
    }
}

/// A chain of comparisons joined by `AND`.
fn parse_and(toks: &Vec<(Tok, usize)>, end: usize, i: usize, fuel: usize) -> (r: Result<
    (Expr, usize),
    SyntaxError,
>)
    requires
        i <= toks.len(),
    ensures
        match r {
            Ok((e, j)) => spec_and(toks_view(*toks), end as int, i as int, fuel as nat)
                == Ok::<(ExprM, int), SynErrM>((expr_view(e), j as int)) && i <= j <= toks.len(),
            Err(e) => spec_and(toks_view(*toks), end as int, i as int, fuel as nat) == Err::<
                (ExprM, int),
                SynErrM,
            >(e@),
        },
    decreases fuel,
{
    if fuel == 0 {
        return Err(err_one(tok_pos(toks, end, i), "a less deeply nested expression"));
    }
    match parse_cmp(toks, end, i, fuel - 1) {
        Ok((l, j)) => {
            if j < toks.len() && matches!(&toks[j].0, Tok::And) {
                match parse_and(toks, end, j + 1, fuel - 1) {
                    Ok((r2, k)) => Ok((Expr::And(Box::new(l), Box::new(r2)), k)),
                    Err(e) => Err(e),
                }
            } else {
                Ok((l, j))
            }
        },
        Err(e) => Err(e),
    }
}

/// A chain of `AND`-expressions joined by `OR`.
fn parse_or(toks: &Vec<(Tok, usize)>, end: usize, i: usize, fuel: usize) -> (r: Result<
    (Expr, usize),
    SyntaxError,
>)
    requires
        i <= toks.len(),
    ensures
        match r {
            Ok((e, j)) => spec_or(toks_view(*toks), end as int, i as int, fuel as nat)
                == Ok::<(ExprM, int), SynErrM>((expr_view(e), j as int)) && i <= j <= toks.len(),
            Err(e) => spec_or(toks_view(*toks), end as int, i as int, fuel as nat) == Err::<
                (ExprM, int),
                SynErrM,
            >(e@),
        },
    decreases fuel,
{
    if fuel == 0 {
        return Err(err_one(tok_pos(toks, end, i), "a less deeply nested expression"));
    }
    match parse_and(toks, end, i, fuel - 1) {
        Ok((l, j)) => {
            if j < toks.len() && matches!(&toks[j].0, Tok::Or) {
                match parse_or(toks, end, j + 1, fuel - 1) {
                    Ok((r2, k)) => Ok((Expr::Or(Box::new(l), Box::new(r2)), k)),
                    Err(e) => Err(e),
                }
            } else {
                Ok((l, j))
            }
        },
        Err(e) => Err(e),
    }
}

/// The identifiers that follow the first, each after a comma.
fn parse_proj_rest(toks: &Vec<(Tok, usize)>, end: usize, cols: Vec<String>, i: usize) -> (r:
    Result<(Vec<String>, usize), SyntaxError>)
    requires
        i <= toks.len(),
    ensures
        match r {
            Ok((cs, j)) => spec_proj_rest(names_view(cols), toks_view(*toks), end as int, i as int)
                == Ok::<(Seq<Seq<char>>, int), SynErrM>((names_view(cs), j as int)) && i <= j
                <= toks.len(),
            Err(e) => spec_proj_rest(names_view(cols), toks_view(*toks), end as int, i as int)
                == Err::<(Seq<Seq<char>>, int), SynErrM>(e@),
        },
    decreases toks.len() - i,
{
    if i < toks.len() && matches!(&toks[i].0, Tok::Comma) {
        if i + 1 < toks.len() {
            match &toks[i + 1].0 {
                Tok::Ident(w) => {
                    let ghost cols0 = names_view(cols);
                    let mut cols2 = cols;
                    cols2.push(w.clone());
                    proof {
                        assert(names_view(cols2) =~= cols0.push(w@));
                    }
                    parse_proj_rest(toks, end, cols2, i + 2)
                },
                _ => Err(err_one(tok_pos(toks, end, i + 1), "a column identifier")),
            }
        } else {
            Err(err_one(tok_pos(toks, end, i + 1), "a column identifier"))
        }
    } else {
        Ok((cols, i))
    }
}

/// The projection clause, starting at token 1.
fn parse_projection(toks: &Vec<(Tok, usize)>, end: usize) -> (r: Result<
    (Projection, usize),
    SyntaxError,
>)
    ensures
        match r {
            Ok((p, j)) => spec_projection(toks_view(*toks), end as int) == Ok::<
                (ProjM, int),
                SynErrM,
            >((proj_view(p), j as int)) && j <= toks.len(),
            Err(e) => spec_projection(toks_view(*toks), end as int) == Err::<
                (ProjM, int),
                SynErrM,
            >(e@),
        },
{
    if toks.len() > 1 {
        match &toks[1].0 {
            Tok::Star => Ok((Projection::Star, 2)),
            Tok::Ident(w) => {
                let mut cols: Vec<String> = Vec::new();
                cols.push(w.clone());
                proof {
                    assert(names_view(cols) =~= seq![w@]);
                }
                match parse_proj_rest(toks, end, cols, 2) {
                    Ok((cs, j)) => Ok((Projection::Columns(cs), j)),
                    Err(e) => Err(e),
                }
            },
            _ => Err(err_two(tok_pos(toks, end, 1), "'*'", "a column identifier")),
        }
    } else {
        Err(err_two(tok_pos(toks, end, 1), "'*'", "a column identifier"))
    }
}

/// The optional `WHERE` clause.
fn parse_where_clause(toks: &Vec<(Tok, usize)>, end: usize, i: usize) -> (r: Result<
    (Option<Expr>, usize),
    SyntaxError,
>)
    requires
        i <= toks.len(),
        toks.len() <= 100000000,
    ensures
        match r {
            Ok((f, j)) => spec_where_clause(toks_view(*toks), end as int, i as int) == Ok::<
                (Option<ExprM>, int),
                SynErrM,
            >(
                (
                    match f {
                        Some(e) => Some(expr_view(e)),
                        None => None,
                    },
                    j as int,
                ),
            ) && i <= j <= toks.len(),
            Err(e) => spec_where_clause(toks_view(*toks), end as int, i as int) == Err::<
                (Option<ExprM>, int),
                SynErrM,
            >(e@),
        },
{
    if i < toks.len() && matches!(&toks[i].0, Tok::Where) {
        let fuel: usize = 3 * toks.len() + 3;
        match parse_or(toks, end, i + 1, fuel) {
            Ok((e, j)) => Ok((Some(e), j)),
            Err(e) => Err(e),
        }
    } else {
        Ok((None, i))
    }
}

/// The optional `LIMIT` clause.
fn parse_limit_clause(toks: &Vec<(Tok, usize)>, end: usize, i: usize) -> (r: Result<
    (Option<u64>, usize),
    SyntaxError,
>)
    requires
        i <= toks.len(),
    ensures
        match r {
            Ok((l, j)) => spec_limit_clause(toks_view(*toks), end as int, i as int) == Ok::<
                (Option<u64>, int),
                SynErrM,
            >((l, j as int)) && i <= j <= toks.len(),
            Err(e) => spec_limit_clause(toks_view(*toks), end as int, i as int) == Err::<
                (Option<u64>, int),
                SynErrM,
            >(e@),
        },
{
    if i < toks.len() && matches!(&toks[i].0, Tok::Limit) {
        if i + 1 < toks.len() {
            match &toks[i + 1].0 {
                Tok::Lit(v) => match v {
                    Value::Int(m) => {
                        if *m >= 0 {
                            Ok((Some(*m as u64), i + 2))
                        } else {
                            Err(err_one(tok_pos(toks, end, i + 1), "a non-negative integer"))
                        }
                    },
                    _ => Err(err_one(tok_pos(toks, end, i + 1), "a non-negative integer")),
                },
                _ => Err(err_one(tok_pos(toks, end, i + 1), "a non-negative integer")),
            }
        } else {
            Err(err_one(tok_pos(toks, end, i + 1), "a non-negative integer"))
        }
    } else {
        Ok((None, i))
    }
}

/// One whole `SELECT` statement, from token 0.
fn parse_statement(toks: &Vec<(Tok, usize)>, end: usize) -> (r: Result<
    (SelectStatement, usize),
    SyntaxError,
>)
    ensures
        match r {
            Ok((st, j)) => spec_statement(toks_view(*toks), end as int) == Ok::<
                (StmtM, int),
                SynErrM,
            >((stmt_view(st), j as int)) && j <= toks.len(),
            Err(e) => spec_statement(toks_view(*toks), end as int) == Err::<(StmtM, int), SynErrM>(
                e@,
            ),
        },
{
    if toks.len() > 100000000 {
        return Err(err_one(0, "a shorter query"));
    }
    if !(toks.len() > 0 && matches!(&toks[0].0, Tok::Select)) {
        return Err(err_one(tok_pos(toks, end, 0), "SELECT"));
    }
    let (proj, i) = match parse_projection(toks, end) {
        Ok(p) => p,
        Err(e) => {
            return Err(e);
        },
    };
    if !(i < toks.len() && matches!(&toks[i].0, Tok::From)) {
        let e = match &proj {
            Projection::Star => err_one(tok_pos(toks, end, i), "FROM"),
            Projection::Columns(_) => err_two(tok_pos(toks, end, i), "','", "FROM"),
        };
        return Err(e);
    }
    if i + 1 >= toks.len() {
        return Err(err_one(tok_pos(toks, end, i + 1), "a table identifier"));
    }
    let t: String = match &toks[i + 1].0 {
        Tok::Ident(w) => w.clone(),
        _ => {
            return Err(err_one(tok_pos(toks, end, i + 1), "a table identifier"));
        },
    };
    let (filter, j) = match parse_where_clause(toks, end, i + 2) {
        Ok(p) => p,
        Err(e) => {
            return Err(e);
        },
    };
    let (limit, k) = match parse_limit_clause(toks, end, j) {
        Ok(p) => p,
        Err(e) => {
            return Err(e);
        },
    };
    Ok((SelectStatement { table_name: t, projection: proj, filter, limit }, k))
}

/// Parse one query string. On success the returned position is where the
/// statement ended: the driver treats any text after it as a hard error.
pub fn parse_select(query: &str) -> (r: Result<(SelectStatement, usize), SyntaxError>)
    ensures
        match r {
            Ok((st, pos)) => spec_parse(query@) == Ok::<(StmtM, int), SynErrM>(
                (stmt_view(st), pos as int),
            ) && pos <= query@.len(),
            Err(e) => spec_parse(query@) == Err::<(StmtM, int), SynErrM>(e@),
        },
{
    let n = query.unicode_len();
    match tokenize_from(query, 0, n) {
        Err(e) => Err(e),
        Ok(toks) => {
            proof {
                lemma_tokenize_pos(query@, 0);
            }
            match parse_statement(&toks, n) {
                Err(e) => Err(e),
                Ok((st, j)) => {
                    let pos = tok_pos(&toks, n, j);
                    Ok((st, pos))
                },
            }
        },
    }
}

} // verus!
