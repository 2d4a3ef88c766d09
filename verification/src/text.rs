//! Character-level scanning utilities shared by the query tokenizer and the
//! log-line decoders: character classes, run scanners, digit-run evaluation
//! and lexicographic string comparison, each with an exact contract.

use vstd::prelude::*;

verus! {

pub open spec fn is_space(c: char) -> bool {
    c == ' ' || c == '\t' || c == '\r' || c == '\n'
}

pub open spec fn is_digit(c: char) -> bool {
    48 <= c as u32 <= 57
}

pub open spec fn is_alpha(c: char) -> bool {
    (65 <= c as u32 <= 90) || (97 <= c as u32 <= 122) || c == '_'
}

pub open spec fn is_word_char(c: char) -> bool {
    is_alpha(c) || is_digit(c)
}

/// Numeric value of a digit character.
pub open spec fn digit_val(c: char) -> int {
    c as u32 - 48
}

pub fn ch_is_space(c: char) -> (r: bool)
    ensures
        r == is_space(c),
{
    c == ' ' || c == '\t' || c == '\r' || c == '\n'
}

pub fn ch_is_digit(c: char) -> (r: bool)
    ensures
        r == is_digit(c),
{
    let u: u32 = c as u32;
    48 <= u && u <= 57
}

pub fn ch_is_alpha(c: char) -> (r: bool)
    ensures
        r == is_alpha(c),
{
    let u: u32 = c as u32;
    (65 <= u && u <= 90) || (97 <= u && u <= 122) || c == '_'
}

pub fn ch_is_word_char(c: char) -> (r: bool)
    ensures
        r == is_word_char(c),
{
    ch_is_alpha(c) || ch_is_digit(c)
}

/// End of the run of word characters starting at `i`.
pub open spec fn word_end(s: Seq<char>, i: int) -> int
    decreases s.len() - i,
    when 0 <= i <= s.len()
{
    if i < s.len() && is_word_char(s[i]) {
        word_end(s, i + 1)
    } else {
        i
    }
}

/// End of the run of digit characters starting at `i`.
pub open spec fn digits_end(s: Seq<char>, i: int) -> int
    decreases s.len() - i,
    when 0 <= i <= s.len()
{
    if i < s.len() && is_digit(s[i]) {
        digits_end(s, i + 1)
    } else {
        i
    }
}

/// First index at or after `i` whose character equals `t`, or the length of
/// `s` if there is none.
pub open spec fn find_char(s: Seq<char>, i: int, t: char) -> int
    decreases s.len() - i,
    when 0 <= i <= s.len()
{
    if i >= s.len() {
        i
    } else if s[i] == t {
        i
    } else {
        find_char(s, i + 1, t)
    }
}

pub proof fn lemma_word_end(s: Seq<char>, i: int)
    requires
        0 <= i <= s.len(),
    ensures
        i <= word_end(s, i) <= s.len(),
        forall|k: int| i <= k < word_end(s, i) ==> is_word_char(s[k]),
        word_end(s, i) < s.len() ==> !is_word_char(s[word_end(s, i)]),
    decreases s.len() - i,
{
    if i < s.len() && is_word_char(s[i]) {
        lemma_word_end(s, i + 1);
    }
}

pub proof fn lemma_digits_end(s: Seq<char>, i: int)
    requires
        0 <= i <= s.len(),
    ensures
        i <= digits_end(s, i) <= s.len(),
        forall|k: int| i <= k < digits_end(s, i) ==> is_digit(s[k]),
        digits_end(s, i) < s.len() ==> !is_digit(s[digits_end(s, i)]),
    decreases s.len() - i,
{
    if i < s.len() && is_digit(s[i]) {
        lemma_digits_end(s, i + 1);
    }
}

pub proof fn lemma_find_char(s: Seq<char>, i: int, t: char)
    requires
        0 <= i <= s.len(),
    ensures
        i <= find_char(s, i, t) <= s.len(),
        forall|k: int| i <= k < find_char(s, i, t) ==> s[k] != t,
        find_char(s, i, t) < s.len() ==> s[find_char(s, i, t)] == t,
    decreases s.len() - i,
{
    if i < s.len() && s[i] != t {
        lemma_find_char(s, i + 1, t);
    }
}

pub fn scan_word_end(s: &str, i: usize, n: usize) -> (j: usize)
    requires
        n == s@.len(),
        i <= n,
    ensures
        j == word_end(s@, i as int),
        i <= j <= n,
{
    let mut j: usize = i;
    while j < n && ch_is_word_char(s.get_char(j))
        invariant
            n == s@.len(),
            i <= j <= n,
            word_end(s@, i as int) == word_end(s@, j as int),
        decreases n - j,
    {
        j = j + 1;
    }
    proof {
        assert(word_end(s@, j as int) == j);
    }
    j
}

pub fn scan_digits_end(s: &str, i: usize, n: usize) -> (j: usize)
    requires
        n == s@.len(),
        i <= n,
    ensures
        j == digits_end(s@, i as int),
        i <= j <= n,
{
    let mut j: usize = i;
    while j < n && ch_is_digit(s.get_char(j))
        invariant
            n == s@.len(),
            i <= j <= n,
            digits_end(s@, i as int) == digits_end(s@, j as int),
        decreases n - j,
    {
        j = j + 1;
    }
    proof {
        assert(digits_end(s@, j as int) == j);
    }
    j
}

pub fn scan_find_char(s: &str, i: usize, n: usize, t: char) -> (j: usize)
    requires
        n == s@.len(),
        i <= n,
    ensures
        j == find_char(s@, i as int, t),
        i <= j <= n,
{
    let mut j: usize = i;
    while j < n && s.get_char(j) != t
        invariant
            n == s@.len(),
            i <= j <= n,
            find_char(s@, i as int, t) == find_char(s@, j as int, t),
        decreases n - j,
    {
        j = j + 1;
    }
    proof {
        assert(find_char(s@, j as int, t) == j);
    }
    j
}

/// The number written by the digit run `s[i..j)`, most significant first.
pub open spec fn digits_num(s: Seq<char>, i: int, j: int) -> int
    decreases j - i,
    when i <= j
{
    if j <= i {
        0
    } else {
        digits_num(s, i, j - 1) * 10 + digit_val(s[j - 1])
    }
}

pub open spec fn pow10(n: nat) -> int
    decreases n,
{
    if n == 0 {
        1
    } else {
        10 * pow10((n - 1) as nat)
    }
}

pub proof fn lemma_pow10_pos(n: nat)
    ensures
        pow10(n) >= 1,
    decreases n,
{
    if n > 0 {
        lemma_pow10_pos((n - 1) as nat);
    }
}

pub proof fn lemma_pow10_le(m: nat, n: nat)
    requires
        m <= n,
    ensures
        pow10(m) <= pow10(n),
        1 <= pow10(m),
    decreases n,
{
    lemma_pow10_pos(m);
    if m < n {
        lemma_pow10_le(m, (n - 1) as nat);
        lemma_pow10_pos((n - 1) as nat);
    }
}

pub proof fn lemma_pow10_add(m: nat, n: nat)
    ensures
        pow10(m + n) == pow10(m) * pow10(n),
    decreases m,
{
    if m == 0 {
        assert(pow10(n) == 1 * pow10(n));
    } else {
        lemma_pow10_add((m - 1) as nat, n);
        assert(pow10(m + n) == 10 * pow10((m + n - 1) as nat));
        assert(10 * (pow10((m - 1) as nat) * pow10(n)) == (10 * pow10((m - 1) as nat)) * pow10(n))
            by (nonlinear_arith);
    }
}

pub proof fn lemma_digits_num_bound(s: Seq<char>, i: int, j: int)
    requires
        0 <= i <= j <= s.len(),
        forall|k: int| i <= k < j ==> is_digit(s[k]),
    ensures
        0 <= digits_num(s, i, j) < pow10((j - i) as nat),
    decreases j - i,
{
    if j > i {
        lemma_digits_num_bound(s, i, j - 1);
    }
}

/// Evaluate the digit run `s[i..j)` as a number; the run is at most 18
/// digits, so the result fits comfortably.
pub fn parse_digits(s: &str, i: usize, j: usize, n: usize) -> (r: u64)
    requires
        n == s@.len(),
        i <= j <= n,
        j - i <= 18,
        forall|k: int| i <= k < j ==> is_digit(s@[k]),
    ensures
        r == digits_num(s@, i as int, j as int),
        r < 1000000000000000000u64,
    decreases n,
{
    proof {
        lemma_digits_num_bound(s@, i as int, j as int);
        lemma_pow10_le((j - i) as nat, 18);
        assert(pow10(18) == 1000000000000000000) by {
            reveal_with_fuel(pow10, 19);
        }
    }
    let mut acc: u64 = 0;
    let mut k: usize = i;
    while k < j
        invariant
            n == s@.len(),
            i <= k <= j <= n,
            j - i <= 18,
            forall|m: int| i <= m < j ==> is_digit(s@[m]),
            acc == digits_num(s@, i as int, k as int),
            acc < 1000000000000000000u64,
        decreases j - k,
    {
        proof {
            lemma_digits_num_bound(s@, i as int, k as int);
            lemma_pow10_le((k - i) as nat, 17);
            assert(pow10(17) == 100000000000000000) by {
                reveal_with_fuel(pow10, 19);
            }
        }
        let c: char = s.get_char(k);
        let d: u32 = (c as u32) - 48;
        acc = acc * 10 + (d as u64);
        k = k + 1;
        proof {
            lemma_digits_num_bound(s@, i as int, k as int);
            lemma_pow10_le((k - i) as nat, 18);
            assert(pow10(18) == 1000000000000000000) by {
                reveal_with_fuel(pow10, 19);
            }
        }
    }
    acc
}

/// `pow10` on a small exponent, as an executable value.
pub fn pow10_small(e: usize) -> (r: u64)
    requires
        e <= 6,
    ensures
        r as int == pow10(e as nat),
{
    proof {
        assert(pow10(0) == 1 && pow10(1) == 10 && pow10(2) == 100 && pow10(3) == 1000 && pow10(4)
            == 10000 && pow10(5) == 100000 && pow10(6) == 1000000) by {
            reveal_with_fuel(pow10, 8);
        }
    }
    if e == 0 {
        1
    } else if e == 1 {
        10
    } else if e == 2 {
        100
    } else if e == 3 {
        1000
    } else if e == 4 {
        10000
    } else if e == 5 {
        100000
    } else {
        1000000
    }
}

/// A fraction of at most six digits, scaled to millionths, stays under one
/// million.
pub proof fn lemma_frac_scale(fv: int, flen: nat)
    requires
        0 <= fv < pow10(flen),
        flen <= 6,
    ensures
        0 <= fv * pow10((6 - flen) as nat) < 1000000,
{
    lemma_pow10_le((6 - flen) as nat, 6);
    lemma_pow10_add(flen, (6 - flen) as nat);
    assert(pow10(6) == 1000000) by {
        reveal_with_fuel(pow10, 8);
    }
    assert(0 <= fv * pow10((6 - flen) as nat) < 1000000) by (nonlinear_arith)
        requires
            0 <= fv,
            fv < pow10(flen),
            pow10(flen) * pow10((6 - flen) as nat) == pow10(6),
            pow10(6) == 1000000,
            pow10((6 - flen) as nat) >= 1,
    {
    }
}

/// Strict lexicographic order on character sequences, by code point.
pub open spec fn spec_str_lt(a: Seq<char>, b: Seq<char>) -> bool
    decreases a.len(),
{
    if b.len() == 0 {
        false
    } else if a.len() == 0 {
        true
    } else if (a[0] as u32) < (b[0] as u32) {
        true
    } else if a[0] == b[0] {
        spec_str_lt(a.drop_first(), b.drop_first())
    } else {
        false
    }
}

/// Character-wise string equality, stated over the views.
pub fn str_eq(a: &str, b: &str) -> (r: bool)
    ensures
        r == (a@ == b@),
{
    let na: usize = a.unicode_len();
    let nb: usize = b.unicode_len();
    if na != nb {
        proof {
            assert(a@.len() != b@.len());
        }
        false
    } else {
        let mut i: usize = 0;
        while i < na
            invariant
                na == a@.len(),
                nb == b@.len(),
                na == nb,
                i <= na,
                forall|k: int| 0 <= k < i ==> a@[k] == b@[k],
            decreases na - i,
        {
            if a.get_char(i) != b.get_char(i) {
                return false;
            }
            i = i + 1;
        }
        proof {
            assert(a@ =~= b@);
        }
        true
    }
}

/// Executable lexicographic comparison, proved against `spec_str_lt`.
pub fn str_lt(a: &str, b: &str) -> (r: bool)
    ensures
        r == spec_str_lt(a@, b@),
{
    let na: usize = a.unicode_len();
    let nb: usize = b.unicode_len();
    let mut i: usize = 0;
    proof {
        assert(a@.skip(0) =~= a@);
        assert(b@.skip(0) =~= b@);
    }
    loop
        invariant
            na == a@.len(),
            nb == b@.len(),
            i <= na,
            i <= nb,
            spec_str_lt(a@, b@) == spec_str_lt(a@.skip(i as int), b@.skip(i as int)),
        decreases na - i,
    {
        if i == nb {
            proof {
                assert(b@.skip(i as int).len() == 0);
            }
            return false;
        }
        if i == na {
            proof {
                assert(a@.skip(i as int).len() == 0);
                assert(b@.skip(i as int).len() > 0);
            }
            return true;
        }
        let ca: char = a.get_char(i);
        let cb: char = b.get_char(i);
        proof {
            assert(a@.skip(i as int)[0] == a@[i as int]);
            assert(b@.skip(i as int)[0] == b@[i as int]);
        }
        if (ca as u32) < (cb as u32) {
            return true;
        }
        if ca != cb {
            return false;
        }
        proof {
            assert(a@.skip(i as int).drop_first() =~= a@.skip(i + 1));
            assert(b@.skip(i as int).drop_first() =~= b@.skip(i + 1));
        }
        i = i + 1;
    }
}

} // verus!
