//! The value layer: converting literal tokens into structured scalars.
//!
//! Only the conversion itself lives here; the tree exposes literal nodes and
//! never evaluates them.  A float is carried as its exact spelling.

use vstd::prelude::*;

use crate::kinds::{TOKEN_FLOAT, TOKEN_INTEGER, TOKEN_PATH};
use crate::tree::Meta;

verus! {

/// A structured scalar a literal node converts to.
#[derive(Clone, PartialEq, Eq, Debug)]
pub enum NixValue {
    Integer(i64),
    /// A float, by its exact source spelling.
    Float(Vec<char>),
    Path(Vec<char>),
    Bool(bool),
    Null,
}

/// Why a literal did not convert.
#[derive(Clone, Copy, PartialEq, Eq, Structural, Debug)]
pub enum ValueError {
    /// The token is no scalar literal.
    NotAScalar,
    /// The integer does not fit the machine representation.
    Overflow,
}

/// Every character is a decimal digit.
pub open spec fn all_digits(s: Seq<char>) -> bool {
    forall|i: int| 0 <= i < s.len() ==> '0' as int <= #[trigger] s[i] as int <= '9' as int
}

/// A non-empty run of decimal digits.
pub open spec fn is_digits(s: Seq<char>) -> bool {
    s.len() > 0 && all_digits(s)
}

/// The number a run of decimal digits spells.
pub open spec fn digits_val(s: Seq<char>) -> int
    decreases s.len(),
{
    if s.len() == 0 {
        0
    } else {
        digits_val(s.drop_last()) * 10 + (s.last() as int - '0' as int)
    }
}

proof fn lemma_digits_val_nonneg(s: Seq<char>)
    requires
        all_digits(s),
    ensures
        digits_val(s) >= 0,
    decreases s.len(),
{
    if s.len() > 0 {
        assert(all_digits(s.drop_last()));
        lemma_digits_val_nonneg(s.drop_last());
        assert(digits_val(s) >= 0) by (nonlinear_arith)
            requires
                digits_val(s) == digits_val(s.drop_last()) * 10 + (s.last() as int - '0' as int),
                digits_val(s.drop_last()) >= 0,
                s.last() as int - '0' as int >= 0,
        {
        }
    }
}

proof fn lemma_digits_val_take_step(s: Seq<char>, j: int)
    requires
        0 <= j < s.len(),
    ensures
        digits_val(s.take(j + 1)) == digits_val(s.take(j)) * 10 + (s[j] as int - '0' as int),
{
    assert(s.take(j + 1).drop_last() =~= s.take(j));
    assert(s.take(j + 1).last() == s[j]);
}

proof fn lemma_digits_val_take_le(s: Seq<char>, k: int)
    requires
        all_digits(s),
        0 <= k <= s.len(),
    ensures
        digits_val(s.take(k)) <= digits_val(s),
    decreases s.len() - k,
{
    if k < s.len() {
        lemma_digits_val_take_step(s, k);
        assert(all_digits(s.take(k)));
        lemma_digits_val_nonneg(s.take(k));
        assert(digits_val(s.take(k + 1)) >= digits_val(s.take(k))) by (nonlinear_arith)
            requires
                digits_val(s.take(k + 1)) == digits_val(s.take(k)) * 10 + (s[k] as int
                    - '0' as int),
                digits_val(s.take(k)) >= 0,
                s[k] as int - '0' as int >= 0,
        {
        }
        lemma_digits_val_take_le(s, k + 1);
    } else {
        assert(s.take(k) =~= s);
    }
}

/// Parse a run of decimal digits into a machine integer: the spelled number
/// exactly when the text is a digit run and the number fits, and otherwise
/// the error saying which of the two failed.
pub fn parse_integer(t: &str) -> (r: Result<i64, ValueError>)
    ensures
        r matches Ok(v) ==> is_digits(t@) && v as int == digits_val(t@),
        r == Err::<i64, ValueError>(ValueError::NotAScalar) <==> !is_digits(t@),
        r == Err::<i64, ValueError>(ValueError::Overflow) <==> is_digits(t@) && digits_val(t@)
            > i64::MAX,
{
    let n = t.unicode_len();
    if n == 0 {
        return Err(ValueError::NotAScalar);
    }
    // First pass: the text must be digits throughout.
    let mut j: usize = 0;
    while j < n
        invariant
            j <= n,
            n == t@.len(),
            forall|i: int| 0 <= i < j ==> '0' as int <= #[trigger] t@[i] as int <= '9' as int,
        decreases n - j,
    {
        let c = t.get_char(j);
        if !('0' <= c && c <= '9') {
            return Err(ValueError::NotAScalar);
        }
        j += 1;
    }
    assert(is_digits(t@));
    // Second pass: accumulate, watching the machine bound.
    let mut acc: i64 = 0;
    let mut k: usize = 0;
    while k < n
        invariant
            k <= n,
            n == t@.len(),
            is_digits(t@),
            0 <= acc,
            acc as int == digits_val(t@.take(k as int)),
        decreases n - k,
    {
        let c = t.get_char(k);
        assert('0' as int <= c as int <= '9' as int);
        let d = (c as u32) - ('0' as u32);
        proof {
            lemma_digits_val_take_step(t@, k as int);
        }
        if acc > 922337203685477580i64 || (acc == 922337203685477580i64 && d > 7) {
            proof {
                lemma_digits_val_take_le(t@, k as int + 1);
            }
            return Err(ValueError::Overflow);
        }
        acc = acc * 10 + (d as i64);
        k += 1;
    }
    proof {
        assert(t@.take(n as int) =~= t@);
    }
    Ok(acc)
}

/// Copy the characters of a token's text.
fn chars_of(t: &str) -> (r: Vec<char>)
    ensures
        r@ == t@,
{
    let n = t.unicode_len();
    let mut out: Vec<char> = Vec::new();
    let mut j: usize = 0;
    while j < n
        invariant
            j <= n,
            n == t@.len(),
            out@ == t@.take(j as int),
        decreases n - j,
    {
        out.push(t.get_char(j));
        assert(out@ =~= t@.take(j + 1 as int));
        j += 1;
    }
    assert(t@.take(n as int) =~= t@);
    out
}

/// True of the spelling `true`.
fn spells_true(t: &str) -> (r: bool)
    ensures
        r <==> t@ =~= seq!['t', 'r', 'u', 'e'],
{
    let n = t.unicode_len();
    if n == 4 {
        let ok = t.get_char(0) == 't' && t.get_char(1) == 'r' && t.get_char(2) == 'u'
            && t.get_char(3) == 'e';
        proof {
            if ok {
                assert(t@ =~= seq!['t', 'r', 'u', 'e']);
            }
        }
        ok
    } else {
        false
    }
}

/// True of the spelling `false`.
fn spells_false(t: &str) -> (r: bool)
    ensures
        r <==> t@ =~= seq!['f', 'a', 'l', 's', 'e'],
{
    let n = t.unicode_len();
    if n == 5 {
        let ok = t.get_char(0) == 'f' && t.get_char(1) == 'a' && t.get_char(2) == 'l'
            && t.get_char(3) == 's' && t.get_char(4) == 'e';
        proof {
            if ok {
                assert(t@ =~= seq!['f', 'a', 'l', 's', 'e']);
            }
        }
        ok
    } else {
        false
    }
}

/// True of the spelling `null`.
fn spells_null(t: &str) -> (r: bool)
    ensures
        r <==> t@ =~= seq!['n', 'u', 'l', 'l'],
{
    let n = t.unicode_len();
    if n == 4 {
        let ok = t.get_char(0) == 'n' && t.get_char(1) == 'u' && t.get_char(2) == 'l'
            && t.get_char(3) == 'l';
        proof {
            if ok {
                assert(t@ =~= seq!['n', 'u', 'l', 'l']);
            }
        }
        ok
    } else {
        false
    }
}

/// What converting one literal terminal yields: an integer by its spelled
/// number, a float or a path by its spelling, the three scalar words, and a
/// conversion failure for anything else.
pub open spec fn scalar_post(m: Meta, r: Result<NixValue, ValueError>) -> bool {
    &&& m.kind == TOKEN_INTEGER && is_digits(m.token@) && digits_val(m.token@) <= i64::MAX ==> (
    r matches Ok(v) && v matches NixValue::Integer(x) && x as int == digits_val(m.token@))
    &&& m.kind == TOKEN_INTEGER && is_digits(m.token@) && digits_val(m.token@) > i64::MAX ==> r
        == Err::<NixValue, ValueError>(ValueError::Overflow)
    &&& m.kind == TOKEN_FLOAT ==> (r matches Ok(v) && v matches NixValue::Float(c) && c@
        == m.token@)
    &&& m.kind == TOKEN_PATH ==> (r matches Ok(v) && v matches NixValue::Path(c) && c@
        == m.token@)
    &&& m.token@ =~= seq!['t', 'r', 'u', 'e'] && m.kind != TOKEN_INTEGER && m.kind != TOKEN_FLOAT
        && m.kind != TOKEN_PATH ==> r == Ok::<NixValue, ValueError>(NixValue::Bool(true))
    &&& m.token@ =~= seq!['f', 'a', 'l', 's', 'e'] && m.kind != TOKEN_INTEGER && m.kind
        != TOKEN_FLOAT && m.kind != TOKEN_PATH ==> r == Ok::<NixValue, ValueError>(
        NixValue::Bool(false),
    )
    &&& m.token@ =~= seq!['n', 'u', 'l', 'l'] && m.kind != TOKEN_INTEGER && m.kind != TOKEN_FLOAT
        && m.kind != TOKEN_PATH ==> r == Ok::<NixValue, ValueError>(NixValue::Null)
    &&& m.kind == TOKEN_INTEGER && !is_digits(m.token@) ==> r == Err::<NixValue, ValueError>(
        ValueError::NotAScalar,
    )
    &&& m.kind != TOKEN_INTEGER && m.kind != TOKEN_FLOAT && m.kind != TOKEN_PATH && !(m.token@
        =~= seq!['t', 'r', 'u', 'e']) && !(m.token@ =~= seq!['f', 'a', 'l', 's', 'e']) && !(
    m.token@ =~= seq!['n', 'u', 'l', 'l']) ==> r == Err::<NixValue, ValueError>(
        ValueError::NotAScalar,
    )
}

/// Convert one literal terminal into a structured scalar, as `scalar_post`
/// says.
pub fn scalar_of(m: &Meta) -> (r: Result<NixValue, ValueError>)
    ensures
        scalar_post(*m, r),
{
    if m.kind == TOKEN_INTEGER {
        match parse_integer(m.token.as_str()) {
            Ok(v) => Ok(NixValue::Integer(v)),
            Err(e) => Err(e),
        }
    } else if m.kind == TOKEN_FLOAT {
        Ok(NixValue::Float(chars_of(m.token.as_str())))
    } else if m.kind == TOKEN_PATH {
        Ok(NixValue::Path(chars_of(m.token.as_str())))
    } else if spells_true(m.token.as_str()) {
        Ok(NixValue::Bool(true))
    } else if spells_false(m.token.as_str()) {
        Ok(NixValue::Bool(false))
    } else if spells_null(m.token.as_str()) {
        Ok(NixValue::Null)
    } else {
        Err(ValueError::NotAScalar)
    }
}

} // verus!
