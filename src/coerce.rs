use vstd::prelude::*;
use vstd::string::StrSliceExecFns;

use crate::error::RequestError;

verus! {

/// A cell as the contracts see it.
pub enum CellValue {
    Null,
    Bool(bool),
    Number(Seq<char>),
    Text(Seq<char>),
}

/// A JSON-compatible cell. A number keeps the numeric literal it was read
/// from; the literal always parses as a 64-bit float.
#[derive(Debug, Clone, PartialEq)]
pub enum TypedCell {
    Null,
    Bool(bool),
    Number(String),
    Text(String),
}

impl View for TypedCell {
    type V = CellValue;

    open spec fn view(&self) -> CellValue {
        match self {
            TypedCell::Null => CellValue::Null,
            TypedCell::Bool(b) => CellValue::Bool(*b),
            TypedCell::Number(s) => CellValue::Number(s@),
            TypedCell::Text(s) => CellValue::Text(s@),
        }
    }
}

/// How the cells of a column are read, decided by its declared type.
#[derive(Debug, Clone, Copy, PartialEq, Eq)]
pub enum CoercionRule {
    Boolean,
    Numeric,
    Verbatim,
}

pub open spec fn rule_of(declared_type: Seq<char>) -> CoercionRule {
    if declared_type == "boolean"@ {
        CoercionRule::Boolean
    } else if declared_type == "integer"@ || declared_type == "smallint"@ || declared_type
        == "bigint"@ {
        CoercionRule::Numeric
    } else {
        CoercionRule::Verbatim
    }
}

pub open spec fn is_digit(c: char) -> bool {
    '0' <= c && c <= '9'
}

pub open spec fn is_sign(c: char) -> bool {
    c == '+' || c == '-'
}

/// `c` is the lower-case letter `w` in either case.
pub open spec fn letter_is(c: char, w: char) -> bool {
    c == w || (c as int) + 32 == (w as int)
}

/// Number of consecutive digits of `s` starting at `i`.
pub open spec fn digit_run(s: Seq<char>, i: int) -> int
    decreases s.len() - i,
{
    if i < 0 || i >= s.len() || !is_digit(s[i]) {
        0
    } else {
        1 + digit_run(s, i + 1)
    }
}

/// From `j` on, `s` is empty or an exponent: `e`, an optional sign, digits.
pub open spec fn exponent_from(s: Seq<char>, j: int) -> bool {
    j == s.len() || (j < s.len() && letter_is(s[j], 'e') && {
        let k = if j + 1 < s.len() && is_sign(s[j + 1]) {
            j + 2
        } else {
            j + 1
        };
        digit_run(s, k) > 0 && k + digit_run(s, k) == s.len()
    })
}

/// From `i` on, `s` is digits with an optional point (at least one digit in
/// all), then an optional exponent.
pub open spec fn decimal_from(s: Seq<char>, i: int) -> bool {
    let a = digit_run(s, i);
    let p = i + a;
    if p < s.len() && s[p] == '.' {
        let b = digit_run(s, p + 1);
        (a > 0 || b > 0) && exponent_from(s, p + 1 + b)
    } else {
        a > 0 && exponent_from(s, p)
    }
}

/// From `i` on, `s` is the word `w` (lower case) in any mix of cases.
pub open spec fn word_from(s: Seq<char>, i: int, w: Seq<char>) -> bool {
    s.len() - i == w.len() && forall|k: int| 0 <= k < w.len() ==> letter_is(#[trigger] s[i + k], w[k])
}

/// The strings that parse as a 64-bit float: an optional sign, then `inf`,
/// `infinity`, `nan` (any case) or a decimal number with optional exponent.
pub open spec fn numeric_literal(s: Seq<char>) -> bool {
    let i = if s.len() > 0 && is_sign(s[0]) {
        1int
    } else {
        0int
    };
    word_from(s, i, "inf"@) || word_from(s, i, "infinity"@) || word_from(s, i, "nan"@)
        || decimal_from(s, i)
}

/// The coercion of one raw cell under a rule; `None` is a conversion failure.
pub open spec fn coerced(rule: CoercionRule, raw: Option<Seq<char>>) -> Option<CellValue> {
    match raw {
        None => Some(CellValue::Null),
        Some(t) => match rule {
            CoercionRule::Boolean => Some(CellValue::Bool(t == seq!['t'])),
            CoercionRule::Numeric => if numeric_literal(t) {
                Some(CellValue::Number(t))
            } else {
                None
            },
            CoercionRule::Verbatim => Some(CellValue::Text(t)),
        },
    }
}

/// A present cell of a boolean column is true exactly when its text is `t`,
/// and never fails.
pub proof fn lemma_boolean_cells(raw: Seq<char>)
    ensures
        coerced(rule_of("boolean"@), Some(raw)) == Some(CellValue::Bool(raw == "t"@)),
{
    reveal_strlit("t");
    assert("t"@ =~= seq!['t']);
}

/// An absent cell is null, whatever the declared type.
pub proof fn lemma_absent_cells(declared_type: Seq<char>)
    ensures
        coerced(rule_of(declared_type), None) == Some(CellValue::Null),
{
}

pub open spec fn text_of(raw: Option<&str>) -> Option<Seq<char>> {
    match raw {
        Some(s) => Some(s@),
        None => None,
    }
}

/// Whether two strings hold the same characters.
pub fn same_text(a: &str, b: &str) -> (r: bool)
    ensures
        r == (a@ == b@),
{
    let n = a.unicode_len();
    if n != b.unicode_len() {
        return false;
    }
    let mut i: usize = 0;
    while i < n
        invariant
            n == a@.len(),
            n == b@.len(),
            i <= n,
            forall|k: int| 0 <= k < i ==> a@[k] == b@[k],
        decreases n - i,
    {
        if a.get_char(i) != b.get_char(i) {
            return false;
        }
        i = i + 1;
    }
    assert(a@ =~= b@);
    true
}

/// The rule for a declared type; the match on the type name is case-sensitive.
pub fn rule_for(declared_type: &str) -> (r: CoercionRule)
    ensures
        r == rule_of(declared_type@),
{
    if same_text(declared_type, "boolean") {
        CoercionRule::Boolean
    } else if same_text(declared_type, "integer") || same_text(declared_type, "smallint")
        || same_text(declared_type, "bigint") {
        CoercionRule::Numeric
    } else {
        CoercionRule::Verbatim
    }
}

fn digit_run_at(s: &str, n: usize, i: usize) -> (r: usize)
    requires
        n == s@.len(),
        i <= n,
    ensures
        r == digit_run(s@, i as int),
        i + r <= n,
{
    let mut j: usize = i;
    while j < n && is_digit_char(s.get_char(j))
        invariant
            n == s@.len(),
            i <= j <= n,
            digit_run(s@, i as int) == (j - i) + digit_run(s@, j as int),
        decreases n - j,
    {
        j = j + 1;
    }
    j - i
}

fn is_digit_char(c: char) -> (r: bool)
    ensures
        r == is_digit(c),
{
    '0' <= c && c <= '9'
}

fn is_sign_char(c: char) -> (r: bool)
    ensures
        r == is_sign(c),
{
    c == '+' || c == '-'
}

fn letter_matches(c: char, w: char) -> (r: bool)
    requires
        'a' <= w <= 'z',
    ensures
        r == letter_is(c, w),
{
    c == w || (c as u32) + 32 == (w as u32)
}

fn word_at(s: &str, n: usize, i: usize, w: &str) -> (r: bool)
    requires
        n == s@.len(),
        i <= n,
        forall|k: int| 0 <= k < w@.len() ==> 'a' <= #[trigger] w@[k] <= 'z',
    ensures
        r == word_from(s@, i as int, w@),
{
    let m = w.unicode_len();
    if n - i != m {
        return false;
    }
    let mut k: usize = 0;
    while k < m
        invariant
            n == s@.len(),
            m == w@.len(),
            n - i == m,
            i <= n,
            k <= m,
            forall|j: int| 0 <= j < w@.len() ==> 'a' <= #[trigger] w@[j] <= 'z',
            forall|j: int| 0 <= j < k ==> letter_is(#[trigger] s@[i + j], w@[j]),
        decreases m - k,
    {
        let wc = w.get_char(k);
        if !letter_matches(s.get_char(i + k), wc) {
            return false;
        }
        k = k + 1;
    }
    true
}

fn exponent_at(s: &str, n: usize, j: usize) -> (r: bool)
    requires
        n == s@.len(),
        j <= n,
    ensures
        r == exponent_from(s@, j as int),
{
    if j == n {
        return true;
    }
    if !letter_matches(s.get_char(j), 'e') {
        return false;
    }
    let k: usize = if j + 1 < n && is_sign_char(s.get_char(j + 1)) {
        j + 2
    } else {
        j + 1
    };
    let d = digit_run_at(s, n, k);
    d > 0 && k + d == n
}

fn decimal_at(s: &str, n: usize, i: usize) -> (r: bool)
    requires
        n == s@.len(),
        i <= n,
    ensures
        r == decimal_from(s@, i as int),
{
    let a = digit_run_at(s, n, i);
    let p = i + a;
    if p < n && s.get_char(p) == '.' {
        let b = digit_run_at(s, n, p + 1);
        (a > 0 || b > 0) && exponent_at(s, n, p + 1 + b)
    } else {
        a > 0 && exponent_at(s, n, p)
    }
}

/// Whether `s` is a numeric literal, that is, whether it parses as a 64-bit float.
pub fn is_numeric_literal(s: &str) -> (r: bool)
    ensures
        r == numeric_literal(s@),
{
    let n = s.unicode_len();
    let i: usize = if n > 0 && is_sign_char(s.get_char(0)) {
        1
    } else {
        0
    };
    proof {
        reveal_strlit("inf");
        reveal_strlit("infinity");
        reveal_strlit("nan");
    }
    word_at(s, n, i, "inf") || word_at(s, n, i, "infinity") || word_at(s, n, i, "nan")
        || decimal_at(s, n, i)
}

/// Coerces one raw cell under a rule: an absent cell is null; a boolean is
/// true exactly for `t`; a numeric cell must be a numeric literal; any other
/// cell is kept as text.
pub fn coerce_with(rule: CoercionRule, raw: Option<&str>) -> (r: Result<TypedCell, RequestError>)
    ensures
        match coerced(rule, text_of(raw)) {
            Some(v) => r is Ok && r->Ok_0@ == v,
            None => r matches Err(RequestError::TypeConversion(t)) && t@ == raw->0@,
        },
{
    match raw {
        None => Ok(TypedCell::Null),
        Some(t) => match rule {
            CoercionRule::Boolean => {
                proof {
                    reveal_strlit("t");
                }
                let b = same_text(t, "t");
                assert("t"@ =~= seq!['t']);
                Ok(TypedCell::Bool(b))
            },
            CoercionRule::Numeric => if is_numeric_literal(t) {
                Ok(TypedCell::Number(t.to_owned()))
            } else {
                Err(RequestError::TypeConversion(t.to_owned()))
            },
            CoercionRule::Verbatim => Ok(TypedCell::Text(t.to_owned())),
        },
    }
}

/// Coerces one raw cell given its column's declared type.
pub fn coerce(declared_type: &str, raw: Option<&str>) -> (r: Result<TypedCell, RequestError>)
    ensures
        match coerced(rule_of(declared_type@), text_of(raw)) {
            Some(v) => r is Ok && r->Ok_0@ == v,
            None => r matches Err(RequestError::TypeConversion(t)) && t@ == raw->0@,
        },
{
    coerce_with(rule_for(declared_type), raw)
}

} // verus!
