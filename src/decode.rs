use vstd::prelude::*;
use vstd::string::{StrSliceExecFns, StringExecFns, StringSliceAdditionalSpecFns};
use vstd::utf8::{decode_utf8, valid_utf8};

use crate::error::RequestError;

verus! {

/// The value of a hexadecimal digit byte, in either case.
pub open spec fn hex_value(b: u8) -> Option<u8> {
    if 48 <= b <= 57 {
        Some((b - 48) as u8)
    } else if 65 <= b <= 70 {
        Some((b - 55) as u8)
    } else if 97 <= b <= 102 {
        Some((b - 87) as u8)
    } else {
        None
    }
}

/// Every `%` of `b` starts an escape: it is followed by two hex digits.
pub open spec fn escapes_well_formed(b: Seq<u8>) -> bool {
    forall|i: int| 0 <= i < b.len() ==> #[trigger] escape_at(b, i)
}

/// Byte `i` of `b` is no `%`, or a `%` followed by two hex digits.
pub open spec fn escape_at(b: Seq<u8>, i: int) -> bool {
    b[i] == 37 ==> i + 2 < b.len() && hex_value(b[i + 1]) is Some && hex_value(b[i + 2]) is Some
}

/// Percent-decoding: `%` and two hex digits become that byte; every other
/// byte, a lone or malformed `%` included, is kept.
pub open spec fn percent_decoded(b: Seq<u8>) -> Seq<u8>
    decreases b.len(),
{
    if b.len() == 0 {
        Seq::empty()
    } else if b[0] == 37 && b.len() >= 3 && hex_value(b[1]) is Some && hex_value(b[2]) is Some {
        seq![(hex_value(b[1])->0 * 16 + hex_value(b[2])->0) as u8] + percent_decoded(
            b.subrange(3, b.len() as int),
        )
    } else {
        seq![b[0]] + percent_decoded(b.subrange(1, b.len() as int))
    }
}

/// The text that a percent-encoded query stands for, if each of its `%`
/// starts an escape and the decoded bytes are UTF-8.
pub open spec fn decoded_query(s: Seq<char>) -> Option<Seq<char>> {
    let bytes = percent_decoded(vstd::utf8::encode_utf8(s));
    if escapes_well_formed(vstd::utf8::encode_utf8(s)) && valid_utf8(bytes) {
        Some(decode_utf8(bytes))
    } else {
        None
    }
}

/// The end of the `&`-separated pair of a query string that starts at `i`.
pub open spec fn pair_end(s: Seq<char>, i: int) -> int
    decreases s.len() - i,
{
    if i < 0 || i >= s.len() {
        s.len() as int
    } else if s[i] == '&' {
        i
    } else {
        pair_end(s, i + 1)
    }
}

proof fn lemma_pair_end_bounds(s: Seq<char>, i: int)
    requires
        0 <= i <= s.len(),
    ensures
        i <= pair_end(s, i) <= s.len(),
    decreases s.len() - i,
{
    if i < s.len() && s[i] != '&' {
        lemma_pair_end_bounds(s, i + 1);
    }
}

/// The raw value of the first pair `key=value` of a query string, looking
/// from the pair that starts at `i` on; the value is not decoded.
pub open spec fn parameter_from(s: Seq<char>, key: Seq<char>, i: int) -> Option<Seq<char>>
    decreases s.len() - i,
    via parameter_from_decreases
{
    if i < 0 || i > s.len() {
        None
    } else {
        let e = pair_end(s, i);
        if e - i >= key.len() + 1 && s.subrange(i, i + key.len()) == key && s[i + key.len()] == '=' {
            Some(s.subrange(i + key.len() + 1, e))
        } else if e < s.len() {
            parameter_from(s, key, e + 1)
        } else {
            None
        }
    }
}

#[via_fn]
proof fn parameter_from_decreases(s: Seq<char>, key: Seq<char>, i: int) {
    if 0 <= i <= s.len() {
        lemma_pair_end_bounds(s, i);
    }
}

fn pair_end_at(s: &str, n: usize, i: usize) -> (r: usize)
    requires
        n == s@.len(),
        i <= n,
    ensures
        r == pair_end(s@, i as int),
        i <= r <= n,
{
    let mut j: usize = i;
    while j < n && s.get_char(j) != '&'
        invariant
            n == s@.len(),
            i <= j <= n,
            pair_end(s@, i as int) == pair_end(s@, j as int),
        decreases n - j,
    {
        j = j + 1;
    }
    j
}

fn key_at(s: &str, n: usize, i: usize, key: &str, m: usize) -> (r: bool)
    requires
        n == s@.len(),
        m == key@.len(),
        i + m <= s@.len(),
    ensures
        r == (s@.subrange(i as int, i + m) == key@),
{
    let mut k: usize = 0;
    while k < m
        invariant
            n == s@.len(),
            m == key@.len(),
            i + m <= s@.len(),
            k <= m,
            forall|j: int| 0 <= j < k ==> s@[i + j] == key@[j],
        decreases m - k,
    {
        if s.get_char(i + k) != key.get_char(k) {
            assert(s@.subrange(i as int, i + m)[k as int] != key@[k as int]);
            return false;
        }
        k = k + 1;
    }
    assert(s@.subrange(i as int, i + m) =~= key@);
    true
}

/// The raw, still percent-encoded value of the first `key=value` pair of a
/// query string.
pub fn query_parameter(query_string: &str, key: &str) -> (r: Option<String>)
    ensures
        match parameter_from(query_string@, key@, 0) {
            Some(v) => r is Some && r->0@ == v,
            None => r is None,
        },
{
    let n = query_string.unicode_len();
    let m = key.unicode_len();
    let mut i: usize = 0;
    while i <= n
        invariant
            n == query_string@.len(),
            m == key@.len(),
            i <= n + 1,
            parameter_from(query_string@, key@, 0) == parameter_from(query_string@, key@, i as int),
        decreases n + 1 - i,
    {
        let e = pair_end_at(query_string, n, i);
        if e - i > m && key_at(query_string, n, i, key, m) && query_string.get_char(i + m) == '=' {
            let v = query_string.substring_char(i + m + 1, e);
            return Some(v.to_owned());
        }
        if e < n {
            i = e + 1;
        } else {
            return None;
        }
    }
    None
}

/// Relies on percent_encoding::percent_decode_str and
/// PercentDecode::decode_utf8: the percent-decoded bytes read as UTF-8, and an
/// error exactly where they are not UTF-8.
#[verifier::external_body]
fn percent_decode_utf8(s: &str) -> (r: Option<String>)
    ensures
        r is Some <==> valid_utf8(percent_decoded(s.spec_bytes())),
        r is Some ==> r->0@ == decode_utf8(percent_decoded(s.spec_bytes())),
{
    percent_encoding::percent_decode_str(s).decode_utf8().ok().map(|c| c.into_owned())
}

fn is_hex_digit(b: u8) -> (r: bool)
    ensures
        r == (hex_value(b) is Some),
{
    (48 <= b && b <= 57) || (65 <= b && b <= 70) || (97 <= b && b <= 102)
}

/// Whether every `%` of `b` is followed by two hex digits.
pub fn has_well_formed_escapes(b: &[u8]) -> (r: bool)
    ensures
        r == escapes_well_formed(b@),
{
    let n = b.len();
    let mut i: usize = 0;
    while i < n
        invariant
            n == b@.len(),
            i <= n,
            forall|k: int| 0 <= k < i ==> #[trigger] escape_at(b@, k),
        decreases n - i,
    {
        if b[i] == 37 {
            if n - i <= 2 || !is_hex_digit(b[i + 1]) || !is_hex_digit(b[i + 2]) {
                assert(!escape_at(b@, i as int));
                return false;
            }
        }
        assert(escape_at(b@, i as int));
        i = i + 1;
    }
    true
}

/// Decodes the transport encoding of a query: a `%` that does not start an
/// escape, or decoded bytes that are not UTF-8, make it invalid input.
pub fn decode_query(query: &str) -> (r: Result<String, RequestError>)
    ensures
        match decoded_query(query@) {
            Some(t) => r is Ok && r->Ok_0@ == t,
            None => r matches Err(RequestError::InvalidInput),
        },
{
    if !has_well_formed_escapes(query.as_bytes()) {
        return Err(RequestError::InvalidInput);
    }
    match percent_decode_utf8(query) {
        Some(t) => Ok(t),
        None => Err(RequestError::InvalidInput),
    }
}

/// The statement that materialises a query as a temporary table, dropped
/// when its transaction ends.
pub open spec fn setup_statement_of(query: Seq<char>) -> Seq<char> {
    "CREATE TEMP TABLE tmp\n    ON COMMIT DROP\nAS\n"@ + query
}

/// Builds the statement that materialises `query` as the temporary table.
pub fn setup_statement(query: &str) -> (r: String)
    ensures
        r@ == setup_statement_of(query@),
{
    let mut s = "CREATE TEMP TABLE tmp\n    ON COMMIT DROP\nAS\n".to_owned();
    s.append(query);
    s
}

/// The catalog query for the columns and declared types of this session's
/// temporary table, in ordinal order.
pub open spec fn metadata_statement_text() -> Seq<char> {
    "SELECT column_name, data_type\nFROM information_schema.columns\nWHERE table_name = 'tmp'\n    AND table_schema = (SELECT nspname FROM pg_namespace WHERE oid = pg_my_temp_schema())\nORDER BY ordinal_position"@
}

/// The query for every row of the temporary table.
pub open spec fn rows_statement_text() -> Seq<char> {
    "SELECT *\nFROM tmp"@
}

/// Lists the temporary table's columns with their declared types, in order.
pub fn metadata_statement() -> (r: String)
    ensures
        r@ == metadata_statement_text(),
{
    "SELECT column_name, data_type\nFROM information_schema.columns\nWHERE table_name = 'tmp'\n    AND table_schema = (SELECT nspname FROM pg_namespace WHERE oid = pg_my_temp_schema())\nORDER BY ordinal_position".to_owned()
}

/// Reads every row of the temporary table.
pub fn rows_statement() -> (r: String)
    ensures
        r@ == rows_statement_text(),
{
    "SELECT *\nFROM tmp".to_owned()
}

} // verus!
