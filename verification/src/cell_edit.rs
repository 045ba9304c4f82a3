//! Interpretation of the text typed into the cell editor as a new cell
//! value, following the column's type and the cell's current value.

use vstd::prelude::*;
use crate::grid::{QueryValue, CellValue};
use crate::text::{
    ascii_lower, string_of,
    chars_of, string_from_chars, trim, trim_chars, eq_ignore_case, eq_ignore_ascii_case,
    chars_eq, contains_seq, contains_str, spec_to_lowercase, to_lowercase,
};

verus! {

/// An ASCII decimal digit.
pub open spec fn is_digit(c: char) -> bool {
    0x30 <= (c as u32) <= 0x39
}

/// The number written by a sequence of decimal digits.
pub open spec fn digits_value(d: Seq<char>) -> int
    decreases d.len(),
{
    if d.len() == 0 {
        0
    } else {
        digits_value(d.drop_last()) * 10 + ((d.last() as u32) - 0x30)
    }
}

/// Every character is an ASCII digit.
pub open spec fn all_digits(d: Seq<char>) -> bool {
    forall|k: int| 0 <= k < d.len() ==> is_digit(#[trigger] d[k])
}

/// The text after an optional leading `+` or `-` sign.
pub open spec fn unsigned_part(s: Seq<char>) -> Seq<char> {
    if s.len() > 0 && (s[0] == '-' || s[0] == '+') {
        s.drop_first()
    } else {
        s
    }
}

/// `i64::from_str`: an optional `+` or `-` sign followed by one or more
/// ASCII digits, whose value fits in an `i64`.
pub open spec fn parse_i64(s: Seq<char>) -> Option<i64> {
    let d = unsigned_part(s);
    let neg = s.len() > 0 && s[0] == '-';
    if d.len() == 0 || !all_digits(d) {
        None
    } else {
        let v = if neg {
            -digits_value(d)
        } else {
            digits_value(d)
        };
        if i64::MIN <= v <= i64::MAX {
            Some(v as i64)
        } else {
            None
        }
    }
}

/// A boolean typed as `1`/`0` or `true`/`false` in any ASCII case.
pub open spec fn parse_bool(t: Seq<char>) -> Option<bool> {
    if t == "1"@ || eq_ignore_case(t, "true"@) {
        Some(true)
    } else if t == "0"@ || eq_ignore_case(t, "false"@) {
        Some(false)
    } else {
        None
    }
}

/// An integer if the trimmed text parses as one, else the raw text.
pub open spec fn int_or_text(t: Seq<char>, text: Seq<char>) -> CellValue {
    match parse_i64(t) {
        Some(i) => CellValue::Int(i),
        None => CellValue::Text(text),
    }
}

/// A float if the caller's parse of the trimmed text succeeded, else the raw text.
pub open spec fn float_or_text(parsed_float: Option<u64>, text: Seq<char>) -> CellValue {
    match parsed_float {
        Some(b) => CellValue::Float(b),
        None => CellValue::Text(text),
    }
}

/// A boolean if the trimmed text is one, else the raw text.
pub open spec fn bool_or_text(t: Seq<char>, text: Seq<char>) -> CellValue {
    match parse_bool(t) {
        Some(b) => CellValue::Bool(b),
        None => CellValue::Text(text),
    }
}

/// Whether a lower-cased column type names a floating or decimal type.
pub open spec fn is_float_type(type_lower: Seq<char>) -> bool {
    ||| contains_seq(type_lower, "float"@)
    ||| contains_seq(type_lower, "double"@)
    ||| contains_seq(type_lower, "numeric"@)
    ||| contains_seq(type_lower, "decimal"@)
}

/// The value that the edited `text` stands for, given the cell's current
/// value, the lower-cased column type, and the caller's parse of the trimmed
/// text as a float (its IEEE-754 bits, or `None` if it is no float).
///
/// `NULL`, `<auto>` and `<default>` (any ASCII case, surrounding whitespace
/// ignored) are kept as such; blank text is `NULL` unless the column is a
/// character or text column; otherwise the text is read by the kind of the
/// current value (for a `NULL` cell, by the column type), and kept as text
/// when it does not read as that kind.
pub open spec fn edited_value(
    text: Seq<char>,
    orig: CellValue,
    type_lower: Seq<char>,
    parsed_float: Option<u64>,
) -> CellValue {
    let t = trim(text);
    if eq_ignore_case(t, "null"@) {
        CellValue::Null
    } else if eq_ignore_case(t, "<auto>"@) {
        CellValue::Text("<auto>"@)
    } else if eq_ignore_case(t, "<default>"@) {
        CellValue::Text("<default>"@)
    } else if t.len() == 0 && !contains_seq(type_lower, "char"@) && !contains_seq(
        type_lower,
        "text"@,
    ) {
        CellValue::Null
    } else {
        match orig {
            CellValue::Null => {
                if contains_seq(type_lower, "int"@) || contains_seq(type_lower, "serial"@) {
                    int_or_text(t, text)
                } else if is_float_type(type_lower) {
                    float_or_text(parsed_float, text)
                } else if contains_seq(type_lower, "bool"@) {
                    bool_or_text(t, text)
                } else {
                    CellValue::Text(text)
                }
            },
            CellValue::Bool(_) => bool_or_text(t, text),
            CellValue::Int(_) => int_or_text(t, text),
            CellValue::Float(_) => float_or_text(parsed_float, text),
            CellValue::DateTime(_) => CellValue::DateTime(text),
            CellValue::Bytes(_) => CellValue::Text(text),
            CellValue::Text(_) => CellValue::Text(text),
        }
    }
}

/// The value of a digit sequence is at least that of any of its prefixes.
pub proof fn lemma_digits_monotone(d: Seq<char>, k: int)
    requires
        0 <= k <= d.len(),
        forall|j: int| 0 <= j < d.len() ==> is_digit(#[trigger] d[j]),
    ensures
        digits_value(d) >= digits_value(d.take(k)),
        digits_value(d.take(k)) >= 0,
    decreases d.len() - k,
{
    if k < d.len() {
        lemma_digits_monotone(d, k + 1);
        assert(d.take(k + 1).drop_last() =~= d.take(k));
        assert(is_digit(d[k]));
    } else {
        assert(d.take(k) =~= d);
        lemma_digits_nonneg(d);
    }
}

/// The value of a digit sequence is not negative.
pub proof fn lemma_digits_nonneg(d: Seq<char>)
    requires
        forall|j: int| 0 <= j < d.len() ==> is_digit(#[trigger] d[j]),
    ensures
        digits_value(d) >= 0,
    decreases d.len(),
{
    if d.len() > 0 {
        let p = d.drop_last();
        assert forall|j: int| 0 <= j < p.len() implies is_digit(#[trigger] p[j]) by {
            assert(p[j] == d[j]);
        }
        lemma_digits_nonneg(p);
        assert(is_digit(d[d.len() - 1]));
    }
}

/// `i64::from_str` on the characters.
pub fn parse_i64_chars(s: &Vec<char>) -> (res: Option<i64>)
    ensures
        res == parse_i64(s@),
{
    let n = s.len();
    if n == 0 {
        return None;
    }
    let mut start: usize = 0;
    let mut neg = false;
    if s[0] == '-' {
        neg = true;
        start = 1;
    } else if s[0] == '+' {
        start = 1;
    }
    let ghost d = if start == 1 {
        s@.drop_first()
    } else {
        s@
    };
    proof {
        assert(d =~= s@.subrange(start as int, n as int));
        assert(d == unsigned_part(s@));
    }
    if start == n {
        return None;
    }
    let mut acc: u128 = 0;
    let mut i: usize = start;
    proof {
        assert(d.take(0) =~= Seq::<char>::empty());
    }
    while i < n
        invariant
            n == s.len(),
            start <= i <= n,
            start <= 1,
            d == s@.subrange(start as int, n as int),
            d == unsigned_part(s@),
            neg == (s@.len() > 0 && s@[0] == '-'),
            d.len() == n - start,
            forall|j: int| 0 <= j < i - start ==> is_digit(#[trigger] d[j]),
            acc == digits_value(d.take(i - start)),
            acc <= 9223372036854775808u128,
        decreases n - i,
    {
        let c = s[i];
        let u = c as u32;
        assert(d[i - start] == c);
        if u < 0x30 || u > 0x39 {
            assert(!is_digit(d[i - start]));
            assert(!all_digits(d));
            return None;
        }
        proof {
            assert(d.take(i - start + 1).drop_last() =~= d.take(i - start));
            assert(d.take(i - start + 1).last() == c);
        }
        acc = acc * 10 + ((u - 0x30) as u128);
        i += 1;
        if acc > 9223372036854775808u128 {
            proof {
                if all_digits(d) {
                    lemma_digits_monotone(d, i - start);
                    assert(digits_value(d) > 9223372036854775808);
                }
            }
            return None;
        }
    }
    proof {
        assert(d.take(n - start) =~= d);
    }
    if neg {
        let v: i128 = -(acc as i128);
        Some(v as i64)
    } else {
        if acc > 9223372036854775807u128 {
            None
        } else {
            Some(acc as i64)
        }
    }
}

fn parse_bool_chars(t: &Vec<char>) -> (res: Option<bool>)
    ensures
        res == parse_bool(t@),
{
    if chars_eq(t, "1") || eq_ignore_ascii_case(t, "true") {
        Some(true)
    } else if chars_eq(t, "0") || eq_ignore_ascii_case(t, "false") {
        Some(false)
    } else {
        None
    }
}

fn int_or_text_exec(t: &Vec<char>, text: &str) -> (res: QueryValue)
    ensures
        res@ == int_or_text(t@, text@),
{
    match parse_i64_chars(t) {
        Some(i) => QueryValue::Int(i),
        None => QueryValue::String(string_of(text)),
    }
}

fn float_or_text_exec(parsed_float: Option<u64>, text: &str) -> (res: QueryValue)
    ensures
        res@ == float_or_text(parsed_float, text@),
{
    match parsed_float {
        Some(b) => QueryValue::Float(b),
        None => QueryValue::String(string_of(text)),
    }
}

fn bool_or_text_exec(t: &Vec<char>, text: &str) -> (res: QueryValue)
    ensures
        res@ == bool_or_text(t@, text@),
{
    match parse_bool_chars(t) {
        Some(b) => QueryValue::Bool(b),
        None => QueryValue::String(string_of(text)),
    }
}

/// The value that the edited text stands for, given the cell's current
/// value, the column type already lower-cased, and the caller's parse of the
/// trimmed text as a float (the bits of the `f64`, or `None`).
pub fn parse_edited_value_lowered(
    new_text: &str,
    orig_val: &QueryValue,
    type_lower: &str,
    parsed_float: Option<u64>,
) -> (res: QueryValue)
    ensures
        res@ == edited_value(new_text@, orig_val@, type_lower@, parsed_float),
{
    let raw = chars_of(new_text);
    let t = trim_chars(&raw);
    if eq_ignore_ascii_case(&t, "null") {
        return QueryValue::Null;
    }
    if eq_ignore_ascii_case(&t, "<auto>") {
        return QueryValue::String(string_of("<auto>"));
    }
    if eq_ignore_ascii_case(&t, "<default>") {
        return QueryValue::String(string_of("<default>"));
    }
    if t.len() == 0 && !contains_str(type_lower, "char") && !contains_str(type_lower, "text") {
        return QueryValue::Null;
    }
    match orig_val {
        QueryValue::Null => {
            if contains_str(type_lower, "int") || contains_str(type_lower, "serial") {
                int_or_text_exec(&t, new_text)
            } else if contains_str(type_lower, "float") || contains_str(type_lower, "double")
                || contains_str(type_lower, "numeric") || contains_str(type_lower, "decimal") {
                float_or_text_exec(parsed_float, new_text)
            } else if contains_str(type_lower, "bool") {
                bool_or_text_exec(&t, new_text)
            } else {
                QueryValue::String(string_of(new_text))
            }
        },
        QueryValue::Bool(_) => bool_or_text_exec(&t, new_text),
        QueryValue::Int(_) => int_or_text_exec(&t, new_text),
        QueryValue::Float(_) => float_or_text_exec(parsed_float, new_text),
        QueryValue::DateTime(_) => QueryValue::DateTime(string_of(new_text)),
        QueryValue::Bytes(_) => QueryValue::String(string_of(new_text)),
        QueryValue::String(_) => QueryValue::String(string_of(new_text)),
    }
}

/// Reads the edited text of a cell as a value: the column type is
/// lower-cased, then the text is interpreted as `parse_edited_value_lowered`
/// states.
pub fn parse_edited_query_value(
    new_text: &str,
    orig_val: &QueryValue,
    col_type: &str,
    parsed_float: Option<u64>,
) -> (res: QueryValue)
    ensures
        res@ == edited_value(new_text@, orig_val@, spec_to_lowercase(col_type@), parsed_float),
{
    let lower = to_lowercase(col_type);
    parse_edited_value_lowered(new_text, orig_val, lower.as_str(), parsed_float)
}

/// Editing a boolean cell: text that trims to `false` in any ASCII case, or
/// to `0`, stores `false`; text that trims to `true` in any ASCII case, or
/// to `1`, stores `true` — whatever the column type and float reading.
pub proof fn law_bool_cell_edit(
    text: Seq<char>,
    b: bool,
    type_lower: Seq<char>,
    parsed_float: Option<u64>,
)
    ensures
        eq_ignore_case(trim(text), "false"@) || trim(text) == "0"@ ==> edited_value(
            text,
            CellValue::Bool(b),
            type_lower,
            parsed_float,
        ) == CellValue::Bool(false),
        eq_ignore_case(trim(text), "true"@) || trim(text) == "1"@ ==> edited_value(
            text,
            CellValue::Bool(b),
            type_lower,
            parsed_float,
        ) == CellValue::Bool(true),
{
    reveal_strlit("false");
    reveal_strlit("true");
    reveal_strlit("0");
    reveal_strlit("1");
    reveal_strlit("null");
    reveal_strlit("<auto>");
    reveal_strlit("<default>");
    let t = trim(text);
    if eq_ignore_case(t, "true"@) {
        assert(ascii_lower(t[0]) == ascii_lower('t'));
        assert(!eq_ignore_case(t, "null"@)) by {
            if eq_ignore_case(t, "null"@) {
                assert(ascii_lower(t[0]) == ascii_lower('n'));
            }
        }
    }
    if eq_ignore_case(t, "false"@) {
        assert(!eq_ignore_case(t, "true"@));
    }
    if t == "0"@ {
        assert(t[0] == '0');
        assert(!eq_ignore_case(t, "true"@));
    }
}

} // verus!
