//! Cell inspector and row copying: detection and pretty-printing of JSON
//! cell text with its statistics, and the tab-separated rendering of a row.

use vstd::prelude::*;
use crate::error_dialog::{lines_of, line_count};
use crate::grid::{CellValue, QueryValue};
use crate::text::{
    append_str, chars_of, decimal, push_char, push_decimal, string_from_chars,
    string_of, trim, trim_chars,
};

verus! {

#[verifier::external_type_specification]
#[verifier::external_body]
pub struct ExJsonValue(serde_json::Value);

/// Whether `serde_json::from_str::<serde_json::Value>` accepts the text.
pub uninterp spec fn json_parses(s: Seq<char>) -> bool;

/// The document that `serde_json::from_str::<serde_json::Value>` reads from
/// a text it accepts.
pub uninterp spec fn json_document_of(s: Seq<char>) -> serde_json::Value;

/// `serde_json::from_str::<serde_json::Value>`: the parsed document, or
/// `None` when the text is not a JSON document. The document is named by
/// the text it was read from; what it holds is opaque here.
#[verifier::external_body]
fn json_parse(s: &str) -> (res: Option<serde_json::Value>)
    ensures
        res is Some <==> json_parses(s@),
        res matches Some(v) ==> v == json_document_of(s@),
{
    serde_json::from_str::<serde_json::Value>(s).ok()
}

/// The text `serde_json::to_string_pretty` prints for a document
/// (two-space indentation).
pub uninterp spec fn json_pretty_of(v: serde_json::Value) -> Seq<char>;

/// `serde_json::to_string_pretty` of a parsed document. Printing a `Value`
/// does not fail (its maps have string keys and its numbers are finite), so
/// a text always comes back, the one named by `json_pretty_of`.
#[verifier::external_body]
fn json_to_pretty(v: &serde_json::Value) -> (res: Option<String>)
    ensures
        res is Some,
        res matches Some(p) ==> p@ == json_pretty_of(*v),
{
    serde_json::to_string_pretty(v).ok()
}

/// Text that looks like a JSON object or array: it starts with `{` and ends
/// with `}`, or starts with `[` and ends with `]`.
pub open spec fn json_shaped(t: Seq<char>) -> bool {
    t.len() > 0 && ((t[0] == '{' && t.last() == '}') || (t[0] == '[' && t.last() == ']'))
}

/// Number of lines shown for a text: its line count, at least one.
pub open spec fn shown_lines(s: Seq<char>) -> nat {
    if lines_of(s).len() == 0 {
        1
    } else {
        lines_of(s).len()
    }
}

fn shown_line_count(s: &str) -> (res: usize)
    ensures
        res == shown_lines(s@),
{
    let n = line_count(s);
    if n == 0 {
        1
    } else {
        n
    }
}

fn char_count(s: &str) -> (res: usize)
    ensures
        res == s@.len(),
{
    chars_of(s).len()
}

/// The inspector view of a cell text, given what the JSON library made of
/// it: `parses` says whether its trimmed text is a JSON document, `pretty`
/// is the pretty-printed document (when printing succeeded). A JSON-shaped
/// document is flagged as JSON and, when `pretty_json` is set and a pretty
/// text is at hand, shown pretty-printed; everything else is shown as is.
/// The counts are the characters and lines (at least one) of the text shown.
pub fn format_inspector_with(raw: &str, pretty_json: bool, parses: bool, pretty: Option<&str>) -> (res:
    (String, bool, usize, usize))
    ensures
        ({
            let is_json = json_shaped(trim(raw@)) && parses;
            &&& res.1 == is_json
            &&& if is_json && pretty_json && pretty is Some {
                &&& res.0@ == pretty->0@
                &&& res.2 == pretty->0@.len()
                &&& res.3 == shown_lines(pretty->0@)
            } else {
                &&& res.0@ == raw@
                &&& res.2 == raw@.len()
                &&& res.3 == shown_lines(raw@)
            }
        }),
{
    let cs = chars_of(raw);
    let t = trim_chars(&cs);
    let n = t.len();
    let shaped = n > 0 && ((t[0] == '{' && t[n - 1] == '}') || (t[0] == '[' && t[n - 1] == ']'));
    if shaped && parses {
        if pretty_json {
            match pretty {
                Some(p) => {
                    return (string_of(p), true, char_count(p), shown_line_count(p));
                },
                None => {},
            }
        }
        return (string_of(raw), true, char_count(raw), shown_line_count(raw));
    }
    (string_of(raw), false, char_count(raw), shown_line_count(raw))
}

/// Formats a cell text for the inspector, detecting JSON objects and arrays
/// and pretty-printing them on request, with the character and line counts
/// of the text shown.
pub fn format_inspector_value(raw: &str, pretty_json: bool) -> (res: (String, bool, usize, usize))
    ensures
        res.1 == (json_shaped(trim(raw@)) && json_parses(trim(raw@))),
        !(res.1 && pretty_json) ==> res.0@ == raw@ && res.2 == raw@.len() && res.3 == shown_lines(
            raw@,
        ),
        res.1 && pretty_json ==> res.0@ == json_pretty_of(json_document_of(trim(raw@)))
            && res.2 == res.0@.len()
            && res.3 == shown_lines(res.0@),
{
    let cs = chars_of(raw);
    let t = trim_chars(&cs);
    let ts = string_from_chars(&t);
    let n = t.len();
    let shaped = n > 0 && ((t[0] == '{' && t[n - 1] == '}') || (t[0] == '[' && t[n - 1] == ']'));
    if !shaped {
        return format_inspector_with(raw, pretty_json, false, None);
    }
    match json_parse(ts.as_str()) {
        None => format_inspector_with(raw, pretty_json, false, None),
        Some(doc) => {
            if pretty_json {
                match json_to_pretty(&doc) {
                    Some(p) => format_inspector_with(raw, pretty_json, true, Some(p.as_str())),
                    None => format_inspector_with(raw, pretty_json, true, None),
                }
            } else {
                format_inspector_with(raw, pretty_json, true, None)
            }
        },
    }
}

// ---------------------------------------------------------------------------
// Tab-separated rows
// ---------------------------------------------------------------------------

/// Tabs and line breaks become spaces in a tab-separated field.
pub open spec fn tsv_clean(c: char) -> char {
    if c == '\t' || c == '\r' || c == '\n' {
        ' '
    } else {
        c
    }
}

/// A cell text made safe for a tab-separated line.
pub open spec fn tsv_field(s: Seq<char>) -> Seq<char> {
    s.map_values(|c: char| tsv_clean(c))
}

/// Fields joined with a tab between consecutive fields.
pub open spec fn join_tabs(parts: Seq<Seq<char>>) -> Seq<char>
    decreases parts.len(),
{
    if parts.len() == 0 {
        Seq::empty()
    } else if parts.len() == 1 {
        parts[0]
    } else {
        join_tabs(parts.drop_last()) + seq!['\t'] + parts.last()
    }
}

/// The tab-separated line of a row given the display texts of its cells.
pub open spec fn tsv_line(cells: Seq<String>) -> Seq<char> {
    join_tabs(Seq::new(cells.len(), |i: int| tsv_field(cells[i]@)))
}

/// Renders a row as one tab-separated line from the display texts of its
/// cells; tabs and line breaks inside a cell become spaces.
pub fn row_to_tsv(cells: &[String]) -> (res: String)
    ensures
        res@ == tsv_line(cells@),
{
    let ghost parts = Seq::new(cells@.len(), |i: int| tsv_field(cells@[i]@));
    let mut out = String::new();
    let mut i: usize = 0;
    proof {
        assert(parts.take(0) =~= Seq::<Seq<char>>::empty());
    }
    while i < cells.len()
        invariant
            i <= cells.len(),
            parts == Seq::new(cells@.len(), |i: int| tsv_field(cells@[i]@)),
            out@ == join_tabs(parts.take(i as int)),
        decreases cells.len() - i,
    {
        let ghost before = out@;
        if i > 0 {
            push_char(&mut out, '\t');
        }
        let ghost mid = out@;
        let cs = chars_of(cells[i].as_str());
        let mut k: usize = 0;
        while k < cs.len()
            invariant
                k <= cs.len(),
                out@ == mid + tsv_field(cs@.take(k as int)),
            decreases cs.len() - k,
        {
            let c = cs[k];
            let d = if c == '\t' || c == '\r' || c == '\n' {
                ' '
            } else {
                c
            };
            push_char(&mut out, d);
            k += 1;
            assert(tsv_field(cs@.take(k as int)) =~= tsv_field(cs@.take(k - 1)).push(d));
        }
        proof {
            assert(cs@.take(cs.len() as int) =~= cs@);
            assert(parts.take(i + 1).drop_last() =~= parts.take(i as int));
            assert(parts[i as int] == tsv_field(cells@[i as int]@));
            if i == 0 {
                assert(out@ =~= join_tabs(parts.take(i + 1)));
            } else {
                assert(out@ =~= join_tabs(parts.take(i + 1)));
            }
        }
        i += 1;
    }
    proof {
        assert(parts.take(cells.len() as int) =~= parts);
    }
    out
}

proof fn lemma_join_tabs_no_breaks(parts: Seq<Seq<char>>)
    requires
        forall|i: int, k: int|
            0 <= i < parts.len() && 0 <= k < parts[i].len() ==> (#[trigger] parts[i][k]) != '\n'
                && parts[i][k] != '\r',
    ensures
        forall|k: int|
            0 <= k < join_tabs(parts).len() ==> (#[trigger] join_tabs(parts)[k]) != '\n'
                && join_tabs(parts)[k] != '\r',
    decreases parts.len(),
{
    if parts.len() > 1 {
        let init = parts.drop_last();
        assert forall|i: int, k: int| 0 <= i < init.len() && 0 <= k < init[i].len() implies (
        #[trigger] init[i][k]) != '\n' && init[i][k] != '\r' by {
            assert(init[i] == parts[i]);
        }
        lemma_join_tabs_no_breaks(init);
        let j = join_tabs(init);
        let l = parts.last();
        assert forall|k: int| 0 <= k < join_tabs(parts).len() implies (#[trigger] join_tabs(
            parts,
        )[k]) != '\n' && join_tabs(parts)[k] != '\r' by {
            if k < j.len() {
                assert(join_tabs(parts)[k] == j[k]);
            } else if k > j.len() {
                assert(join_tabs(parts)[k] == l[k - j.len() - 1]);
                assert(l == parts[parts.len() - 1]);
            }
        }
    } else if parts.len() == 1 {
        assert forall|k: int| 0 <= k < join_tabs(parts).len() implies (#[trigger] join_tabs(
            parts,
        )[k]) != '\n' && join_tabs(parts)[k] != '\r' by {
            assert(parts[0][k] == join_tabs(parts)[k]);
        }
    }
}

/// A tab-separated row never holds a line break or a carriage return.
pub proof fn law_tsv_single_line(cells: Seq<String>)
    ensures
        forall|k: int|
            0 <= k < tsv_line(cells).len() ==> (#[trigger] tsv_line(cells)[k]) != '\n'
                && tsv_line(cells)[k] != '\r',
{
    let parts = Seq::new(cells.len(), |i: int| tsv_field(cells[i]@));
    assert forall|i: int, k: int| 0 <= i < parts.len() && 0 <= k < parts[i].len() implies (
    #[trigger] parts[i][k]) != '\n' && parts[i][k] != '\r' by {
        assert(parts[i][k] == tsv_clean(cells[i]@[k]));
    }
    lemma_join_tabs_no_breaks(parts);
}

// ---------------------------------------------------------------------------
// Rows as JSON objects
// ---------------------------------------------------------------------------

/// How one cell of a row stands in the row's JSON object.
#[derive(Debug)]
pub enum JsonField {
    Null,
    Bool(bool),
    Int(i64),
    /// A floating-point cell, by the bit pattern of its double.
    Float(u64),
    /// A text cell that is itself a JSON document, as parsed.
    Document(serde_json::Value),
    /// Any other text: a string that is no JSON document, a blob summary or
    /// a date-time.
    Text(String),
}

/// The summary that stands for a binary value of `n` bytes.
pub open spec fn blob_summary(n: nat) -> Seq<char> {
    "<blob: "@ + decimal(n) + " bytes>"@
}

/// Whether `f` is how the cell value `v` stands in a JSON object: nulls,
/// booleans, integers and floats as themselves; a string as the document
/// it parses to, else as text; binary values by their size; date-times as
/// their text.
pub open spec fn json_field_matches(f: JsonField, v: CellValue) -> bool {
    match v {
        CellValue::Null => f is Null,
        CellValue::Bool(b) => f == JsonField::Bool(b),
        CellValue::Int(i) => f == JsonField::Int(i),
        CellValue::Float(x) => f == JsonField::Float(x),
        CellValue::Text(s) => if json_parses(s) {
            f == JsonField::Document(json_document_of(s))
        } else {
            f matches JsonField::Text(t) && t@ == s
        },
        CellValue::Bytes(b) => f matches JsonField::Text(t) && t@ == blob_summary(b.len()),
        CellValue::DateTime(d) => f matches JsonField::Text(t) && t@ == d,
    }
}

/// The cell of a row under column `i`; a row shorter than the header reads
/// as `NULL` there.
pub open spec fn cell_at(row: Seq<QueryValue>, i: int) -> CellValue {
    if i < row.len() {
        row[i]@
    } else {
        CellValue::Null
    }
}

/// How the cell `v` stands in JSON given what the JSON parser made of its
/// text (`parsed`, only read for a string cell): a string as the parsed
/// document, else as text; every other cell as `json_field_matches` states.
pub fn json_field_from(v: &QueryValue, parsed: Option<serde_json::Value>) -> (res: JsonField)
    ensures
        match v@ {
            CellValue::Text(s) => match parsed {
                Some(d) => res == JsonField::Document(d),
                None => res matches JsonField::Text(t) && t@ == s,
            },
            _ => json_field_matches(res, v@),
        },
{
    match v {
        QueryValue::Null => JsonField::Null,
        QueryValue::Bool(b) => JsonField::Bool(*b),
        QueryValue::Int(i) => JsonField::Int(*i),
        QueryValue::Float(x) => JsonField::Float(*x),
        QueryValue::String(s) => match parsed {
            Some(doc) => JsonField::Document(doc),
            None => JsonField::Text(s.clone()),
        },
        QueryValue::Bytes(b) => {
            let mut t = string_of("<blob: ");
            push_decimal(&mut t, b.len());
            append_str(&mut t, " bytes>");
            JsonField::Text(t)
        },
        QueryValue::DateTime(d) => JsonField::Text(d.clone()),
    }
}

fn json_field_of(v: &QueryValue) -> (res: JsonField)
    ensures
        json_field_matches(res, v@),
{
    let parsed = match v {
        QueryValue::String(s) => json_parse(s.as_str()),
        _ => None,
    };
    json_field_from(v, parsed)
}

/// The members of the JSON object for a row, one per column in column
/// order: the column's name and how the row's cell under it stands in JSON
/// (`NULL` past the end of a short row).
pub fn row_json_fields(columns: &[String], row: &[QueryValue]) -> (res: Vec<(String, JsonField)>)
    ensures
        res@.len() == columns@.len(),
        forall|i: int|
            0 <= i < columns@.len() ==> (#[trigger] res@[i]).0@ == columns@[i]@
                && json_field_matches(res@[i].1, cell_at(row@, i)),
{
    let mut out: Vec<(String, JsonField)> = Vec::new();
    let mut i: usize = 0;
    while i < columns.len()
        invariant
            i <= columns@.len(),
            out@.len() == i,
            forall|j: int|
                0 <= j < i ==> (#[trigger] out@[j]).0@ == columns@[j]@ && json_field_matches(
                    out@[j].1,
                    cell_at(row@, j),
                ),
        decreases columns.len() - i,
    {
        let f = if i < row.len() {
            json_field_of(&row[i])
        } else {
            JsonField::Null
        };
        out.push((columns[i].clone(), f));
        i += 1;
    }
    out
}

} // verus!
