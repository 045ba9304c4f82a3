//! Preparation of staged rows in the data grid: the initial values of a new
//! row, the values of a duplicated row, where the staged row is anchored,
//! and how the cell selection follows when a staged row is discarded.

use vstd::prelude::*;
use crate::grid::{QueryValue, CellValue, InsertAnchor, GridCellCoord};
use crate::text::{
    string_of, chars_of, string_from_chars, trim, trim_chars, eq_ignore_case, eq_ignore_ascii_case,
    eq_ignore_ascii_case_chars, contains_seq, contains_str, spec_to_lowercase, to_lowercase,
};

verus! {

/// Column metadata of a table.
#[derive(Debug, Clone)]
pub struct ColumnInfo {
    pub name: String,
    pub data_type: String,
    pub is_primary_key: bool,
    pub is_nullable: bool,
    pub is_auto_increment: bool,
    pub default_value: Option<String>,
    pub description: Option<String>,
}

/// Values and placement of a row about to be staged for insertion.
#[derive(Debug, Clone)]
pub struct NewRowPlan {
    pub values: Vec<QueryValue>,
    pub first_editable_col: usize,
    pub anchor: InsertAnchor,
}

/// A column whose value the database generates: auto-increment, a serial
/// type, or (on SQLite) an integer primary key; `type_lower` is the column's
/// type in lower case.
pub open spec fn is_auto_spec(col: ColumnInfo, type_lower: Seq<char>, is_sqlite: bool) -> bool {
    ||| col.is_auto_increment
    ||| contains_seq(type_lower, "serial"@)
    ||| (is_sqlite && col.is_primary_key && contains_seq(type_lower, "int"@))
}

/// Whether the database generates the column's value, given its type in
/// lower case.
pub fn column_is_auto_lowered(col: &ColumnInfo, type_lower: &str, is_sqlite: bool) -> (res: bool)
    ensures
        res == is_auto_spec(*col, type_lower@, is_sqlite),
{
    col.is_auto_increment || contains_str(type_lower, "serial") || (is_sqlite
        && col.is_primary_key && contains_str(type_lower, "int"))
}

/// Whether the database generates the column's value (its type is
/// lower-cased first).
pub fn column_is_auto(col: &ColumnInfo, is_sqlite: bool) -> (res: bool)
    ensures
        res == is_auto_spec(*col, spec_to_lowercase(col.data_type@), is_sqlite),
{
    let lower = to_lowercase(col.data_type.as_str());
    column_is_auto_lowered(col, lower.as_str(), is_sqlite)
}

/// Whether column `c` of `schema` is generated by the database.
pub open spec fn schema_col_auto(c: ColumnInfo, is_sqlite: bool) -> bool {
    is_auto_spec(c, spec_to_lowercase(c.data_type@), is_sqlite)
}

/// Index of the first schema column named `name`, ignoring ASCII case,
/// searching from position `j`.
pub open spec fn meta_index_from(schema: Seq<ColumnInfo>, name: Seq<char>, j: int) -> Option<int>
    decreases schema.len() - j,
{
    if j >= schema.len() || j < 0 {
        None
    } else if eq_ignore_case(schema[j].name@, name) {
        Some(j)
    } else {
        meta_index_from(schema, name, j + 1)
    }
}

/// Index of the first schema column named `name`, ignoring ASCII case.
pub open spec fn meta_index(schema: Seq<ColumnInfo>, name: Seq<char>) -> Option<int> {
    meta_index_from(schema, name, 0)
}

/// Number of columns of the new row: those of the shown result, else those
/// of the table schema, else one.
pub open spec fn column_count(result_columns: Option<Seq<String>>, schema: Seq<ColumnInfo>) -> nat {
    match result_columns {
        Some(c) => c.len(),
        None => if schema.len() > 0 {
            schema.len()
        } else {
            1
        },
    }
}

/// Name of column `i`: from the shown result, else from the schema, else empty.
pub open spec fn column_name(
    result_columns: Option<Seq<String>>,
    schema: Seq<ColumnInfo>,
    i: int,
) -> Seq<char> {
    if result_columns is Some && 0 <= i < result_columns->0.len() {
        result_columns->0[i]@
    } else if 0 <= i < schema.len() {
        schema[i].name@
    } else {
        Seq::empty()
    }
}

/// Whether column `i` of the grid is generated by the database.
pub open spec fn grid_col_auto(
    result_columns: Option<Seq<String>>,
    schema: Seq<ColumnInfo>,
    is_sqlite: bool,
    i: int,
) -> bool {
    match meta_index(schema, column_name(result_columns, schema, i)) {
        Some(j) => schema_col_auto(schema[j], is_sqlite),
        None => false,
    }
}

/// Initial value of column `i` of a new row: `<auto>` for generated
/// columns, the column's default (`NULL` when the default reads `null`),
/// else `NULL`.
pub open spec fn new_cell_value(
    result_columns: Option<Seq<String>>,
    schema: Seq<ColumnInfo>,
    is_sqlite: bool,
    i: int,
) -> CellValue {
    match meta_index(schema, column_name(result_columns, schema, i)) {
        None => CellValue::Null,
        Some(j) => if schema_col_auto(schema[j], is_sqlite) {
            CellValue::Text("<auto>"@)
        } else {
            match schema[j].default_value {
                Some(d) => if eq_ignore_case(trim(d@), "null"@) {
                    CellValue::Null
                } else {
                    CellValue::Text(d@)
                },
                None => CellValue::Null,
            }
        },
    }
}

/// The first position, from `i` on, whose flag is unset, or 0 when there is
/// none.
pub open spec fn first_unset_from(flags: Seq<bool>, i: int) -> int
    decreases flags.len() - i,
{
    if i >= flags.len() || i < 0 {
        0
    } else if !flags[i] {
        i
    } else {
        first_unset_from(flags, i + 1)
    }
}

/// Which grid columns the database generates.
pub open spec fn auto_flags(
    result_columns: Option<Seq<String>>,
    schema: Seq<ColumnInfo>,
    is_sqlite: bool,
) -> Seq<bool> {
    Seq::new(
        column_count(result_columns, schema),
        |i: int| grid_col_auto(result_columns, schema, is_sqlite, i),
    )
}

/// Anchor of a new row: after the selected staged row (or at the end of the
/// page if it no longer exists), after the selected existing row, or at the
/// end of the page when nothing is selected.
pub open spec fn anchor_for(
    selected: Option<GridCellCoord>,
    inserted_temp_ids: Seq<usize>,
    grid_page: usize,
) -> InsertAnchor {
    match selected {
        Some(coord) => anchor_for_coord(coord, inserted_temp_ids, grid_page),
        None => InsertAnchor::PageEnd(grid_page),
    }
}

/// Anchor of a row staged from the cell `coord`.
pub open spec fn anchor_for_coord(
    coord: GridCellCoord,
    inserted_temp_ids: Seq<usize>,
    grid_page: usize,
) -> InsertAnchor {
    if coord.is_inserted {
        if coord.row_idx < inserted_temp_ids.len() {
            InsertAnchor::AfterInserted(inserted_temp_ids[coord.row_idx as int])
        } else {
            InsertAnchor::PageEnd(grid_page)
        }
    } else {
        InsertAnchor::AfterRow(coord.row_idx)
    }
}

fn coord_anchor(coord: GridCellCoord, inserted_temp_ids: &Vec<usize>, grid_page: usize) -> (res:
    InsertAnchor)
    ensures
        res == anchor_for_coord(coord, inserted_temp_ids@, grid_page),
{
    if coord.is_inserted {
        if coord.row_idx < inserted_temp_ids.len() {
            InsertAnchor::AfterInserted(inserted_temp_ids[coord.row_idx])
        } else {
            InsertAnchor::PageEnd(grid_page)
        }
    } else {
        InsertAnchor::AfterRow(coord.row_idx)
    }
}

fn find_meta(schema: &Vec<ColumnInfo>, name: &Vec<char>) -> (res: Option<usize>)
    ensures
        match res {
            Some(j) => meta_index(schema@, name@) == Some(j as int),
            None => meta_index(schema@, name@) is None,
        },
        res is Some ==> res->0 < schema.len(),
{
    let mut j: usize = 0;
    while j < schema.len()
        invariant
            j <= schema.len(),
            meta_index(schema@, name@) == meta_index_from(schema@, name@, j as int),
        decreases schema.len() - j,
    {
        let cand = chars_of(schema[j].name.as_str());
        if eq_ignore_ascii_case_chars(&cand, name) {
            return Some(j);
        }
        j += 1;
    }
    None
}


fn column_name_exec(result_columns: Option<&Vec<String>>, schema: &Vec<ColumnInfo>, i: usize) -> (res:
    Vec<char>)
    ensures
        res@ == column_name(
            match result_columns {
                Some(c) => Some(c@),
                None => None,
            },
            schema@,
            i as int,
        ),
{
    match result_columns {
        Some(c) => {
            if i < c.len() {
                return chars_of(c[i].as_str());
            }
        },
        None => {},
    }
    if i < schema.len() {
        chars_of(schema[i].name.as_str())
    } else {
        Vec::new()
    }
}

/// The columns of the shown result as a sequence, if any.
pub open spec fn opt_view(result_columns: Option<&Vec<String>>) -> Option<Seq<String>> {
    match result_columns {
        Some(c) => Some(c@),
        None => None,
    }
}

/// Whether the database generates column `i` of the grid, and the initial
/// value of that column in a new row.
fn new_cell(
    result_columns: Option<&Vec<String>>,
    schema: &Vec<ColumnInfo>,
    is_sqlite: bool,
    i: usize,
) -> (res: (bool, QueryValue))
    ensures
        res.0 == grid_col_auto(opt_view(result_columns), schema@, is_sqlite, i as int),
        res.1@ == new_cell_value(opt_view(result_columns), schema@, is_sqlite, i as int),
{
    let name = column_name_exec(result_columns, schema, i);
    match find_meta(schema, &name) {
        None => (false, QueryValue::Null),
        Some(j) => {
            let col = &schema[j];
            if column_is_auto(col, is_sqlite) {
                (true, QueryValue::String(string_of("<auto>")))
            } else {
                match &col.default_value {
                    Some(d) => {
                        let dv = chars_of(d.as_str());
                        let t = trim_chars(&dv);
                        if eq_ignore_ascii_case(&t, "null") {
                            (false, QueryValue::Null)
                        } else {
                            (false, QueryValue::String(d.clone()))
                        }
                    },
                    None => (false, QueryValue::Null),
                }
            }
        },
    }
}

/// Prepares a new row to stage for insertion: one value per grid column
/// (`<auto>` for generated columns, else the column default or `NULL`), the
/// first column the user can edit, and the anchor that follows the current
/// selection.
pub fn plan_new_row(
    result_columns: Option<&Vec<String>>,
    schema: &Vec<ColumnInfo>,
    is_sqlite: bool,
    selected: Option<GridCellCoord>,
    inserted_temp_ids: &Vec<usize>,
    grid_page: usize,
) -> (res: NewRowPlan)
    ensures
        res.values@.len() == column_count(opt_view(result_columns), schema@),
        forall|i: int|
            0 <= i < res.values@.len() ==> (#[trigger] res.values@[i])@ == new_cell_value(
                opt_view(result_columns),
                schema@,
                is_sqlite,
                i,
            ),
        res.first_editable_col == first_unset_from(
            auto_flags(opt_view(result_columns), schema@, is_sqlite),
            0,
        ),
        res.anchor == anchor_for(selected, inserted_temp_ids@, grid_page),
{
    let col_count: usize = match result_columns {
        Some(c) => c.len(),
        None => if schema.len() > 0 {
            schema.len()
        } else {
            1
        },
    };
    let ghost flags = auto_flags(opt_view(result_columns), schema@, is_sqlite);
    let mut values: Vec<QueryValue> = Vec::new();
    let mut first: usize = 0;
    let mut found = false;
    let mut i: usize = 0;
    while i < col_count
        invariant
            col_count == column_count(opt_view(result_columns), schema@),
            flags == auto_flags(opt_view(result_columns), schema@, is_sqlite),
            i <= col_count,
            values@.len() == i,
            forall|k: int|
                0 <= k < i ==> (#[trigger] values@[k])@ == new_cell_value(
                    opt_view(result_columns),
                    schema@,
                    is_sqlite,
                    k,
                ),
            found ==> first < i && first_unset_from(flags, 0) == first as int,
            !found ==> forall|k: int| 0 <= k < i ==> #[trigger] flags[k],
            !found ==> first == 0,
            !found ==> first_unset_from(flags, 0) == first_unset_from(flags, i as int),
        decreases col_count - i,
    {
        let (auto, v) = new_cell(result_columns, schema, is_sqlite, i);
        proof {
            assert(flags[i as int] == auto);
        }
        if !auto && !found {
            first = i;
            found = true;
        }
        proof {
            if !found {
                assert(first_unset_from(flags, i as int) == first_unset_from(flags, i + 1));
            }
        }
        values.push(v);
        i += 1;
    }
    proof {
        if !found {
            assert(first_unset_from(flags, col_count as int) == 0);
        }
    }
    let anchor = match selected {
        Some(coord) => coord_anchor(coord, inserted_temp_ids, grid_page),
        None => InsertAnchor::PageEnd(grid_page),
    };
    NewRowPlan { values, first_editable_col: first, anchor }
}

/// Value of column `i` of a duplicated row: `<auto>` for generated columns,
/// otherwise the source value.
pub open spec fn duplicate_cell_value(
    result_columns: Seq<String>,
    schema: Seq<ColumnInfo>,
    is_sqlite: bool,
    source: Seq<QueryValue>,
    i: int,
) -> CellValue {
    if grid_col_auto(Some(result_columns), schema, is_sqlite, i) {
        CellValue::Text("<auto>"@)
    } else {
        source[i]@
    }
}

/// Which columns of a duplicated row the database generates.
pub open spec fn duplicate_auto_flags(
    result_columns: Seq<String>,
    schema: Seq<ColumnInfo>,
    is_sqlite: bool,
    n: nat,
) -> Seq<bool> {
    Seq::new(n, |i: int| grid_col_auto(Some(result_columns), schema, is_sqlite, i))
}

/// Prepares the duplicate of a row (its current values in `source`) to
/// stage for insertion: generated columns are reset to `<auto>`, the first
/// column the user can edit is found, and the copy is anchored after the
/// row it was taken from.
pub fn plan_duplicate_row(
    source: Vec<QueryValue>,
    result_columns: &Vec<String>,
    schema: &Vec<ColumnInfo>,
    is_sqlite: bool,
    coord: GridCellCoord,
    inserted_temp_ids: &Vec<usize>,
    grid_page: usize,
) -> (res: NewRowPlan)
    ensures
        res.values@.len() == source@.len(),
        forall|i: int|
            0 <= i < source@.len() ==> (#[trigger] res.values@[i])@ == duplicate_cell_value(
                result_columns@,
                schema@,
                is_sqlite,
                source@,
                i,
            ),
        res.first_editable_col == first_unset_from(
            duplicate_auto_flags(result_columns@, schema@, is_sqlite, source@.len()),
            0,
        ),
        res.anchor == anchor_for_coord(coord, inserted_temp_ids@, grid_page),
{
    let ghost flags = duplicate_auto_flags(result_columns@, schema@, is_sqlite, source@.len());
    let ghost src = source@;
    let n = source.len();
    let mut values = source;
    let mut first: usize = 0;
    let mut found = false;
    let mut i: usize = 0;
    while i < n
        invariant
            n == src.len(),
            flags == duplicate_auto_flags(result_columns@, schema@, is_sqlite, src.len()),
            i <= n,
            values@.len() == n,
            forall|k: int|
                0 <= k < i ==> (#[trigger] values@[k])@ == duplicate_cell_value(
                    result_columns@,
                    schema@,
                    is_sqlite,
                    src,
                    k,
                ),
            forall|k: int| i <= k < n ==> values@[k] == #[trigger] src[k],
            found ==> first < i && first_unset_from(flags, 0) == first as int,
            !found ==> forall|k: int| 0 <= k < i ==> #[trigger] flags[k],
            !found ==> first == 0,
            !found ==> first_unset_from(flags, 0) == first_unset_from(flags, i as int),
        decreases n - i,
    {
        let name = column_name_exec(Some(result_columns), schema, i);
        let auto = match find_meta(schema, &name) {
            Some(j) => column_is_auto(&schema[j], is_sqlite),
            None => false,
        };
        proof {
            assert(flags[i as int] == auto);
        }
        if auto {
            values.set(i, QueryValue::String(string_of("<auto>")));
        } else if !found {
            first = i;
            found = true;
        }
        proof {
            if !found {
                assert(first_unset_from(flags, i as int) == first_unset_from(flags, i + 1));
            }
        }
        i += 1;
    }
    proof {
        if !found {
            assert(first_unset_from(flags, n as int) == 0);
        }
    }
    let anchor = coord_anchor(coord, inserted_temp_ids, grid_page);
    NewRowPlan { values, first_editable_col: first, anchor }
}

/// The selection after discarding staged row `insert_idx`: a cell of that
/// row is deselected, a cell of a later staged row moves up by one row, any
/// other selection stays.
pub open spec fn selection_after_discard(
    selected: Option<GridCellCoord>,
    insert_idx: usize,
) -> Option<GridCellCoord> {
    match selected {
        Some(c) => if c.is_inserted && c.row_idx == insert_idx {
            None
        } else if c.is_inserted && c.row_idx > insert_idx {
            Some(GridCellCoord { is_inserted: true, row_idx: (c.row_idx - 1) as usize, col_idx: c.col_idx })
        } else {
            Some(c)
        },
        None => None,
    }
}

/// Adjusts the cell selection after staged row `insert_idx` is discarded.
pub fn adjust_selection_after_discard(selected: Option<GridCellCoord>, insert_idx: usize) -> (res:
    Option<GridCellCoord>)
    ensures
        res == selection_after_discard(selected, insert_idx),
{
    match selected {
        Some(c) => {
            if c.is_inserted && c.row_idx == insert_idx {
                None
            } else if c.is_inserted && c.row_idx > insert_idx {
                Some(GridCellCoord::inserted(c.row_idx - 1, c.col_idx))
            } else {
                Some(c)
            }
        },
        None => None,
    }
}

// ---------------------------------------------------------------------------
// Read-only connections
// ---------------------------------------------------------------------------

/// A change to the grid's data that a read-only connection refuses.
#[derive(Debug, Clone, Copy, PartialEq, Eq, Structural)]
pub enum DataChange {
    /// Staging a new row.
    AddRow,
    /// Staging a copy of a row.
    DuplicateRow,
    /// Editing a cell, setting it to `NULL`, or staging a row's deletion.
    ModifyData,
    /// Saving the staged changes.
    SaveChanges,
}

/// Status line shown when a read-only connection refuses a change.
pub open spec fn read_only_refusal_text(c: DataChange) -> Seq<char> {
    match c {
        DataChange::AddRow => "Cannot add row: Connection is in read-only mode"@,
        DataChange::DuplicateRow => "Cannot duplicate row: Connection is in read-only mode"@,
        DataChange::ModifyData => "Cannot modify data: Connection is in read-only mode"@,
        DataChange::SaveChanges => "Cannot save changes: Connection is in read-only mode"@,
    }
}

/// The refusal of a change to the data: on a read-only connection the
/// status line that explains it (and nothing is changed), otherwise none.
pub fn refuse_if_read_only(read_only: bool, change: DataChange) -> (res: Option<String>)
    ensures
        read_only ==> (res matches Some(m) && m@ == read_only_refusal_text(change)),
        !read_only ==> res is None,
{
    if !read_only {
        return None;
    }
    Some(
        match change {
            DataChange::AddRow => string_of("Cannot add row: Connection is in read-only mode"),
            DataChange::DuplicateRow => string_of(
                "Cannot duplicate row: Connection is in read-only mode",
            ),
            DataChange::ModifyData => string_of("Cannot modify data: Connection is in read-only mode"),
            DataChange::SaveChanges => string_of("Cannot save changes: Connection is in read-only mode"),
        },
    )
}

} // verus!
