//! Table designers: the column and index rows of the Create Table designer
//! and of the table-structure editor, with their constraint toggles.

use vstd::prelude::*;
use crate::error_dialog::DatabaseFamily;
use crate::new_row::ColumnInfo;
use crate::text::{
    chars_of, string_from_chars, string_of, with_number, decimal, trim, trim_chars,
};

verus! {

/// A column row of the Create Table designer.
#[derive(Debug, Clone)]
pub struct CreateTableColumnState {
    pub name: String,
    pub data_type: String,
    pub is_primary_key: bool,
    pub is_nullable: bool,
    pub is_auto_increment: bool,
    pub default_val: String,
    pub comment: String,
}

/// Kind of a table index.
#[derive(Debug, Clone, Copy, PartialEq, Eq, Structural)]
pub enum TableIndexType {
    Normal,
    Unique,
}

/// An index row of the Create Table designer; `columns` is the column list
/// as typed (for example `col1, col2`).
#[derive(Debug, Clone)]
pub struct CreateTableIndexState {
    pub name: String,
    pub index_type: TableIndexType,
    pub columns: String,
}

/// A column row of the table-structure editor; `original_name` is `None`
/// for a column added in the editor.
#[derive(Debug, Clone)]
pub struct SchemaEditColumnState {
    pub original_name: Option<String>,
    pub name: String,
    pub data_type: String,
    pub is_primary_key: bool,
    pub is_nullable: bool,
    pub is_auto_increment: bool,
    pub default_val: String,
    pub comment: String,
    pub is_deleted: bool,
}

// ---------------------------------------------------------------------------
// Family defaults
// ---------------------------------------------------------------------------

/// Type given to a column added to a designer.
pub open spec fn default_column_type(family: DatabaseFamily) -> Seq<char> {
    match family {
        DatabaseFamily::Sqlite => "TEXT"@,
        DatabaseFamily::Postgres => "VARCHAR(255)"@,
        DatabaseFamily::MySql => "VARCHAR(255)"@,
    }
}

/// Type of the `id` column of a new table.
pub open spec fn id_column_type(family: DatabaseFamily) -> Seq<char> {
    match family {
        DatabaseFamily::Sqlite => "INTEGER"@,
        DatabaseFamily::Postgres => "SERIAL"@,
        DatabaseFamily::MySql => "INT"@,
    }
}

/// Type given to a column added to a designer.
pub fn default_type_for(family: DatabaseFamily) -> (res: String)
    ensures
        res@ == default_column_type(family),
{
    match family {
        DatabaseFamily::Sqlite => string_of("TEXT"),
        DatabaseFamily::Postgres => string_of("VARCHAR(255)"),
        DatabaseFamily::MySql => string_of("VARCHAR(255)"),
    }
}

/// Schema proposed for a new table: `public` on PostgreSQL, the connected
/// database on MySQL, none on SQLite.
pub fn default_create_schema(family: DatabaseFamily, database: &str) -> (res: String)
    ensures
        family == DatabaseFamily::Postgres ==> res@ == "public"@,
        family == DatabaseFamily::MySql ==> res@ == database@,
        family == DatabaseFamily::Sqlite ==> res@ == Seq::<char>::empty(),
{
    match family {
        DatabaseFamily::Postgres => string_of("public"),
        DatabaseFamily::MySql => string_of(database),
        DatabaseFamily::Sqlite => String::new(),
    }
}

// ---------------------------------------------------------------------------
// Create Table designer
// ---------------------------------------------------------------------------

/// The constraints that the designer keeps: an auto-increment column is a
/// primary key, and a primary key is not nullable.
pub open spec fn constraints_ok(c: CreateTableColumnState) -> bool {
    &&& c.is_auto_increment ==> c.is_primary_key
    &&& c.is_primary_key ==> !c.is_nullable
}

/// Every column keeps the designer's constraints.
pub open spec fn all_constraints_ok(cols: Seq<CreateTableColumnState>) -> bool {
    forall|i: int| 0 <= i < cols.len() ==> constraints_ok(#[trigger] cols[i])
}

/// A column with the given flags and all its text fields unchanged.
pub open spec fn with_flags(
    c: CreateTableColumnState,
    pk: bool,
    nullable: bool,
    auto: bool,
) -> CreateTableColumnState {
    CreateTableColumnState {
        name: c.name,
        data_type: c.data_type,
        is_primary_key: pk,
        is_nullable: nullable,
        is_auto_increment: auto,
        default_val: c.default_val,
        comment: c.comment,
    }
}

/// Primary key flipped; a new key becomes NOT NULL, a dropped key loses
/// auto-increment.
pub open spec fn pk_toggled(c: CreateTableColumnState) -> CreateTableColumnState {
    let pk = !c.is_primary_key;
    if pk {
        with_flags(c, true, false, c.is_auto_increment)
    } else {
        with_flags(c, false, c.is_nullable, false)
    }
}

/// Nullable flipped; a nullable column is neither key nor auto-increment.
pub open spec fn nullable_toggled(c: CreateTableColumnState) -> CreateTableColumnState {
    let n = !c.is_nullable;
    if n {
        with_flags(c, false, true, false)
    } else {
        with_flags(c, c.is_primary_key, false, c.is_auto_increment)
    }
}

/// Auto-increment flipped; an auto-increment column becomes a NOT NULL key.
pub open spec fn auto_toggled(c: CreateTableColumnState) -> CreateTableColumnState {
    let a = !c.is_auto_increment;
    if a {
        with_flags(c, true, false, true)
    } else {
        with_flags(c, c.is_primary_key, c.is_nullable, false)
    }
}

/// A constraint toggle of the Create Table designer.
pub enum ColumnToggle {
    PrimaryKey,
    Nullable,
    AutoIncrement,
}

/// A column after a toggle.
pub open spec fn toggled(c: CreateTableColumnState, t: ColumnToggle) -> CreateTableColumnState {
    match t {
        ColumnToggle::PrimaryKey => pk_toggled(c),
        ColumnToggle::Nullable => nullable_toggled(c),
        ColumnToggle::AutoIncrement => auto_toggled(c),
    }
}

/// The column list after toggling column `idx`, if it exists.
pub open spec fn toggled_at(
    cols: Seq<CreateTableColumnState>,
    idx: usize,
    t: ColumnToggle,
) -> Seq<CreateTableColumnState> {
    if idx < cols.len() {
        cols.update(idx as int, toggled(cols[idx as int], t))
    } else {
        cols
    }
}

fn replace_column(cols: &mut Vec<CreateTableColumnState>, idx: usize, pk: bool, nullable: bool, auto: bool)
    requires
        idx < old(cols).len(),
    ensures
        final(cols)@ == old(cols)@.update(
            idx as int,
            with_flags(old(cols)@[idx as int], pk, nullable, auto),
        ),
{
    let mut c = cols.remove(idx);
    c.is_primary_key = pk;
    c.is_nullable = nullable;
    c.is_auto_increment = auto;
    cols.insert(idx, c);
    assert(cols@ =~= old(cols)@.update(idx as int, with_flags(old(cols)@[idx as int], pk, nullable, auto)));
}

/// Toggles the primary-key flag of column `idx`.
pub fn toggle_create_table_pk(cols: &mut Vec<CreateTableColumnState>, idx: usize)
    ensures
        final(cols)@ == toggled_at(old(cols)@, idx, ColumnToggle::PrimaryKey),
{
    if idx < cols.len() {
        let c = &cols[idx];
        let pk = !c.is_primary_key;
        let nullable = if pk {
            false
        } else {
            c.is_nullable
        };
        let auto = if pk {
            c.is_auto_increment
        } else {
            false
        };
        replace_column(cols, idx, pk, nullable, auto);
    }
}

/// Toggles the nullable flag of column `idx`.
pub fn toggle_create_table_nullable(cols: &mut Vec<CreateTableColumnState>, idx: usize)
    ensures
        final(cols)@ == toggled_at(old(cols)@, idx, ColumnToggle::Nullable),
{
    if idx < cols.len() {
        let c = &cols[idx];
        let nullable = !c.is_nullable;
        let pk = if nullable {
            false
        } else {
            c.is_primary_key
        };
        let auto = if nullable {
            false
        } else {
            c.is_auto_increment
        };
        replace_column(cols, idx, pk, nullable, auto);
    }
}

/// Toggles the auto-increment flag of column `idx`.
pub fn toggle_create_table_auto_inc(cols: &mut Vec<CreateTableColumnState>, idx: usize)
    ensures
        final(cols)@ == toggled_at(old(cols)@, idx, ColumnToggle::AutoIncrement),
{
    if idx < cols.len() {
        let c = &cols[idx];
        let auto = !c.is_auto_increment;
        let pk = if auto {
            true
        } else {
            c.is_primary_key
        };
        let nullable = if auto {
            false
        } else {
            c.is_nullable
        };
        replace_column(cols, idx, pk, nullable, auto);
    }
}

/// Removes column `idx`, unless it is the last remaining column.
pub fn remove_create_table_column(cols: &mut Vec<CreateTableColumnState>, idx: usize)
    ensures
        old(cols).len() > 1 && idx < old(cols).len() ==> final(cols)@ == old(cols)@.remove(
            idx as int,
        ),
        !(old(cols).len() > 1 && idx < old(cols).len()) ==> final(cols)@ == old(cols)@,
{
    if cols.len() > 1 && idx < cols.len() {
        cols.remove(idx);
    }
}

/// Appends a nullable column named `col_<n>` (n = the new column count)
/// with the family's default type.
pub fn add_create_table_column(cols: &mut Vec<CreateTableColumnState>, family: DatabaseFamily)
    requires
        old(cols).len() < usize::MAX,
    ensures
        final(cols)@.len() == old(cols)@.len() + 1,
        final(cols)@.drop_last() == old(cols)@,
        final(cols)@.last().name@ == "col_"@ + decimal((old(cols)@.len() + 1) as nat),
        final(cols)@.last().data_type@ == default_column_type(family),
        final(cols)@.last().default_val@ == Seq::<char>::empty(),
        final(cols)@.last().comment@ == Seq::<char>::empty(),
        !final(cols)@.last().is_primary_key,
        final(cols)@.last().is_nullable,
        !final(cols)@.last().is_auto_increment,
{
    let n = cols.len() + 1;
    let col = CreateTableColumnState {
        name: with_number("col_", n),
        data_type: default_type_for(family),
        is_primary_key: false,
        is_nullable: true,
        is_auto_increment: false,
        default_val: String::new(),
        comment: String::new(),
    };
    cols.push(col);
    assert(cols@.drop_last() =~= old(cols)@);
}

/// The two columns a new table starts with: an auto-increment `id` primary
/// key of the family's integer type, and a NOT NULL `name` of the family's
/// text type.
pub fn initial_create_table_columns(family: DatabaseFamily) -> (res: Vec<CreateTableColumnState>)
    ensures
        res@.len() == 2,
        res@[0].name@ == "id"@,
        res@[0].data_type@ == id_column_type(family),
        res@[0].is_primary_key && !res@[0].is_nullable && res@[0].is_auto_increment,
        res@[1].name@ == "name"@,
        res@[1].data_type@ == default_column_type(family),
        !res@[1].is_primary_key && !res@[1].is_nullable && !res@[1].is_auto_increment,
        forall|i: int|
            0 <= i < 2 ==> (#[trigger] res@[i]).default_val@ == Seq::<char>::empty()
                && res@[i].comment@ == Seq::<char>::empty(),
{
    let id_type = match family {
        DatabaseFamily::Sqlite => string_of("INTEGER"),
        DatabaseFamily::Postgres => string_of("SERIAL"),
        DatabaseFamily::MySql => string_of("INT"),
    };
    let mut v: Vec<CreateTableColumnState> = Vec::new();
    v.push(
        CreateTableColumnState {
            name: string_of("id"),
            data_type: id_type,
            is_primary_key: true,
            is_nullable: false,
            is_auto_increment: true,
            default_val: String::new(),
            comment: String::new(),
        },
    );
    v.push(
        CreateTableColumnState {
            name: string_of("name"),
            data_type: default_type_for(family),
            is_primary_key: false,
            is_nullable: false,
            is_auto_increment: false,
            default_val: String::new(),
            comment: String::new(),
        },
    );
    v
}

/// Every constraint toggle of the Create Table designer keeps the
/// constraints: auto-increment implies primary key, and a primary key is
/// not nullable.
pub proof fn law_create_table_toggles_keep_constraints(c: CreateTableColumnState)
    requires
        constraints_ok(c),
    ensures
        constraints_ok(pk_toggled(c)),
        constraints_ok(nullable_toggled(c)),
        constraints_ok(auto_toggled(c)),
{
}

/// Applying a constraint toggle or a removal to a column list whose columns
/// all satisfy the constraints gives a list whose columns still do.
pub proof fn law_create_table_list_keeps_constraints(
    cols: Seq<CreateTableColumnState>,
    idx: usize,
    t: ColumnToggle,
)
    requires
        all_constraints_ok(cols),
    ensures
        all_constraints_ok(toggled_at(cols, idx, t)),
        idx < cols.len() ==> all_constraints_ok(cols.remove(idx as int)),
{
    let r = toggled_at(cols, idx, t);
    assert forall|i: int| 0 <= i < r.len() implies constraints_ok(#[trigger] r[i]) by {
        law_create_table_toggles_keep_constraints(cols[i]);
    }
    if idx < cols.len() {
        let r2 = cols.remove(idx as int);
        assert forall|i: int| 0 <= i < r2.len() implies constraints_ok(#[trigger] r2[i]) by {
            if i < idx {
                assert(r2[i] == cols[i]);
            } else {
                assert(r2[i] == cols[i + 1]);
            }
        }
    }
}

// ---------------------------------------------------------------------------
// Indexes of the Create Table designer
// ---------------------------------------------------------------------------

/// The other index kind.
pub open spec fn flipped_index_type(t: TableIndexType) -> TableIndexType {
    match t {
        TableIndexType::Normal => TableIndexType::Unique,
        TableIndexType::Unique => TableIndexType::Normal,
    }
}

/// Switches index `idx` between a plain and a unique index.
pub fn toggle_create_table_index_type(indexes: &mut Vec<CreateTableIndexState>, idx: usize)
    ensures
        final(indexes)@.len() == old(indexes)@.len(),
        forall|i: int|
            0 <= i < old(indexes)@.len() ==> (#[trigger] final(indexes)@[i]).name == old(
                indexes,
            )@[i].name && final(indexes)@[i].columns == old(indexes)@[i].columns
                && final(indexes)@[i].index_type == if i == idx {
                flipped_index_type(old(indexes)@[i].index_type)
            } else {
                old(indexes)@[i].index_type
            },
{
    if idx < indexes.len() {
        let mut it = indexes.remove(idx);
        it.index_type = match it.index_type {
            TableIndexType::Normal => TableIndexType::Unique,
            TableIndexType::Unique => TableIndexType::Normal,
        };
        indexes.insert(idx, it);
    }
}

/// Removes index `idx`, if it exists.
pub fn remove_create_table_index(indexes: &mut Vec<CreateTableIndexState>, idx: usize)
    ensures
        idx < old(indexes).len() ==> final(indexes)@ == old(indexes)@.remove(idx as int),
        idx >= old(indexes).len() ==> final(indexes)@ == old(indexes)@,
{
    if idx < indexes.len() {
        indexes.remove(idx);
    }
}

/// Appends a plain index named `idx_tbl_col_<n>` (n = the new index count)
/// over the second column, or the first when there is only one, or no
/// column when there is none.
pub fn add_create_table_index(
    indexes: &mut Vec<CreateTableIndexState>,
    cols: &Vec<CreateTableColumnState>,
)
    requires
        old(indexes).len() < usize::MAX,
    ensures
        final(indexes)@.drop_last() == old(indexes)@,
        final(indexes)@.len() == old(indexes)@.len() + 1,
        final(indexes)@.last().name@ == "idx_tbl_col_"@ + decimal((old(indexes)@.len() + 1) as nat),
        final(indexes)@.last().index_type == TableIndexType::Normal,
        final(indexes)@.last().columns@ == if cols@.len() > 1 {
            cols@[1].name@
        } else if cols@.len() == 1 {
            cols@[0].name@
        } else {
            Seq::<char>::empty()
        },
{
    let count = indexes.len() + 1;
    let target = if cols.len() > 1 {
        cols[1].name.clone()
    } else if cols.len() == 1 {
        cols[0].name.clone()
    } else {
        String::new()
    };
    indexes.push(
        CreateTableIndexState {
            name: with_number("idx_tbl_col_", count),
            index_type: TableIndexType::Normal,
            columns: target,
        },
    );
    assert(indexes@.drop_last() =~= old(indexes)@);
}

/// Switching the kind of an index twice gives the original kind back.
pub proof fn law_index_type_toggle_involution(t: TableIndexType)
    ensures
        flipped_index_type(flipped_index_type(t)) == t,
        flipped_index_type(t) != t,
{
}


// ---------------------------------------------------------------------------
// Table-structure editor
// ---------------------------------------------------------------------------

/// A structure-editor column with the given flags and all else unchanged.
pub open spec fn schema_with_flags(
    c: SchemaEditColumnState,
    pk: bool,
    nullable: bool,
    auto: bool,
    deleted: bool,
) -> SchemaEditColumnState {
    SchemaEditColumnState {
        original_name: c.original_name,
        name: c.name,
        data_type: c.data_type,
        is_primary_key: pk,
        is_nullable: nullable,
        is_auto_increment: auto,
        default_val: c.default_val,
        comment: c.comment,
        is_deleted: deleted,
    }
}

/// The editor row of an existing column.
pub open spec fn edit_row_of(c: ColumnInfo, row: SchemaEditColumnState) -> bool {
    &&& row.original_name == Some(c.name)
    &&& row.name@ == c.name@
    &&& row.data_type@ == c.data_type@
    &&& row.is_primary_key == c.is_primary_key
    &&& row.is_nullable == c.is_nullable
    &&& row.is_auto_increment == c.is_auto_increment
    &&& row.default_val@ == match c.default_value {
        Some(d) => d@,
        None => Seq::<char>::empty(),
    }
    &&& row.comment@ == match c.description {
        Some(d) => d@,
        None => Seq::<char>::empty(),
    }
    &&& !row.is_deleted
}

fn opt_text(s: &Option<String>) -> (res: String)
    ensures
        res@ == match *s {
            Some(d) => d@,
            None => Seq::<char>::empty(),
        },
{
    match s {
        Some(d) => d.clone(),
        None => String::new(),
    }
}

/// Enters the structure editor: one row per existing column, or `None`
/// when the table has no columns to edit.
pub fn start_schema_editing(cols: &Vec<ColumnInfo>) -> (res: Option<Vec<SchemaEditColumnState>>)
    ensures
        cols@.len() == 0 <==> res is None,
        res matches Some(rows) ==> rows@.len() == cols@.len() && forall|i: int|
            0 <= i < cols@.len() ==> edit_row_of(cols@[i], #[trigger] rows@[i]),
{
    if cols.len() == 0 {
        return None;
    }
    let mut rows: Vec<SchemaEditColumnState> = Vec::new();
    let mut i: usize = 0;
    while i < cols.len()
        invariant
            i <= cols.len(),
            rows@.len() == i,
            forall|k: int| 0 <= k < i ==> edit_row_of(cols@[k], #[trigger] rows@[k]),
        decreases cols.len() - i,
    {
        let c = &cols[i];
        let orig = c.name.clone();
        rows.push(
            SchemaEditColumnState {
                original_name: Some(orig),
                name: c.name.clone(),
                data_type: c.data_type.clone(),
                is_primary_key: c.is_primary_key,
                is_nullable: c.is_nullable,
                is_auto_increment: c.is_auto_increment,
                default_val: opt_text(&c.default_value),
                comment: opt_text(&c.description),
                is_deleted: false,
            },
        );
        i += 1;
    }
    Some(rows)
}

fn replace_schema_row(
    rows: &mut Vec<SchemaEditColumnState>,
    idx: usize,
    pk: bool,
    nullable: bool,
    auto: bool,
    deleted: bool,
)
    requires
        idx < old(rows).len(),
    ensures
        final(rows)@ == old(rows)@.update(
            idx as int,
            schema_with_flags(old(rows)@[idx as int], pk, nullable, auto, deleted),
        ),
{
    let mut c = rows.remove(idx);
    c.is_primary_key = pk;
    c.is_nullable = nullable;
    c.is_auto_increment = auto;
    c.is_deleted = deleted;
    rows.insert(idx, c);
    assert(rows@ =~= old(rows)@.update(
        idx as int,
        schema_with_flags(old(rows)@[idx as int], pk, nullable, auto, deleted),
    ));
}

/// Deleting a column in the structure editor: a column added in the editor
/// and not marked is dropped from the list; any other row has its deletion
/// mark flipped.
pub open spec fn schema_delete_toggled(rows: Seq<SchemaEditColumnState>, idx: usize) -> Seq<
    SchemaEditColumnState,
> {
    if idx >= rows.len() {
        rows
    } else {
        let c = rows[idx as int];
        if c.original_name is None && !c.is_deleted {
            rows.remove(idx as int)
        } else {
            rows.update(
                idx as int,
                schema_with_flags(
                    c,
                    c.is_primary_key,
                    c.is_nullable,
                    c.is_auto_increment,
                    !c.is_deleted,
                ),
            )
        }
    }
}

/// Marks or unmarks column `idx` for deletion (a new column is dropped).
pub fn toggle_schema_column_delete(rows: &mut Vec<SchemaEditColumnState>, idx: usize)
    ensures
        final(rows)@ == schema_delete_toggled(old(rows)@, idx),
{
    if idx < rows.len() {
        let is_new = rows[idx].original_name.is_none();
        let deleted = rows[idx].is_deleted;
        if is_new && !deleted {
            rows.remove(idx);
        } else {
            let c = &rows[idx];
            let (pk, n, a) = (c.is_primary_key, c.is_nullable, c.is_auto_increment);
            replace_schema_row(rows, idx, pk, n, a, !deleted);
        }
    }
}

/// Nullable toggle of the structure editor: a nullable column becomes NOT
/// NULL; a NOT NULL column becomes nullable unless it is a primary key.
pub open spec fn schema_nullable_toggled(c: SchemaEditColumnState) -> SchemaEditColumnState {
    if c.is_nullable {
        schema_with_flags(c, c.is_primary_key, false, c.is_auto_increment, c.is_deleted)
    } else if !c.is_primary_key {
        schema_with_flags(c, c.is_primary_key, true, c.is_auto_increment, c.is_deleted)
    } else {
        c
    }
}

/// Primary-key toggle of the structure editor: a new key becomes NOT NULL.
pub open spec fn schema_pk_toggled(c: SchemaEditColumnState) -> SchemaEditColumnState {
    if !c.is_primary_key {
        schema_with_flags(c, true, false, c.is_auto_increment, c.is_deleted)
    } else {
        schema_with_flags(c, false, c.is_nullable, c.is_auto_increment, c.is_deleted)
    }
}

/// Auto-increment toggle of the structure editor: an auto-increment column
/// becomes a NOT NULL primary key.
pub open spec fn schema_auto_toggled(c: SchemaEditColumnState) -> SchemaEditColumnState {
    if !c.is_auto_increment {
        schema_with_flags(c, true, false, true, c.is_deleted)
    } else {
        schema_with_flags(c, c.is_primary_key, c.is_nullable, false, c.is_deleted)
    }
}

/// A constraint toggle of the structure editor.
pub enum SchemaToggle {
    PrimaryKey,
    Nullable,
    AutoIncrement,
}

/// A structure-editor row after a toggle.
pub open spec fn schema_toggled(c: SchemaEditColumnState, t: SchemaToggle) -> SchemaEditColumnState {
    match t {
        SchemaToggle::PrimaryKey => schema_pk_toggled(c),
        SchemaToggle::Nullable => schema_nullable_toggled(c),
        SchemaToggle::AutoIncrement => schema_auto_toggled(c),
    }
}

/// The structure-editor rows after toggling row `idx`, if it exists.
pub open spec fn schema_toggled_at(
    rows: Seq<SchemaEditColumnState>,
    idx: usize,
    t: SchemaToggle,
) -> Seq<SchemaEditColumnState> {
    if idx < rows.len() {
        rows.update(idx as int, schema_toggled(rows[idx as int], t))
    } else {
        rows
    }
}

/// Toggles the nullable flag of structure-editor row `idx`.
pub fn toggle_schema_column_nullable(rows: &mut Vec<SchemaEditColumnState>, idx: usize)
    ensures
        final(rows)@ == schema_toggled_at(old(rows)@, idx, SchemaToggle::Nullable),
{
    if idx < rows.len() {
        let c = &rows[idx];
        let (pk, n, a, d) = (c.is_primary_key, c.is_nullable, c.is_auto_increment, c.is_deleted);
        if n {
            replace_schema_row(rows, idx, pk, false, a, d);
        } else if !pk {
            replace_schema_row(rows, idx, pk, true, a, d);
        }
    }
}

/// Toggles the primary-key flag of structure-editor row `idx`.
pub fn toggle_schema_column_pk(rows: &mut Vec<SchemaEditColumnState>, idx: usize)
    ensures
        final(rows)@ == schema_toggled_at(old(rows)@, idx, SchemaToggle::PrimaryKey),
{
    if idx < rows.len() {
        let c = &rows[idx];
        let (pk, n, a, d) = (c.is_primary_key, c.is_nullable, c.is_auto_increment, c.is_deleted);
        if !pk {
            replace_schema_row(rows, idx, true, false, a, d);
        } else {
            replace_schema_row(rows, idx, false, n, a, d);
        }
    }
}

/// Toggles the auto-increment flag of structure-editor row `idx`.
pub fn toggle_schema_column_auto_increment(rows: &mut Vec<SchemaEditColumnState>, idx: usize)
    ensures
        final(rows)@ == schema_toggled_at(old(rows)@, idx, SchemaToggle::AutoIncrement),
{
    if idx < rows.len() {
        let c = &rows[idx];
        let (pk, n, a, d) = (c.is_primary_key, c.is_nullable, c.is_auto_increment, c.is_deleted);
        if !a {
            replace_schema_row(rows, idx, true, false, true, d);
        } else {
            replace_schema_row(rows, idx, pk, n, false, d);
        }
    }
}

/// Appends a new nullable column named `new_col_<n>` (n = the new row
/// count) with the family's default type.
pub fn add_schema_edit_column(rows: &mut Vec<SchemaEditColumnState>, family: DatabaseFamily)
    requires
        old(rows).len() < usize::MAX,
    ensures
        final(rows)@.len() == old(rows)@.len() + 1,
        final(rows)@.drop_last() == old(rows)@,
        final(rows)@.last().original_name is None,
        final(rows)@.last().name@ == "new_col_"@ + decimal((old(rows)@.len() + 1) as nat),
        final(rows)@.last().data_type@ == default_column_type(family),
        final(rows)@.last().default_val@ == Seq::<char>::empty(),
        final(rows)@.last().comment@ == Seq::<char>::empty(),
        !final(rows)@.last().is_primary_key,
        final(rows)@.last().is_nullable,
        !final(rows)@.last().is_auto_increment,
        !final(rows)@.last().is_deleted,
{
    let n = rows.len() + 1;
    rows.push(
        SchemaEditColumnState {
            original_name: None,
            name: with_number("new_col_", n),
            data_type: default_type_for(family),
            is_primary_key: false,
            is_nullable: true,
            is_auto_increment: false,
            default_val: String::new(),
            comment: String::new(),
            is_deleted: false,
        },
    );
    assert(rows@.drop_last() =~= old(rows)@);
}

/// A primary key of the structure editor is never nullable: every
/// constraint toggle keeps this for a row that has it.
pub proof fn law_schema_toggles_keep_key_not_null(c: SchemaEditColumnState, t: SchemaToggle)
    requires
        c.is_primary_key ==> !c.is_nullable,
    ensures
        schema_toggled(c, t).is_primary_key ==> !schema_toggled(c, t).is_nullable,
        schema_toggled(c, t).is_deleted == c.is_deleted,
        schema_toggled(c, t).original_name == c.original_name,
{
}

/// Marking an existing column for deletion twice restores the rows.
pub proof fn law_schema_delete_toggle_involution(rows: Seq<SchemaEditColumnState>, idx: usize)
    requires
        idx < rows.len(),
        rows[idx as int].original_name is Some,
    ensures
        schema_delete_toggled(schema_delete_toggled(rows, idx), idx) == rows,
{
    let once = schema_delete_toggled(rows, idx);
    assert(once[idx as int].original_name is Some);
    assert(schema_delete_toggled(once, idx) =~= rows);
}


// ---------------------------------------------------------------------------
// Definitions handed to SQL generation
// ---------------------------------------------------------------------------

/// Definition of one column for DDL generation.
#[derive(Debug, Clone)]
pub struct ColumnDef {
    pub name: String,
    pub data_type: String,
    pub is_primary_key: bool,
    pub is_nullable: bool,
    pub is_auto_increment: bool,
    pub default_value: Option<String>,
    pub comment: Option<String>,
}

/// A column of the structure editor as the alteration plan sees it: its
/// name before editing (none for a new column) and its wanted definition.
#[derive(Debug, Clone)]
pub struct AlterColumnTarget {
    pub original_name: Option<String>,
    pub def: ColumnDef,
}

/// A trimmed optional text: none when it is blank.
pub open spec fn trimmed_opt(s: Seq<char>) -> Option<Seq<char>> {
    if trim(s).len() == 0 {
        None
    } else {
        Some(trim(s))
    }
}

/// An optional string whose view is `v`.
pub open spec fn opt_matches(o: Option<String>, v: Option<Seq<char>>) -> bool {
    match (o, v) {
        (Some(a), Some(b)) => a@ == b,
        (None, None) => true,
        _ => false,
    }
}

fn trimmed_opt_exec(s: &String) -> (res: Option<String>)
    ensures
        opt_matches(res, trimmed_opt(s@)),
{
    let cs = chars_of(s.as_str());
    let t = trim_chars(&cs);
    if t.len() == 0 {
        None
    } else {
        Some(string_from_chars(&t))
    }
}

fn trimmed_exec(s: &String) -> (res: String)
    ensures
        res@ == trim(s@),
{
    let cs = chars_of(s.as_str());
    let t = trim_chars(&cs);
    string_from_chars(&t)
}

/// Whether a structure-editor row enters the alteration plan: it is not
/// marked for deletion and its trimmed name is not blank.
pub open spec fn row_targeted(r: SchemaEditColumnState) -> bool {
    !r.is_deleted && trim(r.name@).len() > 0
}

/// The alteration target of a structure-editor row: trimmed name and type,
/// flags as edited, trimmed default and comment (none when blank).
pub open spec fn target_of(r: SchemaEditColumnState, t: AlterColumnTarget) -> bool {
    &&& t.original_name == r.original_name
    &&& t.def.name@ == trim(r.name@)
    &&& t.def.data_type@ == trim(r.data_type@)
    &&& t.def.is_primary_key == r.is_primary_key
    &&& t.def.is_nullable == r.is_nullable
    &&& t.def.is_auto_increment == r.is_auto_increment
    &&& opt_matches(t.def.default_value, trimmed_opt(r.default_val@))
    &&& opt_matches(t.def.comment, trimmed_opt(r.comment@))
}

/// Indices, in order, of the first `n` rows that enter the plan.
pub open spec fn targeted_rows(rows: Seq<SchemaEditColumnState>, n: int) -> Seq<int>
    decreases n,
{
    if n <= 0 {
        Seq::empty()
    } else if row_targeted(rows[n - 1]) {
        targeted_rows(rows, n - 1).push(n - 1)
    } else {
        targeted_rows(rows, n - 1)
    }
}

/// Collects the alteration targets of the structure editor: one per row
/// not marked for deletion and with a non-blank name, in row order.
pub fn collect_alter_column_targets(rows: &Vec<SchemaEditColumnState>) -> (res: Vec<AlterColumnTarget>)
    ensures
        res@.len() == targeted_rows(rows@, rows@.len() as int).len(),
        forall|k: int|
            0 <= k < res@.len() ==> target_of(
                rows@[targeted_rows(rows@, rows@.len() as int)[k]],
                #[trigger] res@[k],
            ),
{
    let mut res: Vec<AlterColumnTarget> = Vec::new();
    let mut i: usize = 0;
    while i < rows.len()
        invariant
            i <= rows.len(),
            res@.len() == targeted_rows(rows@, i as int).len(),
            forall|k: int|
                0 <= k < res@.len() ==> target_of(
                    rows@[targeted_rows(rows@, i as int)[k]],
                    #[trigger] res@[k],
                ),
        decreases rows.len() - i,
    {
        let r = &rows[i];
        let ghost prev = targeted_rows(rows@, i as int);
        if !r.is_deleted {
            let name = trimmed_exec(&r.name);
            let name_len = chars_of(name.as_str()).len();
            if name_len > 0 {
                let def = ColumnDef {
                    name,
                    data_type: trimmed_exec(&r.data_type),
                    is_primary_key: r.is_primary_key,
                    is_nullable: r.is_nullable,
                    is_auto_increment: r.is_auto_increment,
                    default_value: trimmed_opt_exec(&r.default_val),
                    comment: trimmed_opt_exec(&r.comment),
                };
                let ghost old_res = res@;
                res.push(AlterColumnTarget { original_name: r.original_name.clone(), def });
                proof {
                    assert(targeted_rows(rows@, i + 1) == prev.push(i as int));
                    assert forall|k: int| 0 <= k < res@.len() implies target_of(
                        rows@[targeted_rows(rows@, i + 1)[k]],
                        #[trigger] res@[k],
                    ) by {
                        if k < old_res.len() {
                            assert(res@[k] == old_res[k]);
                            assert(targeted_rows(rows@, i + 1)[k] == prev[k]);
                        }
                    }
                }
            } else {
                assert(targeted_rows(rows@, i + 1) == prev);
            }
        } else {
            assert(targeted_rows(rows@, i + 1) == prev);
        }
        i += 1;
    }
    res
}

/// Definition of a table for DDL generation.
#[derive(Debug, Clone)]
pub struct CreateTableDef {
    pub table_name: String,
    pub schema: Option<String>,
    pub comment: Option<String>,
    pub columns: Vec<ColumnDef>,
    pub indexes: Vec<TableIndexDef>,
}

/// Definition of one index for DDL generation.
#[derive(Debug, Clone)]
pub struct TableIndexDef {
    pub name: String,
    pub columns: Vec<String>,
    pub unique: bool,
}

/// The definition of a designer column: name and type as typed, flags as
/// set, trimmed default and comment (none when blank).
pub open spec fn column_def_of(c: CreateTableColumnState, d: ColumnDef) -> bool {
    &&& d.name@ == c.name@
    &&& d.data_type@ == c.data_type@
    &&& d.is_primary_key == c.is_primary_key
    &&& d.is_nullable == c.is_nullable
    &&& d.is_auto_increment == c.is_auto_increment
    &&& opt_matches(d.default_value, trimmed_opt(c.default_val@))
    &&& opt_matches(d.comment, trimmed_opt(c.comment@))
}

/// Indices, in order, of the first `n` indexes whose column list is not empty.
pub open spec fn kept_indexes(parsed_columns: Seq<Vec<String>>, n: int) -> Seq<int>
    decreases n,
{
    if n <= 0 {
        Seq::empty()
    } else if parsed_columns[n - 1]@.len() > 0 {
        kept_indexes(parsed_columns, n - 1).push(n - 1)
    } else {
        kept_indexes(parsed_columns, n - 1)
    }
}

fn column_def_from(c: &CreateTableColumnState) -> (res: ColumnDef)
    ensures
        column_def_of(*c, res),
{
    ColumnDef {
        name: c.name.clone(),
        data_type: c.data_type.clone(),
        is_primary_key: c.is_primary_key,
        is_nullable: c.is_nullable,
        is_auto_increment: c.is_auto_increment,
        default_value: trimmed_opt_exec(&c.default_val),
        comment: trimmed_opt_exec(&c.comment),
    }
}

/// Builds the table definition from the designer: the table name as typed,
/// schema and comment trimmed (none when blank), one definition per column,
/// and one index per index row whose column list (`parsed_columns`, the
/// row's column text already split into names) is not empty.
pub fn build_create_table_def(
    table_name: &str,
    schema_input: &str,
    comment_input: &str,
    cols: &Vec<CreateTableColumnState>,
    indexes: &Vec<CreateTableIndexState>,
    parsed_columns: Vec<Vec<String>>,
) -> (res: CreateTableDef)
    requires
        parsed_columns@.len() == indexes@.len(),
    ensures
        res.table_name@ == table_name@,
        opt_matches(res.schema, trimmed_opt(schema_input@)),
        opt_matches(res.comment, trimmed_opt(comment_input@)),
        res.columns@.len() == cols@.len(),
        forall|i: int| 0 <= i < cols@.len() ==> column_def_of(cols@[i], #[trigger] res.columns@[i]),
        res.indexes@.len() == kept_indexes(parsed_columns@, parsed_columns@.len() as int).len(),
        forall|k: int|
            0 <= k < res.indexes@.len() ==> {
                let j = kept_indexes(parsed_columns@, parsed_columns@.len() as int)[k];
                &&& (#[trigger] res.indexes@[k]).name@ == indexes@[j].name@
                &&& res.indexes@[k].columns@ == parsed_columns@[j]@
                &&& res.indexes@[k].unique == (indexes@[j].index_type == TableIndexType::Unique)
            },
{
    let schema = {
        let s = string_of(schema_input);
        trimmed_opt_exec(&s)
    };
    let comment = {
        let s = string_of(comment_input);
        trimmed_opt_exec(&s)
    };
    let mut columns: Vec<ColumnDef> = Vec::new();
    let mut i: usize = 0;
    while i < cols.len()
        invariant
            i <= cols.len(),
            columns@.len() == i,
            forall|k: int| 0 <= k < i ==> column_def_of(cols@[k], #[trigger] columns@[k]),
        decreases cols.len() - i,
    {
        columns.push(column_def_from(&cols[i]));
        i += 1;
    }
    let ghost parsed = parsed_columns@;
    let mut parsed_columns = parsed_columns;
    let mut defs: Vec<TableIndexDef> = Vec::new();
    let mut j: usize = 0;
    let n = indexes.len();
    while j < n
        invariant
            n == indexes.len(),
            j <= n,
            parsed.len() == n,
            parsed_columns@ == parsed.skip(j as int),
            defs@.len() == kept_indexes(parsed, j as int).len(),
            forall|k: int|
                0 <= k < defs@.len() ==> {
                    let x = kept_indexes(parsed, j as int)[k];
                    &&& (#[trigger] defs@[k]).name@ == indexes@[x].name@
                    &&& defs@[k].columns@ == parsed[x]@
                    &&& defs@[k].unique == (indexes@[x].index_type == TableIndexType::Unique)
                },
        decreases n - j,
    {
        let list = parsed_columns.remove(0);
        assert(list == parsed[j as int]);
        assert(parsed_columns@ =~= parsed.skip(j + 1));
        let ghost prev = kept_indexes(parsed, j as int);
        let ghost old_defs = defs@;
        if list.len() > 0 {
            let unique = match indexes[j].index_type {
                TableIndexType::Unique => true,
                TableIndexType::Normal => false,
            };
            defs.push(TableIndexDef { name: indexes[j].name.clone(), columns: list, unique });
            proof {
                assert(kept_indexes(parsed, j + 1) == prev.push(j as int));
                assert forall|k: int| 0 <= k < defs@.len() implies {
                    let x = kept_indexes(parsed, j + 1)[k];
                    &&& (#[trigger] defs@[k]).name@ == indexes@[x].name@
                    &&& defs@[k].columns@ == parsed[x]@
                    &&& defs@[k].unique == (indexes@[x].index_type == TableIndexType::Unique)
                } by {
                    if k < old_defs.len() {
                        assert(defs@[k] == old_defs[k]);
                        assert(kept_indexes(parsed, j + 1)[k] == prev[k]);
                    }
                }
            }
        } else {
            assert(kept_indexes(parsed, j + 1) == prev);
        }
        j += 1;
    }
    CreateTableDef {
        table_name: string_of(table_name),
        schema,
        comment,
        columns,
        indexes: defs,
    }
}

// ---------------------------------------------------------------------------
// What each constraint toggle does
// ---------------------------------------------------------------------------

/// The two columns carry the same name, type, default and comment.
pub open spec fn same_column_text(a: CreateTableColumnState, b: CreateTableColumnState) -> bool {
    &&& a.name == b.name
    &&& a.data_type == b.data_type
    &&& a.default_val == b.default_val
    &&& a.comment == b.comment
}

/// The two structure-editor rows carry the same original name, name, type,
/// default, comment and deletion mark.
pub open spec fn same_row_text(a: SchemaEditColumnState, b: SchemaEditColumnState) -> bool {
    &&& a.original_name == b.original_name
    &&& a.name == b.name
    &&& a.data_type == b.data_type
    &&& a.default_val == b.default_val
    &&& a.comment == b.comment
    &&& a.is_deleted == b.is_deleted
}

/// In the Create Table designer, toggling a flag of column `idx` changes
/// that column's flags only, and no other column:
/// - primary key: a column that is not a key becomes a NOT NULL key and
///   keeps its auto-increment flag; a key stops being one, keeps its
///   nullability and loses auto-increment;
/// - nullable: a NOT NULL column becomes nullable and loses key and
///   auto-increment; a nullable column becomes NOT NULL and keeps the rest;
/// - auto-increment: turning it on makes the column a NOT NULL key; turning
///   it off keeps key and nullability.
pub proof fn law_create_table_toggle_effects(
    cols: Seq<CreateTableColumnState>,
    idx: usize,
    t: ColumnToggle,
)
    requires
        idx < cols.len(),
    ensures
        ({
            let r = toggled_at(cols, idx, t);
            let c = cols[idx as int];
            let d = r[idx as int];
            &&& r.len() == cols.len()
            &&& forall|j: int| 0 <= j < cols.len() && j != idx ==> #[trigger] r[j] == cols[j]
            &&& same_column_text(c, d)
            &&& t == ColumnToggle::PrimaryKey && !c.is_primary_key ==> d.is_primary_key
                && !d.is_nullable && d.is_auto_increment == c.is_auto_increment
            &&& t == ColumnToggle::PrimaryKey && c.is_primary_key ==> !d.is_primary_key
                && d.is_nullable == c.is_nullable && !d.is_auto_increment
            &&& t == ColumnToggle::Nullable && !c.is_nullable ==> d.is_nullable
                && !d.is_primary_key && !d.is_auto_increment
            &&& t == ColumnToggle::Nullable && c.is_nullable ==> !d.is_nullable
                && d.is_primary_key == c.is_primary_key && d.is_auto_increment
                == c.is_auto_increment
            &&& t == ColumnToggle::AutoIncrement && !c.is_auto_increment ==> d.is_auto_increment
                && d.is_primary_key && !d.is_nullable
            &&& t == ColumnToggle::AutoIncrement && c.is_auto_increment ==> !d.is_auto_increment
                && d.is_primary_key == c.is_primary_key && d.is_nullable == c.is_nullable
        }),
{
}

/// In the structure editor, toggling a flag of row `idx` changes that row's
/// flags only, and no other row:
/// - primary key: a row that is not a key becomes a NOT NULL key; a key
///   stops being one; nullability is kept in that case and auto-increment
///   in both;
/// - nullable: a NOT NULL row becomes nullable unless it is a key (then
///   nothing changes); a nullable row becomes NOT NULL; key and
///   auto-increment are kept;
/// - auto-increment: turning it on makes the row a NOT NULL key; turning it
///   off keeps key and nullability.
pub proof fn law_schema_toggle_effects(rows: Seq<SchemaEditColumnState>, idx: usize, t: SchemaToggle)
    requires
        idx < rows.len(),
    ensures
        ({
            let r = schema_toggled_at(rows, idx, t);
            let c = rows[idx as int];
            let d = r[idx as int];
            &&& r.len() == rows.len()
            &&& forall|j: int| 0 <= j < rows.len() && j != idx ==> #[trigger] r[j] == rows[j]
            &&& same_row_text(c, d)
            &&& t == SchemaToggle::PrimaryKey && !c.is_primary_key ==> d.is_primary_key
                && !d.is_nullable && d.is_auto_increment == c.is_auto_increment
            &&& t == SchemaToggle::PrimaryKey && c.is_primary_key ==> !d.is_primary_key
                && d.is_nullable == c.is_nullable && d.is_auto_increment == c.is_auto_increment
            &&& t == SchemaToggle::Nullable && !c.is_nullable && !c.is_primary_key ==> d.is_nullable
                && !d.is_primary_key && d.is_auto_increment == c.is_auto_increment
            &&& t == SchemaToggle::Nullable && !c.is_nullable && c.is_primary_key ==> d == c
            &&& t == SchemaToggle::Nullable && c.is_nullable ==> !d.is_nullable
                && d.is_primary_key == c.is_primary_key && d.is_auto_increment
                == c.is_auto_increment
            &&& t == SchemaToggle::AutoIncrement && !c.is_auto_increment ==> d.is_auto_increment
                && d.is_primary_key && !d.is_nullable
            &&& t == SchemaToggle::AutoIncrement && c.is_auto_increment ==> !d.is_auto_increment
                && d.is_primary_key == c.is_primary_key && d.is_nullable == c.is_nullable
        }),
{
}

} // verus!
