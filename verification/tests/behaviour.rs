use zqlcrab::cell_edit::{parse_edited_query_value, parse_edited_value_lowered, parse_i64_chars};
use zqlcrab::connection_form::{
    connected_database_name, database_icon, dialog_name, dialog_password, dialog_port, dialog_sqlite_path,
    duplicate_profile_name, EngineIcon,
};
use zqlcrab::console::{
    blocked_by_safe_mode, choose_statement, query_status_message, ConsoleBottomTab, QuerySession,
    QueryStart,
};
use zqlcrab::designer::{
    add_create_table_column, add_create_table_index, add_schema_edit_column,
    build_create_table_def, collect_alter_column_targets, default_create_schema,
    initial_create_table_columns, remove_create_table_column, remove_create_table_index,
    start_schema_editing, toggle_create_table_auto_inc, toggle_create_table_index_type,
    toggle_create_table_nullable, toggle_create_table_pk, toggle_schema_column_auto_increment,
    toggle_schema_column_delete, toggle_schema_column_nullable, toggle_schema_column_pk,
    CreateTableIndexState, TableIndexType,
};
use zqlcrab::error_dialog::{line_count, wrap_error_text, DatabaseFamily, DatabaseType};
use zqlcrab::grid::{
    compute_grid_display_items, GridCellCoord, GridDisplayItem, InsertAnchor, QueryValue,
    RowInsertion,
};
use zqlcrab::inspector::{format_inspector_with, row_json_fields, row_to_tsv, JsonField};
use zqlcrab::nav::{
    confirm_success, drop_confirmation, explain_tab_index, explain_view_for_tab,
    truncate_statement, ConfirmActionKind, ExplainViewMode, SelectionAfterAction,
    TableConfirmActionState,
};
use zqlcrab::new_row::{
    adjust_selection_after_discard, column_is_auto, plan_duplicate_row, plan_new_row, ColumnInfo,
};
use zqlcrab::pagination::{
    click_sort_header, filter_rows, layout_page, page_window, row_count_label, staged_summary,
    table_preview_query,
    SortDirection,
};
use zqlcrab::text::{contains_str, with_number};

fn s(x: &str) -> String {
    x.to_string()
}

fn ins(temp_id: usize, anchor: InsertAnchor) -> RowInsertion {
    RowInsertion { temp_id, values: vec![QueryValue::Null], anchor }
}

fn col(name: &str, ty: &str, pk: bool, auto: bool, default: Option<&str>) -> ColumnInfo {
    ColumnInfo {
        name: s(name),
        data_type: s(ty),
        is_primary_key: pk,
        is_nullable: !pk,
        is_auto_increment: auto,
        default_value: default.map(s),
        description: None,
    }
}

// ----- navigation -----

#[test]
fn confirm_kinds_and_explain_tabs() {
    assert!(ConfirmActionKind::DropTable.is_drop());
    assert!(ConfirmActionKind::DropView.is_drop());
    assert!(!ConfirmActionKind::TruncateTable.is_drop());
    assert!(ConfirmActionKind::DropView.is_view());
    assert!(!ConfirmActionKind::DropTable.is_view());
    assert_eq!(ExplainViewMode::default(), ExplainViewMode::Tree);
    for v in [ExplainViewMode::Tree, ExplainViewMode::Summary, ExplainViewMode::Raw] {
        assert_eq!(explain_view_for_tab(explain_tab_index(v)), v);
    }
    assert_eq!(explain_tab_index(ExplainViewMode::Raw), 2);
    assert_eq!(explain_view_for_tab(7), ExplainViewMode::Tree);
}

#[test]
fn confirmation_statements() {
    let (k, sql) = drop_confirmation(true, "\"public\".\"v\"");
    assert_eq!(k, ConfirmActionKind::DropView);
    assert_eq!(sql, "DROP VIEW \"public\".\"v\";");
    let (k, sql) = drop_confirmation(false, "users");
    assert_eq!(k, ConfirmActionKind::DropTable);
    assert_eq!(sql, "DROP TABLE users;");
    assert_eq!(truncate_statement(DatabaseFamily::Sqlite, "t"), "DELETE FROM t;");
    assert_eq!(truncate_statement(DatabaseFamily::MySql, "t"), "TRUNCATE TABLE t;");
}

#[test]
fn database_families() {
    assert_eq!(DatabaseType::Sqlite.family(), DatabaseFamily::Sqlite);
    assert_eq!(DatabaseType::MariaDB.family(), DatabaseFamily::MySql);
    assert_eq!(DatabaseType::CloudSQLMySQL.family(), DatabaseFamily::MySql);
    assert_eq!(DatabaseType::CockroachDB.family(), DatabaseFamily::Postgres);
    assert_eq!(DatabaseType::FujitsuPG.family(), DatabaseFamily::Postgres);
}

// ----- error text -----

#[test]
fn wrap_zero_limit_breaks_before_every_character() {
    assert_eq!(wrap_error_text("ab c", 0), "\na\nb \nc");
}

#[test]
fn wrap_counts_runs_between_spaces() {
    assert_eq!(wrap_error_text("abcd ef", 2), "ab\ncd ef");
    assert_eq!(wrap_error_text("abcdefg", 3), "abc\ndef\ng");
}

#[test]
fn wrap_normalises_line_endings() {
    assert_eq!(wrap_error_text("one\r\ntwo\n", 10), "one\ntwo");
    assert_eq!(wrap_error_text("", 10), "");
    assert_eq!(wrap_error_text("a\n\nb", 10), "a\n\nb");
    assert_eq!(wrap_error_text("x\r", 10), "x\r");
}

#[test]
fn wrapped_runs_never_exceed_limit() {
    let text = "path=/var/run/postgresql/.s.PGSQL.5432/verylongsegment failed";
    let out = wrap_error_text(text, 8);
    for token in out.split(|c: char| c.is_whitespace()) {
        assert!(token.chars().count() <= 8);
    }
    let rejoined: String = out.chars().filter(|c| *c != '\n').collect();
    assert_eq!(rejoined, text);
}

#[test]
fn line_counts_follow_str_lines() {
    assert_eq!(line_count(""), 0);
    assert_eq!(line_count("a\nb\n"), 2);
    assert_eq!(line_count("a\n\nb"), 3);
}

// ----- grid layout -----

#[test]
fn layout_skips_rows_of_other_pages() {
    let rows = vec![ins(5, InsertAnchor::PageEnd(1)), ins(6, InsertAnchor::PageEnd(0))];
    let items = compute_grid_display_items(&[3, 4], 0, 2, &rows);
    assert_eq!(
        items,
        vec![GridDisplayItem::Original(0, 3), GridDisplayItem::Original(1, 4), GridDisplayItem::Inserted(1)]
    );
}

#[test]
fn layout_falls_back_for_orphans_and_out_of_range_pages() {
    let rows = vec![
        ins(1, InsertAnchor::AfterRow(99)),
        ins(2, InsertAnchor::PageEnd(7)),
        ins(3, InsertAnchor::PageEnd(1)),
        ins(4, InsertAnchor::AfterInserted(3)),
    ];
    let items = compute_grid_display_items(&[0], 0, 2, &rows);
    assert_eq!(
        items,
        vec![
            GridDisplayItem::Original(0, 0),
            GridDisplayItem::Inserted(0),
            GridDisplayItem::Inserted(1),
            GridDisplayItem::Inserted(3),
        ]
    );
}

#[test]
fn layout_places_each_staged_row_once_despite_cycles() {
    let rows = vec![ins(1, InsertAnchor::AfterInserted(2)), ins(2, InsertAnchor::AfterInserted(1))];
    let items = compute_grid_display_items(&[], 0, 1, &rows);
    assert_eq!(items, vec![GridDisplayItem::Inserted(0), GridDisplayItem::Inserted(1)]);
}

#[test]
fn layout_empty_page() {
    assert_eq!(compute_grid_display_items(&[], 0, 1, &[]), vec![]);
}

// ----- pagination, filtering, sorting -----

#[test]
fn page_windows() {
    let w = page_window(120, 50, 1);
    assert_eq!((w.total_pages, w.current_page, w.start, w.end), (3, 1, 50, 100));
    let w = page_window(120, 50, 9);
    assert_eq!((w.total_pages, w.current_page, w.start, w.end), (3, 2, 100, 120));
    let w = page_window(0, 50, 4);
    assert_eq!((w.total_pages, w.current_page, w.start, w.end), (1, 0, 0, 0));
    let w = page_window(100, 50, 1);
    assert_eq!((w.total_pages, w.current_page, w.start, w.end), (2, 1, 50, 100));
}

#[test]
fn page_layout_uses_page_slice() {
    let idx: Vec<usize> = vec![9, 8, 7, 6, 5];
    let rows = vec![ins(0, InsertAnchor::AfterRow(6)), ins(1, InsertAnchor::PageEnd(0))];
    let (w, items) = layout_page(&idx, 2, 1, &rows);
    assert_eq!((w.start, w.end, w.total_pages), (2, 4, 3));
    assert_eq!(
        items,
        vec![GridDisplayItem::Original(0, 7), GridDisplayItem::Original(1, 6), GridDisplayItem::Inserted(0)]
    );
}

#[test]
fn keyword_filter_is_case_insensitive() {
    let rows = vec![
        vec![s("1"), s("Crab")],
        vec![s("2"), s("lobster")],
        vec![s("3"), s("HERMIT CRAB")],
    ];
    assert_eq!(filter_rows(&rows, "crab"), vec![0, 2]);
    assert_eq!(filter_rows(&rows, "CRAB"), vec![0, 2]);
    assert_eq!(filter_rows(&rows, ""), vec![0, 1, 2]);
    assert_eq!(filter_rows(&rows, "shrimp"), Vec::<usize>::new());
}

#[test]
fn sort_header_cycles() {
    let (c, d) = click_sort_header(None, None, 2);
    assert_eq!((c, d), (Some(2), Some(SortDirection::Ascending)));
    let (c, d) = click_sort_header(c, d, 2);
    assert_eq!((c, d), (Some(2), Some(SortDirection::Descending)));
    let (c, d) = click_sort_header(c, d, 2);
    assert_eq!((c, d), (None, None));
    let (c, d) = click_sort_header(Some(1), Some(SortDirection::Descending), 3);
    assert_eq!((c, d), (Some(3), Some(SortDirection::Ascending)));
}

// ----- inspector and row copy -----

#[test]
fn inspector_with_given_outcomes() {
    let (v, j, c, l) = format_inspector_with(" [1,2] ", true, true, Some("[\n  1,\n  2\n]"));
    assert_eq!((v.as_str(), j, c, l), ("[\n  1,\n  2\n]", true, 12, 4));
    let (v, j, c, l) = format_inspector_with("[1,2", true, true, Some("x"));
    assert_eq!((v.as_str(), j, c, l), ("[1,2", false, 4, 1));
    let (v, j, _, _) = format_inspector_with("{oops}", true, false, None);
    assert_eq!((v.as_str(), j), ("{oops}", false));
    let (_, _, c, l) = format_inspector_with("", false, false, None);
    assert_eq!((c, l), (0, 1));
}

#[test]
fn tsv_of_single_and_empty_rows() {
    assert_eq!(row_to_tsv(&[s("a\tb")]), "a b");
    assert_eq!(row_to_tsv(&[]), "");
    assert_eq!(row_to_tsv(&[s(""), s("")]), "\t");
}

// ----- cell editing -----

#[test]
fn edited_markers_and_blanks() {
    let t = QueryValue::String(s("old"));
    assert_eq!(parse_edited_query_value("  NuLl ", &t, "TEXT", None), QueryValue::Null);
    assert_eq!(parse_edited_query_value("<AUTO>", &t, "TEXT", None), QueryValue::String(s("<auto>")));
    assert_eq!(parse_edited_query_value("<Default>", &t, "TEXT", None), QueryValue::String(s("<default>")));
    assert_eq!(parse_edited_query_value("   ", &QueryValue::Int(3), "INTEGER", None), QueryValue::Null);
    assert_eq!(parse_edited_query_value("   ", &t, "VARCHAR(20)", None), QueryValue::String(s("   ")));
}

#[test]
fn edited_values_follow_the_current_kind() {
    assert_eq!(parse_edited_query_value(" 42 ", &QueryValue::Int(1), "bigint", None), QueryValue::Int(42));
    assert_eq!(parse_edited_query_value("4x", &QueryValue::Int(1), "bigint", None), QueryValue::String(s("4x")));
    assert_eq!(parse_edited_query_value("TRUE", &QueryValue::Bool(false), "boolean", None), QueryValue::Bool(true));
    assert_eq!(parse_edited_query_value("0", &QueryValue::Bool(true), "boolean", None), QueryValue::Bool(false));
    assert_eq!(parse_edited_query_value("yes", &QueryValue::Bool(true), "boolean", None), QueryValue::String(s("yes")));
    let bits = 2.5f64.to_bits();
    assert_eq!(parse_edited_query_value("2.5", &QueryValue::Float(0), "real", Some(bits)), QueryValue::Float(bits));
    assert_eq!(parse_edited_query_value("abc", &QueryValue::Float(0), "real", None), QueryValue::String(s("abc")));
    assert_eq!(parse_edited_query_value(" 2024-01-01 ", &QueryValue::DateTime(s("x")), "timestamp", None), QueryValue::DateTime(s(" 2024-01-01 ")));
    assert_eq!(parse_edited_query_value("zz", &QueryValue::Bytes(vec![1]), "blob", None), QueryValue::String(s("zz")));
}

#[test]
fn edited_null_cells_follow_the_column_type() {
    let n = QueryValue::Null;
    assert_eq!(parse_edited_query_value("7", &n, "INTEGER", None), QueryValue::Int(7));
    assert_eq!(parse_edited_query_value("7", &n, "BigSerial", None), QueryValue::Int(7));
    let bits = 7.0f64.to_bits();
    assert_eq!(parse_edited_query_value("7", &n, "DOUBLE PRECISION", Some(bits)), QueryValue::Float(bits));
    assert_eq!(parse_edited_query_value("1", &n, "BOOL", None), QueryValue::Bool(true));
    assert_eq!(parse_edited_query_value("1", &n, "TEXT", None), QueryValue::String(s("1")));
    assert_eq!(parse_edited_value_lowered("9", &n, "int", None), QueryValue::Int(9));
}

#[test]
fn integer_parsing_matches_std() {
    for text in ["0", "-0", "+17", "-17", "9223372036854775807", "-9223372036854775808",
                 "9223372036854775808", "-9223372036854775809", "", "+", "-", "1_000", " 1", "99999999999999999999999"] {
        let chars: Vec<char> = text.chars().collect();
        assert_eq!(parse_i64_chars(&chars), text.parse::<i64>().ok(), "{text}");
    }
}

// ----- new and duplicated rows -----

#[test]
fn new_row_defaults() {
    let schema = vec![
        col("id", "INTEGER", true, false, None),
        col("Name", "TEXT", false, false, Some("'anon'")),
        col("note", "TEXT", false, false, Some(" NULL ")),
        col("seq", "bigserial", false, false, None),
    ];
    let cols = vec![s("ID"), s("name"), s("note"), s("seq"), s("extra")];
    let plan = plan_new_row(Some(&cols), &schema, true, None, &vec![], 3);
    assert_eq!(
        plan.values,
        vec![
            QueryValue::String(s("<auto>")),
            QueryValue::String(s("'anon'")),
            QueryValue::Null,
            QueryValue::String(s("<auto>")),
            QueryValue::Null,
        ]
    );
    assert_eq!(plan.first_editable_col, 1);
    assert_eq!(plan.anchor, InsertAnchor::PageEnd(3));

    let plan = plan_new_row(Some(&cols), &schema, false, Some(GridCellCoord::existing(4, 0)), &vec![], 0);
    assert_eq!(plan.values[0], QueryValue::Null);
    assert_eq!(plan.first_editable_col, 0);
    assert_eq!(plan.anchor, InsertAnchor::AfterRow(4));
}

#[test]
fn new_row_without_result_or_schema() {
    let plan = plan_new_row(None, &vec![], false, Some(GridCellCoord::inserted(1, 0)), &vec![10, 11], 2);
    assert_eq!(plan.values, vec![QueryValue::Null]);
    assert_eq!(plan.anchor, InsertAnchor::AfterInserted(11));
    let plan = plan_new_row(None, &vec![], false, Some(GridCellCoord::inserted(5, 0)), &vec![10], 2);
    assert_eq!(plan.anchor, InsertAnchor::PageEnd(2));
}

#[test]
fn duplicated_rows_reset_generated_columns() {
    let schema = vec![col("id", "int", false, true, None), col("v", "text", false, false, None)];
    let cols = vec![s("id"), s("v")];
    let src = vec![QueryValue::Int(5), QueryValue::String(s("x"))];
    let plan = plan_duplicate_row(src, &cols, &schema, false, GridCellCoord::existing(3, 1), &vec![], 0);
    assert_eq!(plan.values, vec![QueryValue::String(s("<auto>")), QueryValue::String(s("x"))]);
    assert_eq!(plan.first_editable_col, 1);
    assert_eq!(plan.anchor, InsertAnchor::AfterRow(3));
    assert!(column_is_auto(&col("k", "INT", true, false, None), true));
    assert!(!column_is_auto(&col("k", "INT", true, false, None), false));
}

#[test]
fn selection_follows_discarded_rows() {
    assert_eq!(adjust_selection_after_discard(Some(GridCellCoord::inserted(2, 1)), 2), None);
    assert_eq!(adjust_selection_after_discard(Some(GridCellCoord::inserted(3, 1)), 2), Some(GridCellCoord::inserted(2, 1)));
    assert_eq!(adjust_selection_after_discard(Some(GridCellCoord::inserted(1, 1)), 2), Some(GridCellCoord::inserted(1, 1)));
    assert_eq!(adjust_selection_after_discard(Some(GridCellCoord::existing(2, 1)), 2), Some(GridCellCoord::existing(2, 1)));
    assert_eq!(adjust_selection_after_discard(None, 0), None);
}

// ----- table designers -----

#[test]
fn create_table_designer_flow() {
    let mut cols = initial_create_table_columns(DatabaseFamily::Postgres);
    assert_eq!(cols[0].data_type, "SERIAL");
    assert_eq!(cols[1].data_type, "VARCHAR(255)");
    add_create_table_column(&mut cols, DatabaseFamily::Sqlite);
    assert_eq!(cols[2].name, "col_3");
    assert_eq!(cols[2].data_type, "TEXT");
    assert!(cols[2].is_nullable);
    toggle_create_table_auto_inc(&mut cols, 2);
    assert!(cols[2].is_auto_increment && cols[2].is_primary_key && !cols[2].is_nullable);
    toggle_create_table_pk(&mut cols, 2);
    assert!(!cols[2].is_primary_key && !cols[2].is_auto_increment);
    toggle_create_table_nullable(&mut cols, 0);
    assert!(cols[0].is_nullable && !cols[0].is_primary_key && !cols[0].is_auto_increment);
    toggle_create_table_nullable(&mut cols, 9);
    assert_eq!(cols.len(), 3);
    remove_create_table_column(&mut cols, 0);
    assert_eq!(cols.len(), 2);
    assert_eq!(cols[0].name, "name");
    remove_create_table_column(&mut cols, 0);
    remove_create_table_column(&mut cols, 0);
    assert_eq!(cols.len(), 1);
    assert_eq!(default_create_schema(DatabaseFamily::Postgres, "db"), "public");
    assert_eq!(default_create_schema(DatabaseFamily::MySql, "db"), "db");
    assert_eq!(default_create_schema(DatabaseFamily::Sqlite, "db"), "");
}

#[test]
fn create_table_indexes() {
    let cols = initial_create_table_columns(DatabaseFamily::MySql);
    let mut idx: Vec<CreateTableIndexState> = Vec::new();
    add_create_table_index(&mut idx, &cols);
    add_create_table_index(&mut idx, &cols[..1].to_vec());
    assert_eq!(idx[0].name, "idx_tbl_col_1");
    assert_eq!(idx[0].columns, "name");
    assert_eq!(idx[1].name, "idx_tbl_col_2");
    assert_eq!(idx[1].columns, "id");
    toggle_create_table_index_type(&mut idx, 1);
    assert_eq!(idx[1].index_type, TableIndexType::Unique);
    toggle_create_table_index_type(&mut idx, 1);
    assert_eq!(idx[1].index_type, TableIndexType::Normal);
    let def = build_create_table_def(
        "t",
        "  app  ",
        "   ",
        &cols,
        &idx,
        vec![vec![s("name")], vec![]],
    );
    assert_eq!(def.schema.as_deref(), Some("app"));
    assert_eq!(def.comment, None);
    assert_eq!(def.columns.len(), 2);
    assert_eq!(def.indexes.len(), 1);
    assert_eq!(def.indexes[0].name, "idx_tbl_col_1");
    assert!(!def.indexes[0].unique);
    remove_create_table_index(&mut idx, 0);
    assert_eq!(idx.len(), 1);
}

#[test]
fn structure_editor_flow() {
    assert!(start_schema_editing(&vec![]).is_none());
    let mut info = vec![col("id", "INT", true, true, Some("0"))];
    info[0].description = Some(s("key"));
    let mut rows = start_schema_editing(&info).unwrap();
    assert_eq!(rows[0].original_name.as_deref(), Some("id"));
    assert_eq!(rows[0].default_val, "0");
    assert_eq!(rows[0].comment, "key");
    add_schema_edit_column(&mut rows, DatabaseFamily::MySql);
    assert_eq!(rows[1].name, "new_col_2");
    assert_eq!(rows[1].data_type, "VARCHAR(255)");
    toggle_schema_column_nullable(&mut rows, 0);
    assert!(!rows[0].is_nullable);
    toggle_schema_column_nullable(&mut rows, 0);
    assert!(!rows[0].is_nullable);
    toggle_schema_column_pk(&mut rows, 1);
    assert!(rows[1].is_primary_key && !rows[1].is_nullable);
    toggle_schema_column_auto_increment(&mut rows, 1);
    assert!(rows[1].is_auto_increment);
    toggle_schema_column_delete(&mut rows, 0);
    assert!(rows[0].is_deleted);
    let targets = collect_alter_column_targets(&rows);
    assert_eq!(targets.len(), 1);
    assert_eq!(targets[0].def.name, "new_col_2");
    assert_eq!(targets[0].original_name, None);
    toggle_schema_column_delete(&mut rows, 0);
    assert!(!rows[0].is_deleted);
    toggle_schema_column_delete(&mut rows, 1);
    assert_eq!(rows.len(), 1);
}

// ----- query console -----

#[test]
fn query_tab_session() {
    let mut session = QuerySession::new();
    let first = session.active_id;
    assert_eq!(session.tabs[0].title, "Query 1");
    assert_eq!(session.status_message.as_deref(), Some("Ready"));
    assert_eq!(
        session.tabs[0].sql,
        "-- Press \u{2318}\u{21b5} (Ctrl+Enter) to run \u{b7} Shift+Alt+F formats SQL\nSELECT 1 AS id, 'Welcome to CrabStudio' AS message;\n"
    );
    let second = session.create_query_tab(None, Some("select 1"), Some(s("conn-1")));
    assert_eq!(session.tabs[1].title, "Query 2");
    assert_eq!(session.tabs[1].sql, "select 1");
    assert_eq!(session.tabs[1].connection_profile_id.as_deref(), Some("conn-1"));
    assert_eq!(session.active_id, second);
    let third = session.create_query_tab(Some(s("Report")), None, None);
    assert_eq!(session.tabs[2].title, "Report");
    assert_eq!(session.tab_counter, 3);
    session.switch_query_tab(second);
    assert_eq!(session.active_id, second);
    session.close_query_tab(second);
    assert_eq!(session.tabs.len(), 2);
    assert_eq!(session.active_id, third);
    session.close_query_tab(third);
    assert_eq!(session.active_id, first);
    session.tabs[0].has_result = true;
    session.close_query_tab(first);
    assert_eq!(session.tabs.len(), 1);
    assert!(!session.tabs[0].has_result);
    assert_eq!(session.status_message.as_deref(), Some("Reset query session"));
    session.set_query_tab_connection(first, Some(s("c2")));
    assert_eq!(session.tabs[0].connection_profile_id.as_deref(), Some("c2"));
    assert_eq!(session.active_query_tab(), Some(0));
}

#[test]
fn statements_and_safe_mode() {
    assert_eq!(choose_statement("  ", "select 1").as_deref(), Some("select 1"));
    assert_eq!(choose_statement("select 2", "select 1").as_deref(), Some("select 2"));
    assert_eq!(choose_statement("", " \n "), None);
    assert!(blocked_by_safe_mode("  delete from t"));
    assert!(!blocked_by_safe_mode("delete from t where id = 1"));
    assert!(blocked_by_safe_mode("update t set a = 1"));
    assert!(blocked_by_safe_mode("Drop table t"));
    assert!(blocked_by_safe_mode("truncate t"));
    assert!(!blocked_by_safe_mode("select * from drop_log"));
    assert_eq!(query_status_message(0, Some(3), 12), "Query completed: 3 row(s) affected in 12ms");
    assert_eq!(query_status_message(10, Some(3), 5), "Query completed: 10 rows returned in 5ms");
    assert_eq!(query_status_message(0, None, 0), "Query completed: 0 rows returned in 0ms");
}

// ----- connection form -----

#[test]
fn connection_form_fields() {
    assert_eq!(dialog_port(" 5433 ", 5432), 5433);
    assert_eq!(dialog_port("+80", 5432), 80);
    assert_eq!(dialog_port("70000", 3306), 3306);
    assert_eq!(dialog_port("", 3306), 3306);
    assert_eq!(dialog_port("-1", 3306), 3306);
    assert_eq!(dialog_name("  ", "PostgreSQL"), "New PostgreSQL");
    assert_eq!(dialog_name(" prod ", "PostgreSQL"), " prod ");
    assert_eq!(dialog_sqlite_path(""), ":memory:");
    assert_eq!(dialog_sqlite_path("/tmp/a.db"), "/tmp/a.db");
    assert_eq!(dialog_password(""), None);
    assert_eq!(dialog_password(" ").as_deref(), Some(" "));
    assert_eq!(duplicate_profile_name("Local"), "Local (Copy)");
}

#[test]
fn text_helpers() {
    assert_eq!(with_number("col_", 0), "col_0");
    assert_eq!(with_number("Query ", 1234), "Query 1234");
    assert!(contains_str("varchar(255)", "char"));
    assert!(!contains_str("int", "integer"));
    assert!(contains_str("x", ""));
}

#[test]
fn toolbar_labels() {
    assert_eq!(staged_summary(2, 1, 0), "2 new rows, 1 update");
    assert_eq!(staged_summary(0, 0, 3), "3 deletions");
    assert_eq!(staged_summary(1, 2, 1), "1 new row, 2 updates, 1 deletion");
    assert_eq!(staged_summary(0, 0, 0), "");
    assert_eq!(row_count_label(false, 3, 10), "10 row(s)");
    assert_eq!(row_count_label(true, 3, 10), "3 of 10 row(s)");
}

#[test]
fn query_run_lifecycle() {
    let mut session = QuerySession::new();
    let id = session.active_id;
    let (start, sql) = session.begin_query("  ", " \n", false, true, false);
    assert_eq!(start, QueryStart::Nothing);
    assert_eq!(sql, None);
    let (start, sql) = session.begin_query("", "delete from t", true, true, false);
    assert_eq!(start, QueryStart::Blocked);
    assert_eq!(sql, None);
    assert!(session.tabs[0].error.as_deref().unwrap().starts_with("Safe Mode Protection"));
    assert_eq!(session.status_message.as_deref(), Some("Blocked by Safe Mode"));
    let (start, _) = session.begin_query("", "select 1", true, false, false);
    assert_eq!(start, QueryStart::NoConnection);
    assert_eq!(
        session.tabs[0].error.as_deref(),
        Some("No active database connection. Please select or create a connection first.")
    );
    let (start, sql) = session.begin_query("", "DROP TABLE users", false, true, true);
    assert_eq!(start, QueryStart::Blocked);
    assert_eq!(sql, None);
    assert!(session.tabs[0].error.as_deref().unwrap().starts_with("Read-Only Protection"));
    let (start, _) = session.begin_query("", " delete from t where id = 1", true, true, true);
    assert_eq!(start, QueryStart::Blocked);
    let (start, sql) = session.begin_query("", "select 1", true, true, true);
    assert_eq!(start, QueryStart::Started);
    assert_eq!(sql.as_deref(), Some("select 1"));
    let (start, sql) = session.begin_query("select 2", "select 1", true, true, false);
    assert_eq!(start, QueryStart::Started);
    assert_eq!(sql.as_deref(), Some("select 2"));
    assert!(session.tabs[0].is_executing);
    assert_eq!(session.tabs[0].error, None);
    assert_eq!(session.status_message.as_deref(), Some("Executing selected query..."));
    let slow = session.finish_query(id, 700, Ok((4, None, Some(20))), true);
    assert!(!slow);
    assert!(!session.tabs[0].is_executing);
    assert!(session.tabs[0].has_result);
    assert_eq!(session.tabs[0].execution_time_ms, Some(700));
    assert_eq!(session.status_message.as_deref(), Some("Query completed: 4 rows returned in 20ms"));
    let (_, _) = session.begin_query("", "update t set a = 1 where id = 2", true, true, false);
    assert_eq!(session.status_message.as_deref(), Some("Executing query..."));
    assert!(session.finish_query(id, 600, Ok((0, Some(1), None)), true));
    assert_eq!(session.status_message.as_deref(), Some("Query completed: 1 row(s) affected in 600ms"));
    assert!(!session.finish_query(id, 3, Err(String::from("syntax error")), true));
    assert_eq!(session.tabs[0].error.as_deref(), Some("syntax error"));
    assert_eq!(session.status_message.as_deref(), Some("Query execution failed"));
    assert!(!session.finish_query(id.wrapping_add(1), 3, Ok((1, None, None)), true));
}

#[test]
fn row_json_fields_kinds() {
    let cols = vec![
        s("id"),
        s("name"),
        s("active"),
        s("payload"),
        s("nullable"),
        s("blob"),
        s("at"),
        s("ratio"),
        s("missing"),
    ];
    let row = vec![
        QueryValue::Int(42),
        QueryValue::String(s("crab")),
        QueryValue::Bool(true),
        QueryValue::String(s(r#"{"key": "value"}"#)),
        QueryValue::Null,
        QueryValue::Bytes(vec![1, 2, 3]),
        QueryValue::DateTime(s("2024-01-02 03:04:05")),
        QueryValue::Float(1.5f64.to_bits()),
    ];
    let fields = row_json_fields(&cols, &row);
    assert_eq!(fields.len(), 9);
    let names: Vec<&str> = fields.iter().map(|f| f.0.as_str()).collect();
    assert_eq!(names, vec!["id", "name", "active", "payload", "nullable", "blob", "at", "ratio", "missing"]);
    assert!(matches!(fields[0].1, JsonField::Int(42)));
    assert!(matches!(&fields[1].1, JsonField::Text(t) if t == "crab"));
    assert!(matches!(fields[2].1, JsonField::Bool(true)));
    match &fields[3].1 {
        JsonField::Document(doc) => assert_eq!(doc["key"], "value"),
        other => panic!("expected a document, got {other:?}"),
    }
    assert!(matches!(fields[4].1, JsonField::Null));
    assert!(matches!(&fields[5].1, JsonField::Text(t) if t == "<blob: 3 bytes>"));
    assert!(matches!(&fields[6].1, JsonField::Text(t) if t == "2024-01-02 03:04:05"));
    assert!(matches!(fields[7].1, JsonField::Float(b) if b == 1.5f64.to_bits()));
    assert!(matches!(fields[8].1, JsonField::Null));
}

#[test]
fn explain_lifecycle() {
    let mut session = QuerySession::new();
    let id = session.active_id;
    assert_eq!(session.tabs[0].bottom_tab, ConsoleBottomTab::Results);
    assert_eq!(session.begin_explain(id, " ", "", true), None);
    assert_eq!(session.begin_explain(id.wrapping_add(1), "", "select 1", true), None);
    assert_eq!(session.begin_explain(id, "", "select 1", false), None);
    assert_eq!(
        session.tabs[0].explain_error.as_deref(),
        Some("No active database connection. Please select or create a connection first.")
    );
    assert_eq!(session.tabs[0].bottom_tab, ConsoleBottomTab::Explain);
    assert_eq!(session.begin_explain(id, "select 2", "select 1", true).as_deref(), Some("select 2"));
    session.mark_explaining(id);
    assert!(session.tabs[0].is_explaining);
    assert_eq!(session.tabs[0].explain_error, None);
    assert_eq!(session.status_message.as_deref(), Some("Running EXPLAIN\u{2026}"));
    session.finish_explain(id, Ok(7));
    assert!(!session.tabs[0].is_explaining);
    assert!(session.tabs[0].has_explain_plan);
    assert_eq!(session.status_message.as_deref(), Some("Explain completed: 7 nodes"));
    session.finish_explain(id, Err(String::from("bad plan")));
    assert!(!session.tabs[0].has_explain_plan);
    assert_eq!(session.tabs[0].explain_error.as_deref(), Some("bad plan"));
    assert_eq!(session.status_message.as_deref(), Some("Explain failed"));
    let (start, _) = session.begin_query("", "drop table t", true, true, false);
    assert_eq!(start, QueryStart::Blocked);
    assert_eq!(session.tabs[0].bottom_tab, ConsoleBottomTab::Results);
}

#[test]
fn table_confirm_flow() {
    let mut st = TableConfirmActionState::open_drop("users", false, "\"public\".\"users\"", DatabaseFamily::Postgres);
    assert_eq!(st.kind, ConfirmActionKind::DropTable);
    assert_eq!(st.sql_preview, "DROP TABLE \"public\".\"users\";");
    assert!(!st.is_executing);
    assert_eq!(st.begin(false, false), None);
    assert_eq!(st.error.as_deref(), Some("No active database connection"));
    assert_eq!(st.begin(true, true), None);
    assert_eq!(st.error.as_deref(), Some("Connection is in Read-Only mode"));
    assert!(!st.is_executing);
    assert_eq!(st.begin(true, false).as_deref(), Some("DROP TABLE \"public\".\"users\";"));
    assert!(st.is_executing);
    assert_eq!(st.error, None);
    assert_eq!(st.fail("locked"), "Action failed: locked");
    assert!(!st.is_executing);
    assert_eq!(st.error.as_deref(), Some("locked"));

    let v = TableConfirmActionState::open_drop("v", true, "v", DatabaseFamily::Sqlite);
    assert_eq!(v.kind, ConfirmActionKind::DropView);
    assert_eq!(v.sql_preview, "DROP VIEW v;");
    let t = TableConfirmActionState::open_truncate("t", "t", DatabaseFamily::Sqlite);
    assert_eq!(t.sql_preview, "DELETE FROM t;");
    let t = TableConfirmActionState::open_truncate("t", "`t`", DatabaseFamily::MySql);
    assert_eq!(t.sql_preview, "TRUNCATE TABLE `t`;");

    let (m, after) = confirm_success(ConfirmActionKind::DropTable, "users", Some("users"));
    assert_eq!(m, "Table 'users' dropped successfully");
    assert_eq!(after, SelectionAfterAction::Clear);
    let (m, after) = confirm_success(ConfirmActionKind::DropView, "v", Some("users"));
    assert_eq!(m, "View 'v' dropped successfully");
    assert_eq!(after, SelectionAfterAction::Keep);
    let (m, after) = confirm_success(ConfirmActionKind::TruncateTable, "t", Some("t"));
    assert_eq!(m, "Table 't' truncated successfully");
    assert_eq!(after, SelectionAfterAction::Reload);
    let (_, after) = confirm_success(ConfirmActionKind::TruncateTable, "t", None);
    assert_eq!(after, SelectionAfterAction::Keep);
}

#[test]
fn query_value_null_check() {
    assert!(QueryValue::Null.is_null());
    assert!(!QueryValue::Int(0).is_null());
    assert!(!QueryValue::String(String::new()).is_null());
}

#[test]
fn connecting_binds_and_names() {
    assert_eq!(connected_database_name(Some("main"), "app").as_deref(), Some("main"));
    assert_eq!(connected_database_name(None, "app").as_deref(), Some("app"));
    assert_eq!(connected_database_name(None, ""), None);
    let mut session = QuerySession::new();
    session.bind_active_tab_if_unbound("c1");
    assert_eq!(session.tabs[0].connection_profile_id.as_deref(), Some("c1"));
    session.bind_active_tab_if_unbound("c2");
    assert_eq!(session.tabs[0].connection_profile_id.as_deref(), Some("c1"));
}

#[test]
fn table_preview_statement() {
    assert_eq!(table_preview_query("\"public\".\"users\"", 1000), "SELECT * FROM \"public\".\"users\" LIMIT 1000");
    assert_eq!(table_preview_query("t", 0), "SELECT * FROM t LIMIT 0");
}

#[test]
fn engine_icons() {
    assert_eq!(database_icon(DatabaseType::Sqlite), EngineIcon::Database);
    assert_eq!(database_icon(DatabaseType::Mysql), EngineIcon::Fish);
    assert_eq!(database_icon(DatabaseType::MariaDB), EngineIcon::Fish);
    assert_eq!(database_icon(DatabaseType::Postgres), EngineIcon::Layers);
    assert_eq!(database_icon(DatabaseType::CloudSQLMySQL), EngineIcon::Cloud);
    assert_eq!(database_icon(DatabaseType::CloudSQLPG), EngineIcon::Cloud);
    assert_eq!(database_icon(DatabaseType::AlloyDB), EngineIcon::DatabaseZap);
    assert_eq!(database_icon(DatabaseType::FujitsuPG), EngineIcon::Building);
}
