use zqlcrab::connection_form::{connected_status, connecting_status, connection_failure};
use zqlcrab::console::formats_before_run;
use zqlcrab::error_dialog::DatabaseType;
use zqlcrab::grid::{GridCellCoord, InsertAnchor, QueryValue, RowInsertion};
use zqlcrab::grid_state::{GridState, StagedChanges};
use zqlcrab::inspector::{json_field_from, row_json_fields, JsonField};
use zqlcrab::pagination::{compare_cells, CellOrder, SortDirection};

fn dirty_state() -> GridState {
    let mut g = GridState::new();
    g.set_page(3);
    g.click_sort(2);
    g.select_cell(GridCellCoord::inserted(0, 1));
    g.changes.inserted_rows.push(RowInsertion {
        temp_id: 0,
        values: vec![QueryValue::Null],
        anchor: InsertAnchor::PageEnd(0),
    });
    g.changes.updated_cells.push((1, 1));
    g.changes.deleted_rows.push(4);
    g.sql_review_open = true;
    g
}

#[test]
fn grid_defaults() {
    let g = GridState::new();
    assert_eq!(g.page, 0);
    assert_eq!(g.page_size, 50);
    assert_eq!(g.sort_col, None);
    assert_eq!(g.sort_dir, None);
    assert_eq!(g.filter, "");
    assert_eq!(g.selected_cell, None);
    assert!(!g.inspector_open);
    assert!(!g.modal_open);
    assert!(g.json_pretty);
    assert!(!g.changes.is_dirty());
    assert!(!g.sql_review_open);
}

#[test]
fn grid_filter_sort_and_pages() {
    let mut g = GridState::new();
    g.set_page(4);
    g.set_filter("crab".to_string());
    assert_eq!(g.page, 0);
    assert_eq!(g.filter, "crab");
    g.set_page_size(0);
    assert_eq!(g.page_size, 1);
    g.set_page_size(25);
    assert_eq!(g.page_size, 25);
    g.click_sort(1);
    assert_eq!((g.sort_col, g.sort_dir), (Some(1), Some(SortDirection::Ascending)));
    g.click_sort(1);
    assert_eq!((g.sort_col, g.sort_dir), (Some(1), Some(SortDirection::Descending)));
    g.click_sort(1);
    assert_eq!((g.sort_col, g.sort_dir), (None, None));
}

#[test]
fn grid_select_table_resets_view() {
    let mut g = dirty_state();
    g.set_filter("x".to_string());
    g.set_page(2);
    assert!(g.changes.is_dirty());
    g.select_table();
    assert_eq!(g.page, 0);
    assert_eq!((g.sort_col, g.sort_dir), (None, None));
    assert_eq!(g.selected_cell, None);
    assert!(!g.inspector_open);
    assert!(!g.changes.is_dirty());
    assert!(!g.sql_review_open);
    assert_eq!(g.filter, "x");
}

#[test]
fn grid_after_query_and_connect() {
    let mut g = dirty_state();
    g.after_query_success();
    assert_eq!(g.selected_cell, None);
    assert!(!g.inspector_open);
    assert!(g.changes.is_dirty());
    assert_eq!(g.page, 3);
    g.after_connect();
    assert!(!g.changes.is_dirty());
    assert!(!g.sql_review_open);
    assert_eq!(g.page, 3);
}

#[test]
fn grid_discard_all_changes() {
    let mut g = dirty_state();
    g.discard_all_changes();
    assert!(!g.changes.is_dirty());
    assert!(!g.sql_review_open);
    assert_eq!(g.selected_cell, None);
    let mut g = dirty_state();
    g.select_cell(GridCellCoord::existing(2, 0));
    g.discard_all_changes();
    assert_eq!(g.selected_cell, Some(GridCellCoord::existing(2, 0)));
    let mut c = StagedChanges::new();
    assert!(!c.is_dirty());
    c.deleted_rows.push(1);
    assert!(c.is_dirty());
    c.clear();
    assert!(!c.is_dirty());
}

#[test]
fn swapping_cells_reverses_order() {
    let vals = [
        QueryValue::Null,
        QueryValue::Bool(true),
        QueryValue::Int(3),
        QueryValue::Int(-7),
        QueryValue::String("Crab".to_string()),
        QueryValue::String("apple".to_string()),
        QueryValue::DateTime("2024-05-01".to_string()),
    ];
    let shown = ["", "true", "3", "-7", "Crab", "apple", "2024-05-01"];
    let rev = |o: CellOrder| match o {
        CellOrder::Less => CellOrder::Greater,
        CellOrder::Equal => CellOrder::Equal,
        CellOrder::Greater => CellOrder::Less,
    };
    for i in 0..vals.len() {
        for j in 0..vals.len() {
            for dir in [SortDirection::Ascending, SortDirection::Descending] {
                let ab = compare_cells(&vals[i], &vals[j], shown[i], shown[j], dir).unwrap();
                let ba = compare_cells(&vals[j], &vals[i], shown[j], shown[i], dir).unwrap();
                assert_eq!(ba, rev(ab));
            }
            let asc = compare_cells(&vals[i], &vals[j], shown[i], shown[j], SortDirection::Ascending).unwrap();
            let desc = compare_cells(&vals[i], &vals[j], shown[i], shown[j], SortDirection::Descending).unwrap();
            assert_eq!(desc, rev(asc));
        }
    }
}

#[test]
fn json_fields_of_a_typed_row() {
    let cols = vec![
        "id".to_string(),
        "name".to_string(),
        "active".to_string(),
        "payload".to_string(),
        "nullable".to_string(),
    ];
    let row = vec![
        QueryValue::Int(42),
        QueryValue::String("crab".to_string()),
        QueryValue::Bool(true),
        QueryValue::String(r#"{"key": "value"}"#.to_string()),
        QueryValue::Null,
    ];
    let fields = row_json_fields(&cols, &row);
    assert_eq!(fields.len(), 5);
    assert!(matches!(fields[0].1, JsonField::Int(42)));
    assert!(matches!(&fields[1].1, JsonField::Text(t) if t == "crab"));
    assert!(matches!(fields[2].1, JsonField::Bool(true)));
    match &fields[3].1 {
        JsonField::Document(doc) => assert_eq!(doc["key"], "value"),
        other => panic!("expected a document, got {other:?}"),
    }
    assert!(matches!(fields[4].1, JsonField::Null));
}

#[test]
fn json_field_from_parse_result() {
    let cell = QueryValue::String("[1]".to_string());
    let doc: serde_json::Value = serde_json::from_str("[1]").unwrap();
    match json_field_from(&cell, Some(doc.clone())) {
        JsonField::Document(d) => assert_eq!(d, doc),
        other => panic!("expected a document, got {other:?}"),
    }
    assert!(matches!(json_field_from(&cell, None), JsonField::Text(t) if t == "[1]"));
    assert!(matches!(json_field_from(&QueryValue::Int(5), Some(doc)), JsonField::Int(5)));
}

#[test]
fn connection_outcomes() {
    assert_eq!(connecting_status("Local"), "Connecting to Local...");
    assert_eq!(connected_status("Local"), "Connected to Local");
    let (status, info) = connection_failure("c1", "Local", DatabaseType::Postgres, "localhost", 5432, "db", "refused");
    assert_eq!(status, "Connection error: refused");
    assert_eq!(info.connection_id, "c1");
    assert_eq!(info.connection_name, "Local");
    assert_eq!(info.database_type, DatabaseType::Postgres);
    assert_eq!(info.host, "localhost");
    assert_eq!(info.port, 5432);
    assert_eq!(info.database, "db");
    assert_eq!(info.error_message, "refused");
    assert_eq!(info.target_summary(), "localhost:5432 / db");
}

#[test]
fn format_only_whole_text_runs() {
    assert!(formats_before_run(true, ""));
    assert!(formats_before_run(true, "  \n"));
    assert!(!formats_before_run(true, "select 1"));
    assert!(!formats_before_run(false, ""));
}
