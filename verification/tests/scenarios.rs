use zqlcrab::nav::ActivityNav;
use zqlcrab::error_dialog::{wrap_error_text, ConnectionErrorInfo, DatabaseType};
use zqlcrab::grid::{compute_grid_display_items, GridCellCoord, GridDisplayItem, InsertAnchor, QueryValue, RowInsertion};
use zqlcrab::inspector::{format_inspector_value, row_to_tsv};

#[test]
fn test_activity_nav_defaults_and_predicates() {
    let default_nav = ActivityNav::default();
    assert_eq!(default_nav, ActivityNav::Databases);
    assert!(!default_nav.is_settings());
    assert!(ActivityNav::Settings.is_settings());
    assert_ne!(ActivityNav::Databases, ActivityNav::Console);
}

#[test]
fn test_wrap_error_text_normal_sentences() {
    let text = "Connection refused by host 127.0.0.1:5432";
    let wrapped = wrap_error_text(text, 64);
    assert_eq!(wrapped, text);
}

#[test]
fn test_wrap_error_text_breaks_unbroken_long_token() {
    let long_token = "A".repeat(150);
    let wrapped = wrap_error_text(&long_token, 64);
    let lines: Vec<&str> = wrapped.lines().collect();
    assert_eq!(lines.len(), 3);
    assert_eq!(lines[0].len(), 64);
    assert_eq!(lines[1].len(), 64);
    assert_eq!(lines[2].len(), 22);
}

#[test]
fn test_wrap_error_text_preserves_existing_newlines() {
    let multiline = "Line 1\nLine 2\nLine 3";
    let wrapped = wrap_error_text(multiline, 64);
    assert_eq!(wrapped, multiline);
}

#[test]
fn test_connection_error_info_construction() {
    let info = ConnectionErrorInfo {
        connection_id: "conn-1".to_string(),
        connection_name: "Local Postgres".to_string(),
        database_type: DatabaseType::Postgres,
        host: "localhost".to_string(),
        port: 5432,
        database: "mydb".to_string(),
        error_message: "password authentication failed for user 'postgres'".to_string(),
    };

    assert_eq!(info.connection_id, "conn-1");
    assert_eq!(info.port, 5432);
    assert!(!info.error_message.is_empty());
}

#[test]
fn test_row_to_tsv_newlines_sanitized() {
    // The row's cells by their display texts: Int(1), then two strings.
    let row = vec![
        "1".to_string(),
        "line 1\nline 2\r\nline 3".to_string(),
        "tab\there".to_string(),
    ];
    let tsv = row_to_tsv(&row);
    assert!(!tsv.contains('\n'));
    assert!(!tsv.contains('\r'));
    let parts: Vec<&str> = tsv.split('\t').collect();
    assert_eq!(parts.len(), 3);
    assert_eq!(parts[0], "1");
    assert_eq!(parts[1], "line 1 line 2  line 3");
    assert_eq!(parts[2], "tab here");
}

#[test]
fn test_format_inspector_value_plain_text() {
    let text = "First line\nSecond line\nThird line";
    let (val, is_json, chars, lines) = format_inspector_value(text, true);
    assert!(!is_json);
    assert_eq!(val, text);
    assert_eq!(lines, 3);
    assert_eq!(chars, text.chars().count());
}

#[test]
fn test_format_inspector_value_json_pretty() {
    let raw_json = r#"{"name":"zqlcrab","features":["explain","inspector"]}"#;
    let (pretty, is_json, _chars, lines) = format_inspector_value(raw_json, true);
    assert!(is_json);
    assert!(lines > 1);
    assert!(pretty.contains("  \"name\": \"zqlcrab\""));

    let (raw, is_json_raw, _chars_raw, lines_raw) = format_inspector_value(raw_json, false);
    assert!(is_json_raw);
    assert_eq!(lines_raw, 1);
    assert_eq!(raw, raw_json);
}

#[test]
fn test_grid_cell_coord_and_inserted_state() {
    let coord_existing = GridCellCoord::existing(2, 4);
    assert!(!coord_existing.is_inserted);
    assert_eq!(coord_existing.row_idx, 2);
    assert_eq!(coord_existing.col_idx, 4);

    let coord_inserted = GridCellCoord::inserted(0, 1);
    assert!(coord_inserted.is_inserted);
    assert_eq!(coord_inserted.row_idx, 0);
    assert_eq!(coord_inserted.col_idx, 1);
}

#[test]
fn test_compute_grid_display_items_interleaving() {
    let page_slice = vec![0, 1, 2];
    let inserted = vec![
        RowInsertion {
            temp_id: 0,
            values: vec![QueryValue::Int(10)],
            anchor: InsertAnchor::AfterRow(0),
        },
        RowInsertion {
            temp_id: 1,
            values: vec![QueryValue::Int(11)],
            anchor: InsertAnchor::AfterInserted(0),
        },
        RowInsertion {
            temp_id: 2,
            values: vec![QueryValue::Int(12)],
            anchor: InsertAnchor::AfterRow(2),
        },
        RowInsertion {
            temp_id: 3,
            values: vec![QueryValue::Int(13)],
            anchor: InsertAnchor::PageEnd(0),
        },
    ];

    let items = compute_grid_display_items(&page_slice, 0, 1, &inserted);
    assert_eq!(
        items,
        vec![
            GridDisplayItem::Original(0, 0),
            GridDisplayItem::Inserted(0),
            GridDisplayItem::Inserted(1),
            GridDisplayItem::Original(1, 1),
            GridDisplayItem::Original(2, 2),
            GridDisplayItem::Inserted(2),
            GridDisplayItem::Inserted(3),
        ]
    );
}
