use zqlcrab::connection_form::startup_connection;
use zqlcrab::error_dialog::{wrap_error_text, ConnectionErrorInfo, DatabaseType};
use zqlcrab::grid::QueryValue;
use zqlcrab::inspector::format_inspector_value;
use zqlcrab::nav::{status_duration, status_row_count, OpenOverlays, Overlay, WorkspaceTab};
use zqlcrab::new_row::{refuse_if_read_only, DataChange};
use zqlcrab::pagination::{clamp_page_size, compare_cells, CellOrder, SortDirection};

fn info(db_type: DatabaseType, host: &str, port: u16, database: &str) -> ConnectionErrorInfo {
    ConnectionErrorInfo {
        connection_id: "c".to_string(),
        connection_name: "n".to_string(),
        database_type: db_type,
        host: host.to_string(),
        port,
        database: database.to_string(),
        error_message: "boom".to_string(),
    }
}

#[test]
fn wrapping_twice_changes_nothing() {
    let inputs = [
        "Connection refused by host 127.0.0.1:5432",
        "aaaaaaaaaaaaaaaaaaaaaaaaaaaaaaaaaaaaaaaaaaaaaaaa bbb",
        "Line 1\nLine 2\n\nvery-long-token-without-any-break-in-it",
        "",
    ];
    for text in inputs {
        for n in [1usize, 5, 22, 64] {
            let once = wrap_error_text(text, n);
            assert_eq!(wrap_error_text(&once, n), once);
        }
    }
}

#[test]
fn error_badge_targets() {
    assert_eq!(info(DatabaseType::Sqlite, "", 0, "").target_summary(), ":memory:");
    assert_eq!(info(DatabaseType::Sqlite, "", 0, "/tmp/a.db").target_summary(), "/tmp/a.db");
    assert_eq!(info(DatabaseType::Postgres, "localhost", 5432, "mydb").target_summary(), "localhost:5432 / mydb");
    assert_eq!(info(DatabaseType::Mysql, "db.local", 3306, "").target_summary(), "db.local:3306");
    assert!(DatabaseType::Sqlite.is_file_based());
    assert!(!DatabaseType::TiDB.is_file_based());
}

#[test]
fn escape_closes_first_open_overlay() {
    let mut o = OpenOverlays {
        mock_data: false,
        export: false,
        import: false,
        connection_error: true,
        table_confirm: false,
        create_table: true,
        sql_review: false,
        cell_modal: false,
        connection_dialog: true,
    };
    assert_eq!(o.close_on_escape(), Some(Overlay::ConnectionError));
    assert!(!o.connection_error && o.create_table && o.connection_dialog);
    assert_eq!(o.close_on_escape(), Some(Overlay::CreateTable));
    assert_eq!(o.close_on_escape(), Some(Overlay::ConnectionDialog));
    assert_eq!(o.close_on_escape(), None);
}

#[test]
fn status_bar_counts() {
    assert_eq!(status_row_count(WorkspaceTab::QueryConsole, Some(3), Some(9), 4, 7), Some(3));
    assert_eq!(status_row_count(WorkspaceTab::DataGrid, None, Some(9), 4, 7), Some(9));
    assert_eq!(status_row_count(WorkspaceTab::Schema, None, None, 4, 7), Some(4));
    assert_eq!(status_row_count(WorkspaceTab::History, None, None, 4, 7), Some(7));
    assert_eq!(status_row_count(WorkspaceTab::QueryConsole, None, Some(9), 4, 7), None);
    assert_eq!(status_duration(Some(12), Some(5)), Some(12));
    assert_eq!(status_duration(None, Some(5)), Some(5));
    assert_eq!(status_duration(None, None), None);
}

#[test]
fn read_only_refusals() {
    assert_eq!(refuse_if_read_only(false, DataChange::AddRow), None);
    assert_eq!(
        refuse_if_read_only(true, DataChange::AddRow).as_deref(),
        Some("Cannot add row: Connection is in read-only mode")
    );
    assert_eq!(
        refuse_if_read_only(true, DataChange::DuplicateRow).as_deref(),
        Some("Cannot duplicate row: Connection is in read-only mode")
    );
    assert_eq!(
        refuse_if_read_only(true, DataChange::ModifyData).as_deref(),
        Some("Cannot modify data: Connection is in read-only mode")
    );
    assert_eq!(
        refuse_if_read_only(true, DataChange::SaveChanges).as_deref(),
        Some("Cannot save changes: Connection is in read-only mode")
    );
}

#[test]
fn startup_picks_saved_last_connection() {
    let saved = vec!["a".to_string(), "b".to_string()];
    assert_eq!(startup_connection(&saved, Some("b")).as_deref(), Some("b"));
    assert_eq!(startup_connection(&saved, Some("c")), None);
    assert_eq!(startup_connection(&saved, None), None);
    assert_eq!(startup_connection(&[], Some("a")), None);
}

#[test]
fn page_size_at_least_one() {
    assert_eq!(clamp_page_size(0), 1);
    assert_eq!(clamp_page_size(50), 50);
}

#[test]
fn cell_ordering() {
    let asc = SortDirection::Ascending;
    let desc = SortDirection::Descending;
    assert_eq!(compare_cells(&QueryValue::Null, &QueryValue::Int(1), "", "1", asc), Some(CellOrder::Greater));
    assert_eq!(compare_cells(&QueryValue::Null, &QueryValue::Int(1), "", "1", desc), Some(CellOrder::Less));
    assert_eq!(compare_cells(&QueryValue::Null, &QueryValue::Null, "", "", asc), Some(CellOrder::Equal));
    assert_eq!(compare_cells(&QueryValue::Bool(false), &QueryValue::Bool(true), "", "", asc), Some(CellOrder::Less));
    assert_eq!(compare_cells(&QueryValue::Int(-3), &QueryValue::Int(2), "", "", asc), Some(CellOrder::Less));
    assert_eq!(
        compare_cells(&QueryValue::String("apple".into()), &QueryValue::String("Banana".into()), "", "", asc),
        Some(CellOrder::Less)
    );
    assert_eq!(
        compare_cells(&QueryValue::String("ABC".into()), &QueryValue::String("abc".into()), "", "", asc),
        Some(CellOrder::Equal)
    );
    assert_eq!(
        compare_cells(&QueryValue::DateTime("2024-01-02".into()), &QueryValue::DateTime("2023-12-31".into()), "", "", asc),
        Some(CellOrder::Greater)
    );
    assert_eq!(compare_cells(&QueryValue::Int(1), &QueryValue::String("a".into()), "1", "A", asc), Some(CellOrder::Less));
    assert_eq!(compare_cells(&QueryValue::Float(1.5f64.to_bits()), &QueryValue::Int(1), "1.5", "1", asc), None);
    assert_eq!(compare_cells(&QueryValue::Float(1.5f64.to_bits()), &QueryValue::Float(0), "1.5", "0", asc), None);
}

#[test]
fn inspector_pretty_text_is_the_document() {
    let (text, is_json, chars, lines) = format_inspector_value("  {\"a\":[1,2]}  ", true);
    assert!(is_json);
    assert_eq!(text, "{\n  \"a\": [\n    1,\n    2\n  ]\n}");
    assert_eq!(chars, text.chars().count());
    assert_eq!(lines, 6);
    let (text, is_json, _, _) = format_inspector_value("{not json}", true);
    assert!(!is_json);
    assert_eq!(text, "{not json}");
}
