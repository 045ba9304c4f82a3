//! Navigation enums of the workspace: the activity rail, the workspace tabs,
//! destructive-action kinds and explain-plan view modes.

use vstd::prelude::*;
use crate::error_dialog::DatabaseFamily;
use crate::text::{append_str, chars_eq, chars_of, string_from_chars, string_of};

verus! {

/// Entry of the left activity rail.
#[derive(Debug, Clone, Copy, PartialEq, Eq, Structural)]
pub enum ActivityNav {
    Databases,
    Console,
    Settings,
}

impl ActivityNav {
    /// Whether this entry is the settings page.
    pub fn is_settings(&self) -> (res: bool)
        ensures
            res <==> *self == ActivityNav::Settings,
    {
        match self {
            ActivityNav::Settings => true,
            _ => false,
        }
    }
}

impl Default for ActivityNav {
    /// The rail starts on the database browser.
    fn default() -> (res: Self)
        ensures
            res == ActivityNav::Databases,
    {
        ActivityNav::Databases
    }
}

/// Main workspace tab shown beside the sidebar.
#[derive(Debug, Clone, Copy, PartialEq, Eq, Structural)]
pub enum WorkspaceTab {
    QueryConsole,
    DataGrid,
    Schema,
    History,
}

/// Destructive action awaiting confirmation.
#[derive(Debug, Clone, Copy, PartialEq, Eq, Structural)]
pub enum ConfirmActionKind {
    DropTable,
    DropView,
    TruncateTable,
}

impl ConfirmActionKind {
    /// Whether the action removes the object (table or view).
    pub fn is_drop(&self) -> (res: bool)
        ensures
            res <==> (*self == ConfirmActionKind::DropTable || *self == ConfirmActionKind::DropView),
    {
        match self {
            ConfirmActionKind::DropTable => true,
            ConfirmActionKind::DropView => true,
            ConfirmActionKind::TruncateTable => false,
        }
    }

    /// Whether the action targets a view.
    pub fn is_view(&self) -> (res: bool)
        ensures
            res <==> *self == ConfirmActionKind::DropView,
    {
        match self {
            ConfirmActionKind::DropView => true,
            _ => false,
        }
    }
}

/// Presentation of an explain plan.
#[derive(Debug, Clone, Copy, PartialEq, Eq, Structural)]
pub enum ExplainViewMode {
    Tree,
    Summary,
    Raw,
}

impl Default for ExplainViewMode {
    /// Plans open in the tree view.
    fn default() -> (res: Self)
        ensures
            res == ExplainViewMode::Tree,
    {
        ExplainViewMode::Tree
    }
}


// ---------------------------------------------------------------------------
// Overlays and the status bar
// ---------------------------------------------------------------------------

/// An overlay that can be open over the workspace.
#[derive(Debug, Clone, Copy, PartialEq, Eq, Structural)]
pub enum Overlay {
    MockData,
    Export,
    Import,
    ConnectionError,
    TableConfirm,
    CreateTable,
    SqlReview,
    CellModal,
    ConnectionDialog,
}

/// Which overlays are open.
#[derive(Debug, Clone, Copy, PartialEq, Eq, Structural)]
pub struct OpenOverlays {
    pub mock_data: bool,
    pub export: bool,
    pub import: bool,
    pub connection_error: bool,
    pub table_confirm: bool,
    pub create_table: bool,
    pub sql_review: bool,
    pub cell_modal: bool,
    pub connection_dialog: bool,
}

/// The overlay that Esc closes: the first open one in the fixed order mock
/// data, export, import, connection error, table confirmation, create
/// table, SQL review, cell modal, connection dialog.
pub open spec fn escape_target(o: OpenOverlays) -> Option<Overlay> {
    if o.mock_data {
        Some(Overlay::MockData)
    } else if o.export {
        Some(Overlay::Export)
    } else if o.import {
        Some(Overlay::Import)
    } else if o.connection_error {
        Some(Overlay::ConnectionError)
    } else if o.table_confirm {
        Some(Overlay::TableConfirm)
    } else if o.create_table {
        Some(Overlay::CreateTable)
    } else if o.sql_review {
        Some(Overlay::SqlReview)
    } else if o.cell_modal {
        Some(Overlay::CellModal)
    } else if o.connection_dialog {
        Some(Overlay::ConnectionDialog)
    } else {
        None
    }
}

/// The overlays with `v` closed.
pub open spec fn without(o: OpenOverlays, v: Overlay) -> OpenOverlays {
    match v {
        Overlay::MockData => OpenOverlays { mock_data: false, ..o },
        Overlay::Export => OpenOverlays { export: false, ..o },
        Overlay::Import => OpenOverlays { import: false, ..o },
        Overlay::ConnectionError => OpenOverlays { connection_error: false, ..o },
        Overlay::TableConfirm => OpenOverlays { table_confirm: false, ..o },
        Overlay::CreateTable => OpenOverlays { create_table: false, ..o },
        Overlay::SqlReview => OpenOverlays { sql_review: false, ..o },
        Overlay::CellModal => OpenOverlays { cell_modal: false, ..o },
        Overlay::ConnectionDialog => OpenOverlays { connection_dialog: false, ..o },
    }
}

impl OpenOverlays {
    /// Esc: closes the first open overlay (in the order of `escape_target`)
    /// and leaves the others open; returns the overlay it closed.
    pub fn close_on_escape(&mut self) -> (res: Option<Overlay>)
        ensures
            res == escape_target(*old(self)),
            match res {
                Some(v) => *final(self) == without(*old(self), v),
                None => *final(self) == *old(self),
            },
    {
        if self.mock_data {
            self.mock_data = false;
            Some(Overlay::MockData)
        } else if self.export {
            self.export = false;
            Some(Overlay::Export)
        } else if self.import {
            self.import = false;
            Some(Overlay::Import)
        } else if self.connection_error {
            self.connection_error = false;
            Some(Overlay::ConnectionError)
        } else if self.table_confirm {
            self.table_confirm = false;
            Some(Overlay::TableConfirm)
        } else if self.create_table {
            self.create_table = false;
            Some(Overlay::CreateTable)
        } else if self.sql_review {
            self.sql_review = false;
            Some(Overlay::SqlReview)
        } else if self.cell_modal {
            self.cell_modal = false;
            Some(Overlay::CellModal)
        } else if self.connection_dialog {
            self.connection_dialog = false;
            Some(Overlay::ConnectionDialog)
        } else {
            None
        }
    }
}

/// The row count on the status bar for the workspace tab shown: the rows of
/// the active console tab's result, of the grid's result, the columns of the
/// table's schema, or the history entries.
pub fn status_row_count(
    tab: WorkspaceTab,
    console_rows: Option<usize>,
    grid_rows: Option<usize>,
    schema_columns: usize,
    history_items: usize,
) -> (res: Option<usize>)
    ensures
        res == match tab {
            WorkspaceTab::QueryConsole => console_rows,
            WorkspaceTab::DataGrid => grid_rows,
            WorkspaceTab::Schema => Some(schema_columns),
            WorkspaceTab::History => Some(history_items),
        },
{
    match tab {
        WorkspaceTab::QueryConsole => console_rows,
        WorkspaceTab::DataGrid => grid_rows,
        WorkspaceTab::Schema => Some(schema_columns),
        WorkspaceTab::History => Some(history_items),
    }
}

/// The duration on the status bar: the active tab's measured run time, else
/// the time its result reports.
pub fn status_duration(tab_time: Option<u64>, result_time: Option<u64>) -> (res: Option<u64>)
    ensures
        res == if tab_time is Some {
            tab_time
        } else {
            result_time
        },
{
    match tab_time {
        Some(t) => Some(t),
        None => result_time,
    }
}

// ---------------------------------------------------------------------------
// Destructive-action confirmation
// ---------------------------------------------------------------------------

/// The text `a`, then `b`, then `c`.
fn concat3(a: &str, b: &str, c: &str) -> (res: String)
    ensures
        res@ == a@ + b@ + c@,
{
    let cs = chars_of(a);
    let mut s = string_from_chars(&cs);
    append_str(&mut s, b);
    append_str(&mut s, c);
    s
}

/// Confirmation for dropping a table or view (given its qualified name):
/// the action kind and the statement previewed.
pub fn drop_confirmation(is_view: bool, qualified: &str) -> (res: (ConfirmActionKind, String))
    ensures
        is_view ==> res.0 == ConfirmActionKind::DropView && res.1@ == "DROP VIEW "@ + qualified@
            + ";"@,
        !is_view ==> res.0 == ConfirmActionKind::DropTable && res.1@ == "DROP TABLE "@
            + qualified@ + ";"@,
{
    if is_view {
        (ConfirmActionKind::DropView, concat3("DROP VIEW ", qualified, ";"))
    } else {
        (ConfirmActionKind::DropTable, concat3("DROP TABLE ", qualified, ";"))
    }
}

/// Statement previewed for emptying a table (given its qualified name):
/// SQLite has no `TRUNCATE`, so every row is deleted there.
pub fn truncate_statement(family: DatabaseFamily, qualified: &str) -> (res: String)
    ensures
        family == DatabaseFamily::Sqlite ==> res@ == "DELETE FROM "@ + qualified@ + ";"@,
        family != DatabaseFamily::Sqlite ==> res@ == "TRUNCATE TABLE "@ + qualified@ + ";"@,
{
    match family {
        DatabaseFamily::Sqlite => concat3("DELETE FROM ", qualified, ";"),
        _ => concat3("TRUNCATE TABLE ", qualified, ";"),
    }
}


/// A destructive action on a table or view, awaiting confirmation.
#[derive(Debug, Clone)]
pub struct TableConfirmActionState {
    pub kind: ConfirmActionKind,
    pub table_name: String,
    pub database_family: DatabaseFamily,
    pub sql_preview: String,
    pub is_executing: bool,
    pub error: Option<String>,
}

/// What becomes of the workspace's selected table after a confirmed action
/// succeeded.
#[derive(Debug, Clone, Copy, PartialEq, Eq, Structural)]
pub enum SelectionAfterAction {
    /// Another table is selected, or none: nothing to do.
    Keep,
    /// The selected table was dropped: selection, data and schema are cleared.
    Clear,
    /// The selected table was emptied: it is loaded again.
    Reload,
}

impl TableConfirmActionState {
    /// Confirmation for dropping the table or view `table_name` (qualified
    /// as `qualified` in the connection's dialect): idle, no error.
    pub fn open_drop(table_name: &str, is_view: bool, qualified: &str, family: DatabaseFamily) -> (res:
        Self)
        ensures
            res.kind == (if is_view {
                ConfirmActionKind::DropView
            } else {
                ConfirmActionKind::DropTable
            }),
            res.sql_preview@ == (if is_view {
                "DROP VIEW "@
            } else {
                "DROP TABLE "@
            }) + qualified@ + ";"@,
            res.table_name@ == table_name@,
            res.database_family == family,
            !res.is_executing,
            res.error is None,
    {
        let (kind, sql_preview) = drop_confirmation(is_view, qualified);
        TableConfirmActionState {
            kind,
            table_name: string_of(table_name),
            database_family: family,
            sql_preview,
            is_executing: false,
            error: None,
        }
    }

    /// Confirmation for emptying the table `table_name`: idle, no error.
    pub fn open_truncate(table_name: &str, qualified: &str, family: DatabaseFamily) -> (res: Self)
        ensures
            res.kind == ConfirmActionKind::TruncateTable,
            family == DatabaseFamily::Sqlite ==> res.sql_preview@ == "DELETE FROM "@ + qualified@
                + ";"@,
            family != DatabaseFamily::Sqlite ==> res.sql_preview@ == "TRUNCATE TABLE "@
                + qualified@ + ";"@,
            res.table_name@ == table_name@,
            res.database_family == family,
            !res.is_executing,
            res.error is None,
    {
        TableConfirmActionState {
            kind: ConfirmActionKind::TruncateTable,
            table_name: string_of(table_name),
            database_family: family,
            sql_preview: truncate_statement(family, qualified),
            is_executing: false,
            error: None,
        }
    }

    /// The action is confirmed: without a connection, or on a read-only
    /// one, the modal shows why and nothing runs; otherwise the modal is
    /// marked as executing, its error cleared, and the statement to run is
    /// handed back.
    pub fn begin(&mut self, has_connection: bool, read_only: bool) -> (res: Option<String>)
        ensures
            final(self).kind == old(self).kind,
            final(self).table_name == old(self).table_name,
            final(self).database_family == old(self).database_family,
            final(self).sql_preview == old(self).sql_preview,
            !has_connection ==> {
                &&& res is None
                &&& final(self).is_executing == old(self).is_executing
                &&& final(self).error matches Some(e) && e@ == "No active database connection"@
            },
            has_connection && read_only ==> {
                &&& res is None
                &&& final(self).is_executing == old(self).is_executing
                &&& final(self).error matches Some(e) && e@ == "Connection is in Read-Only mode"@
            },
            has_connection && !read_only ==> {
                &&& res matches Some(q) && q@ == old(self).sql_preview@
                &&& final(self).is_executing
                &&& final(self).error is None
            },
    {
        if !has_connection {
            self.error = Some(string_of("No active database connection"));
            return None;
        }
        if read_only {
            self.error = Some(string_of("Connection is in Read-Only mode"));
            return None;
        }
        self.is_executing = true;
        self.error = None;
        Some(self.sql_preview.clone())
    }

    /// The statement failed with `err`: the modal stays open, idle, showing
    /// the error; returns the status line.
    pub fn fail(&mut self, err: &str) -> (res: String)
        ensures
            final(self).kind == old(self).kind,
            final(self).table_name == old(self).table_name,
            final(self).database_family == old(self).database_family,
            final(self).sql_preview == old(self).sql_preview,
            !final(self).is_executing,
            final(self).error matches Some(e) && e@ == err@,
            res@ == "Action failed: "@ + err@,
    {
        self.is_executing = false;
        self.error = Some(string_of(err));
        let mut m = string_of("Action failed: ");
        append_str(&mut m, err);
        m
    }
}

/// Status line after the action `kind` on `table_name` succeeded.
pub open spec fn confirm_success_status(kind: ConfirmActionKind, table_name: Seq<char>) -> Seq<char> {
    match kind {
        ConfirmActionKind::DropTable => "Table '"@ + table_name + "' dropped successfully"@,
        ConfirmActionKind::DropView => "View '"@ + table_name + "' dropped successfully"@,
        ConfirmActionKind::TruncateTable => "Table '"@ + table_name + "' truncated successfully"@,
    }
}

/// After the action `kind` on `table_name` succeeded (the modal closes):
/// the status line, and what becomes of the selected table `selected` -
/// cleared when it was dropped, loaded again when it was emptied, else kept.
pub fn confirm_success(kind: ConfirmActionKind, table_name: &str, selected: Option<&str>) -> (res: (
    String,
    SelectionAfterAction,
))
    ensures
        res.0@ == confirm_success_status(kind, table_name@),
        res.1 == (match selected {
            Some(t) if t@ == table_name@ => if kind == ConfirmActionKind::TruncateTable {
                SelectionAfterAction::Reload
            } else {
                SelectionAfterAction::Clear
            },
            _ => SelectionAfterAction::Keep,
        }),
{
    let status = match kind {
        ConfirmActionKind::DropTable => concat3("Table '", table_name, "' dropped successfully"),
        ConfirmActionKind::DropView => concat3("View '", table_name, "' dropped successfully"),
        ConfirmActionKind::TruncateTable => concat3("Table '", table_name, "' truncated successfully"),
    };
    let same = match selected {
        Some(t) => {
            let tc = chars_of(t);
            chars_eq(&tc, table_name)
        },
        None => false,
    };
    let after = if !same {
        SelectionAfterAction::Keep
    } else if kind.is_drop() {
        SelectionAfterAction::Clear
    } else {
        SelectionAfterAction::Reload
    };
    (status, after)
}


/// Position of a view among the explain tabs (Tree, Summary, Raw).
pub open spec fn explain_tab_of(v: ExplainViewMode) -> usize {
    match v {
        ExplainViewMode::Tree => 0,
        ExplainViewMode::Summary => 1,
        ExplainViewMode::Raw => 2,
    }
}

/// Tab selected for an explain view.
pub fn explain_tab_index(view: ExplainViewMode) -> (res: usize)
    ensures
        res == explain_tab_of(view),
{
    match view {
        ExplainViewMode::Tree => 0,
        ExplainViewMode::Summary => 1,
        ExplainViewMode::Raw => 2,
    }
}

/// View chosen by clicking explain tab `ix`; an unknown tab shows the tree.
pub fn explain_view_for_tab(ix: usize) -> (res: ExplainViewMode)
    ensures
        ix == 1 ==> res == ExplainViewMode::Summary,
        ix == 2 ==> res == ExplainViewMode::Raw,
        ix != 1 && ix != 2 ==> res == ExplainViewMode::Tree,
{
    if ix == 1 {
        ExplainViewMode::Summary
    } else if ix == 2 {
        ExplainViewMode::Raw
    } else {
        ExplainViewMode::Tree
    }
}

/// Clicking the tab of a view selects that view again.
pub proof fn law_explain_tab_round_trip(v: ExplainViewMode)
    ensures
        ({
            let ix = explain_tab_of(v);
            (ix == 1 ==> v == ExplainViewMode::Summary) && (ix == 2 ==> v == ExplainViewMode::Raw)
                && (ix != 1 && ix != 2 ==> v == ExplainViewMode::Tree)
        }),
{
}

} // verus!
