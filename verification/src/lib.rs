//! Verified core of the CrabStudio desktop database client: navigation state,
//! error-text wrapping, data-grid row layout and view state, cell-edit
//! parsing, table-designer constraint toggles and the query-tab session model.

pub mod nav;
pub mod text;
pub mod grid;
pub mod error_dialog;
pub mod cell_edit;
pub mod new_row;
pub mod designer;
pub mod console;
pub mod inspector;
pub mod pagination;
pub mod connection_form;
pub mod grid_state;
