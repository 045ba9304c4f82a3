//! View state of the data grid: page, page size, sort, keyword filter,
//! selected cell, inspector and cell modal, JSON pretty-printing, and the
//! staged changes, with its defaults and the steps that change it.

use vstd::prelude::*;
use crate::grid::{GridCellCoord, RowInsertion};
use crate::pagination::{clamp_page_size, sort_after_click, SortDirection};

verus! {

/// What the grid holds of changes not yet written to the database.
#[derive(Debug, Clone)]
pub struct StagedChanges {
    /// Rows staged for insertion.
    pub inserted_rows: Vec<RowInsertion>,
    /// Cells of existing rows holding a staged new value, by row and column.
    pub updated_cells: Vec<(usize, usize)>,
    /// Existing rows staged for deletion.
    pub deleted_rows: Vec<usize>,
}

impl StagedChanges {
    /// Nothing is staged.
    pub open spec fn is_clean(&self) -> bool {
        &&& self.inserted_rows@.len() == 0
        &&& self.updated_cells@.len() == 0
        &&& self.deleted_rows@.len() == 0
    }

    /// No staged change.
    pub fn new() -> (res: Self)
        ensures
            res.is_clean(),
    {
        StagedChanges { inserted_rows: Vec::new(), updated_cells: Vec::new(), deleted_rows: Vec::new() }
    }

    /// Whether anything is staged.
    pub fn is_dirty(&self) -> (res: bool)
        ensures
            res == !self.is_clean(),
    {
        self.inserted_rows.len() > 0 || self.updated_cells.len() > 0 || self.deleted_rows.len() > 0
    }

    /// Drops every staged change.
    pub fn clear(&mut self)
        ensures
            final(self).is_clean(),
    {
        self.inserted_rows = Vec::new();
        self.updated_cells = Vec::new();
        self.deleted_rows = Vec::new();
    }
}

/// View state of the data grid.
#[derive(Debug, Clone)]
pub struct GridState {
    /// Requested page (clamped to the last page when the grid is laid out).
    pub page: usize,
    /// Rows per page, at least one.
    pub page_size: usize,
    pub sort_col: Option<usize>,
    pub sort_dir: Option<SortDirection>,
    /// Keyword filter over the rows.
    pub filter: String,
    pub selected_cell: Option<GridCellCoord>,
    pub inspector_open: bool,
    /// The enlarged cell-value modal.
    pub modal_open: bool,
    /// Whether JSON cell values are shown pretty-printed.
    pub json_pretty: bool,
    pub changes: StagedChanges,
    /// The review of the staged changes' SQL is open.
    pub sql_review_open: bool,
}

impl GridState {
    /// The grid's own invariant: a page holds at least one row.
    pub open spec fn wf(&self) -> bool {
        self.page_size > 0
    }

    /// The grid as the workspace opens: first page, 50 rows per page, no
    /// sort, no filter, no selected cell, inspector and modal closed, JSON
    /// pretty-printed, nothing staged, review closed.
    pub fn new() -> (res: Self)
        ensures
            res.wf(),
            res.page == 0,
            res.page_size == 50,
            res.sort_col is None,
            res.sort_dir is None,
            res.filter@ == Seq::<char>::empty(),
            res.selected_cell is None,
            !res.inspector_open,
            !res.modal_open,
            res.json_pretty,
            res.changes.is_clean(),
            !res.sql_review_open,
    {
        GridState {
            page: 0,
            page_size: 50,
            sort_col: None,
            sort_dir: None,
            filter: String::new(),
            selected_cell: None,
            inspector_open: false,
            modal_open: false,
            json_pretty: true,
            changes: StagedChanges::new(),
            sql_review_open: false,
        }
    }

    /// A new keyword filter: the grid goes back to the first page.
    pub fn set_filter(&mut self, f: String)
        ensures
            *final(self) == (GridState { page: 0, filter: f, ..*old(self) }),
    {
        self.filter = f;
        self.page = 0;
    }

    /// Shows page `page`.
    pub fn set_page(&mut self, page: usize)
        ensures
            *final(self) == (GridState { page, ..*old(self) }),
    {
        self.page = page;
    }

    /// A new page size, at least one row.
    pub fn set_page_size(&mut self, size: usize)
        ensures
            *final(self) == (GridState {
                page_size: if size == 0 {
                    1
                } else {
                    size
                },
                ..*old(self)
            }),
            final(self).wf(),
    {
        self.page_size = clamp_page_size(size);
    }

    /// A click on the header of column `col`: the sort state cycles as
    /// `sort_after_click` states.
    pub fn click_sort(&mut self, col: usize)
        ensures
            *final(self) == (GridState {
                sort_col: sort_after_click(old(self).sort_col, old(self).sort_dir, col).0,
                sort_dir: sort_after_click(old(self).sort_col, old(self).sort_dir, col).1,
                ..*old(self)
            }),
    {
        let same = match self.sort_col {
            Some(c) => c == col,
            None => false,
        };
        if same {
            match self.sort_dir {
                None => {
                    self.sort_dir = Some(SortDirection::Ascending);
                },
                Some(SortDirection::Ascending) => {
                    self.sort_dir = Some(SortDirection::Descending);
                },
                Some(SortDirection::Descending) => {
                    self.sort_dir = None;
                    self.sort_col = None;
                },
            }
        } else {
            self.sort_col = Some(col);
            self.sort_dir = Some(SortDirection::Ascending);
        }
    }

    /// A cell is selected: the inspector opens on it.
    pub fn select_cell(&mut self, coord: GridCellCoord)
        ensures
            *final(self) == (GridState {
                selected_cell: Some(coord),
                inspector_open: true,
                ..*old(self)
            }),
    {
        self.selected_cell = Some(coord);
        self.inspector_open = true;
    }

    /// Another table is opened: first page, no sort, no selected cell,
    /// inspector closed, nothing staged, review closed; the page size, the
    /// filter, the modal and the JSON setting stay.
    pub fn select_table(&mut self)
        ensures
            final(self).page == 0,
            final(self).sort_col is None,
            final(self).sort_dir is None,
            final(self).selected_cell is None,
            !final(self).inspector_open,
            final(self).changes.is_clean(),
            !final(self).sql_review_open,
            final(self).page_size == old(self).page_size,
            final(self).filter == old(self).filter,
            final(self).modal_open == old(self).modal_open,
            final(self).json_pretty == old(self).json_pretty,
    {
        self.page = 0;
        self.sort_col = None;
        self.sort_dir = None;
        self.selected_cell = None;
        self.inspector_open = false;
        self.changes.clear();
        self.sql_review_open = false;
    }

    /// A query completed with a result shown in the grid: no cell is
    /// selected and the inspector closes; all else stays.
    pub fn after_query_success(&mut self)
        ensures
            *final(self) == (GridState { selected_cell: None, inspector_open: false, ..*old(self) }),
    {
        self.selected_cell = None;
        self.inspector_open = false;
    }

    /// A connection was opened: nothing is staged and the review closes;
    /// all else stays.
    pub fn after_connect(&mut self)
        ensures
            final(self).changes.is_clean(),
            !final(self).sql_review_open,
            final(self).page == old(self).page,
            final(self).page_size == old(self).page_size,
            final(self).sort_col == old(self).sort_col,
            final(self).sort_dir == old(self).sort_dir,
            final(self).filter == old(self).filter,
            final(self).selected_cell == old(self).selected_cell,
            final(self).inspector_open == old(self).inspector_open,
            final(self).modal_open == old(self).modal_open,
            final(self).json_pretty == old(self).json_pretty,
    {
        self.changes.clear();
        self.sql_review_open = false;
    }

    /// Every staged change is discarded: nothing is staged, the review
    /// closes, and a selected cell of a staged row is unselected.
    pub fn discard_all_changes(&mut self)
        ensures
            final(self).changes.is_clean(),
            !final(self).sql_review_open,
            final(self).selected_cell == match old(self).selected_cell {
                Some(c) => if c.is_inserted {
                    None
                } else {
                    Some(c)
                },
                None => None,
            },
            final(self).page == old(self).page,
            final(self).page_size == old(self).page_size,
            final(self).sort_col == old(self).sort_col,
            final(self).sort_dir == old(self).sort_dir,
            final(self).filter == old(self).filter,
            final(self).inspector_open == old(self).inspector_open,
            final(self).modal_open == old(self).modal_open,
            final(self).json_pretty == old(self).json_pretty,
    {
        self.changes.clear();
        self.sql_review_open = false;
        match self.selected_cell {
            Some(c) => {
                if c.is_inserted {
                    self.selected_cell = None;
                }
            },
            None => {},
        }
    }
}

} // verus!
