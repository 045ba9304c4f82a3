# zqlcrab

The workspace logic of a desktop database client, verified with Verus: the
query console's tabs and runs (with safe-mode and read-only protection), the
data grid's layout, view state and its defaults, paging, filtering, sort state and the ordering of cells
(all but floating-point comparisons), staged new rows, the table designer and
structure editor, the cell inspector, the connection form and error dialog,
destructive-action confirmation, which overlay Esc closes, and the status
bar's counts.

Layout:

- `src/` — the verified library, one module per area (`console`, `grid`,
  `grid_state`, `pagination`, `new_row`, `designer`, `inspector`, `cell_edit`,
  `connection_form`, `error_dialog`, `nav`) and the string helpers they share
  (`text`). Each public function states its result in `ensures`; the
  `law_*` proof functions state properties that span several calls.
- `tests/` — concrete scenarios run against the compiled library.
- `app/` — glue for what the library cannot hold: floating-point cell values
  (JSON numbers, the float-against-number comparisons of a sort, parsing).

JSON parsing and pretty-printing go through `serde_json`, and query tabs get
random identifiers from `uuid`; both are called from the library behind small
trusted wrappers whose contracts are documented where they are declared.
