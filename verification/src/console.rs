//! Query console session: the open query tabs, which one is active, the
//! opening and closing of tabs, and the safe-mode screening of statements.

use vstd::prelude::*;
use crate::nav::{ActivityNav, WorkspaceTab, ExplainViewMode};
use crate::text::{
    string_of, append_str,
    chars_of, string_from_chars, trim, trim_chars, with_number, decimal, push_decimal, push_char,
    spec_to_uppercase, to_uppercase, contains_seq, contains_str,
};

verus! {

/// `Uuid::new_v4().as_u128()`: a fresh random tab identifier.
#[verifier::external_body]
fn new_tab_id() -> (res: u128) {
    uuid::Uuid::new_v4().as_u128()
}

/// State of one query tab (its editor text and result summary).
#[derive(Debug, Clone)]
pub struct QueryTab {
    pub id: u128,
    pub title: String,
    pub connection_profile_id: Option<String>,
    pub sql: String,
    pub has_result: bool,
    pub error: Option<String>,
    pub has_explain_plan: bool,
    pub explain_error: Option<String>,
    pub is_executing: bool,
    pub is_explaining: bool,
    pub execution_time_ms: Option<u64>,
    pub bottom_tab: ConsoleBottomTab,
    pub explain_view: ExplainViewMode,
}

/// Which pane the lower half of a query tab shows.
#[derive(Debug, Clone, Copy, PartialEq, Eq, Structural)]
pub enum ConsoleBottomTab {
    Results,
    Explain,
}

/// The query tabs of the console and the workspace focus they drive.
#[derive(Debug)]
pub struct QuerySession {
    pub tabs: Vec<QueryTab>,
    pub active_id: u128,
    pub tab_counter: usize,
    pub workspace_tab: WorkspaceTab,
    pub nav: ActivityNav,
    pub status_message: Option<String>,
}

/// Index of the first tab with identifier `id`, searching from `j`.
pub open spec fn tab_index_from(tabs: Seq<QueryTab>, id: u128, j: int) -> Option<int>
    decreases tabs.len() - j,
{
    if j < 0 || j >= tabs.len() {
        None
    } else if tabs[j].id == id {
        Some(j)
    } else {
        tab_index_from(tabs, id, j + 1)
    }
}

/// Index of the first tab with identifier `id`.
pub open spec fn tab_index(tabs: Seq<QueryTab>, id: u128) -> Option<int> {
    tab_index_from(tabs, id, 0)
}

/// Index of the active tab: the tab with the active identifier, else the
/// first tab, else none.
pub open spec fn active_index(tabs: Seq<QueryTab>, active_id: u128) -> Option<int> {
    match tab_index(tabs, active_id) {
        Some(i) => Some(i),
        None => if tabs.len() > 0 {
            Some(0)
        } else {
            None
        },
    }
}

proof fn lemma_tab_index_from(tabs: Seq<QueryTab>, id: u128, j: int)
    requires
        0 <= j,
    ensures
        tab_index_from(tabs, id, j) matches Some(i) ==> j <= i < tabs.len() && tabs[i].id == id
            && forall|k: int| j <= k < i ==> (#[trigger] tabs[k]).id != id,
        tab_index_from(tabs, id, j) is None ==> forall|k: int|
            j <= k < tabs.len() ==> (#[trigger] tabs[k]).id != id,
    decreases tabs.len() - j,
{
    if j < tabs.len() && tabs[j].id != id {
        lemma_tab_index_from(tabs, id, j + 1);
    }
}

/// The first tab with identifier `id`, if any.
pub fn find_tab(tabs: &Vec<QueryTab>, id: u128) -> (res: Option<usize>)
    ensures
        match res {
            Some(i) => tab_index(tabs@, id) == Some(i as int),
            None => tab_index(tabs@, id) is None,
        },
        res is Some ==> res->0 < tabs.len(),
{
    let mut j: usize = 0;
    while j < tabs.len()
        invariant
            j <= tabs.len(),
            tab_index(tabs@, id) == tab_index_from(tabs@, id, j as int),
        decreases tabs.len() - j,
    {
        if tabs[j].id == id {
            return Some(j);
        }
        j += 1;
    }
    None
}

/// A fresh tab: empty editor, no result, no error, not running, tree view.
pub open spec fn fresh_tab(
    t: QueryTab,
    id: u128,
    title: Seq<char>,
    conn: Option<String>,
    sql: Seq<char>,
) -> bool {
    &&& t.id == id
    &&& t.title@ == title
    &&& t.connection_profile_id == conn
    &&& t.sql@ == sql
    &&& !t.has_result
    &&& t.error is None
    &&& !t.has_explain_plan
    &&& t.explain_error is None
    &&& !t.is_executing
    &&& !t.is_explaining
    &&& t.execution_time_ms is None
    &&& t.bottom_tab == ConsoleBottomTab::Results
    &&& t.explain_view == ExplainViewMode::Tree
}

/// A tab reset to a clean session: titled `Query 1`, editor cleared, and
/// result, errors, plan, timing and running flags cleared.
pub open spec fn reset_tab(before: QueryTab, after: QueryTab) -> bool {
    &&& after.id == before.id
    &&& after.title@ == "Query 1"@
    &&& after.connection_profile_id == before.connection_profile_id
    &&& after.sql@ == Seq::<char>::empty()
    &&& !after.has_result
    &&& after.error is None
    &&& !after.has_explain_plan
    &&& after.explain_error is None
    &&& !after.is_executing
    &&& !after.is_explaining
    &&& after.execution_time_ms is None
    &&& after.bottom_tab == before.bottom_tab
    &&& after.explain_view == before.explain_view
}

/// The session's tabs after closing the tab at `idx` (not the last one):
/// the tab is removed and, if it was active, the tab now at its position
/// (or the new last tab) becomes active.
pub open spec fn active_after_close(
    tabs: Seq<QueryTab>,
    active_id: u128,
    closed_id: u128,
    idx: int,
) -> u128 {
    let rest = tabs.remove(idx);
    if active_id == closed_id {
        if idx >= rest.len() {
            rest[rest.len() - 1].id
        } else {
            rest[idx].id
        }
    } else {
        active_id
    }
}

/// The query the first tab opens with: a hint on running and formatting,
/// then a welcome `SELECT`.
pub open spec fn welcome_query() -> Seq<char> {
    "-- Press \u{2318}\u{21b5} (Ctrl+Enter) to run \u{b7} Shift+Alt+F formats SQL\nSELECT 1 AS id, 'Welcome to CrabStudio' AS message;\n"@
}

impl QuerySession {
    /// A console with one tab `Query 1` holding the welcome query, active,
    /// bound to no connection; the next default title is `Query 2`, and the
    /// status line reads `Ready`.
    pub fn new() -> (res: Self)
        ensures
            res.tabs@.len() == 1,
            fresh_tab(res.tabs@[0], res.active_id, "Query 1"@, None, welcome_query()),
            res.tab_counter == 2,
            res.workspace_tab == WorkspaceTab::QueryConsole,
            res.nav == ActivityNav::Databases,
            res.status_message matches Some(m) && m@ == "Ready"@,
    {
        let id = new_tab_id();
        let tab = QueryTab {
            id,
            title: string_of("Query 1"),
            connection_profile_id: None,
            sql: string_of("-- Press \u{2318}\u{21b5} (Ctrl+Enter) to run \u{b7} Shift+Alt+F formats SQL\nSELECT 1 AS id, 'Welcome to CrabStudio' AS message;\n"),
            has_result: false,
            error: None,
            has_explain_plan: false,
            explain_error: None,
            is_executing: false,
            is_explaining: false,
            execution_time_ms: None,
            bottom_tab: ConsoleBottomTab::Results,
            explain_view: ExplainViewMode::Tree,
        };
        let mut tabs: Vec<QueryTab> = Vec::new();
        tabs.push(tab);
        QuerySession {
            tabs,
            active_id: id,
            tab_counter: 2,
            workspace_tab: WorkspaceTab::QueryConsole,
            nav: ActivityNav::Databases,
            status_message: Some(string_of("Ready")),
        }
    }

    /// Index of the active tab (the tab with the active identifier, else
    /// the first tab).
    pub fn active_query_tab(&self) -> (res: Option<usize>)
        ensures
            match res {
                Some(i) => active_index(self.tabs@, self.active_id) == Some(i as int),
                None => active_index(self.tabs@, self.active_id) is None,
            },
    {
        match find_tab(&self.tabs, self.active_id) {
            Some(i) => Some(i),
            None => if self.tabs.len() > 0 {
                Some(0)
            } else {
                None
            },
        }
    }

    /// Opens a new tab with the given title (else `Query <n>` from the tab
    /// counter, which then advances), the given editor text, bound to the
    /// active connection; the tab becomes active and the console is shown.
    /// Returns the new tab's random identifier.
    pub fn create_query_tab(
        &mut self,
        title: Option<String>,
        initial_sql: Option<&str>,
        active_connection_id: Option<String>,
    ) -> (res: u128)
        requires
            old(self).tab_counter < usize::MAX,
        ensures
            final(self).tabs@.len() == old(self).tabs@.len() + 1,
            final(self).tabs@.drop_last() == old(self).tabs@,
            fresh_tab(
                final(self).tabs@.last(),
                res,
                match title {
                    Some(t) => t@,
                    None => "Query "@ + decimal(old(self).tab_counter as nat),
                },
                active_connection_id,
                match initial_sql {
                    Some(s) => s@,
                    None => Seq::<char>::empty(),
                },
            ),
            final(self).tab_counter == if title is Some {
                old(self).tab_counter
            } else {
                (old(self).tab_counter + 1) as usize
            },
            final(self).active_id == res,
            final(self).workspace_tab == WorkspaceTab::QueryConsole,
            final(self).nav == ActivityNav::Console,
            final(self).status_message == old(self).status_message,
    {
        let id = new_tab_id();
        let title = match title {
            Some(t) => t,
            None => {
                let name = with_number("Query ", self.tab_counter);
                self.tab_counter = self.tab_counter + 1;
                name
            },
        };
        let sql = match initial_sql {
            Some(s) => string_of(s),
            None => String::new(),
        };
        let tab = QueryTab {
            id,
            title,
            connection_profile_id: active_connection_id,
            sql,
            has_result: false,
            error: None,
            has_explain_plan: false,
            explain_error: None,
            is_executing: false,
            is_explaining: false,
            execution_time_ms: None,
            bottom_tab: ConsoleBottomTab::Results,
            explain_view: ExplainViewMode::Tree,
        };
        self.tabs.push(tab);
        self.active_id = id;
        self.workspace_tab = WorkspaceTab::QueryConsole;
        self.nav = ActivityNav::Console;
        assert(self.tabs@.drop_last() =~= old(self).tabs@);
        id
    }

    /// Activates the tab `tab_id` and shows the console, if such a tab exists.
    pub fn switch_query_tab(&mut self, tab_id: u128)
        ensures
            final(self).tabs@ == old(self).tabs@,
            final(self).tab_counter == old(self).tab_counter,
            final(self).nav == old(self).nav,
            final(self).status_message == old(self).status_message,
            tab_index(old(self).tabs@, tab_id) is Some ==> final(self).active_id == tab_id
                && final(self).workspace_tab == WorkspaceTab::QueryConsole,
            tab_index(old(self).tabs@, tab_id) is None ==> final(self).active_id == old(
                self,
            ).active_id && final(self).workspace_tab == old(self).workspace_tab,
    {
        if find_tab(&self.tabs, tab_id).is_some() {
            self.active_id = tab_id;
            self.workspace_tab = WorkspaceTab::QueryConsole;
        }
    }

    /// Binds the first tab `tab_id` to a connection profile (or unbinds it).
    pub fn set_query_tab_connection(&mut self, tab_id: u128, conn_id: Option<String>)
        ensures
            final(self).active_id == old(self).active_id,
            final(self).tab_counter == old(self).tab_counter,
            final(self).workspace_tab == old(self).workspace_tab,
            final(self).nav == old(self).nav,
            final(self).status_message == old(self).status_message,
            final(self).tabs@.len() == old(self).tabs@.len(),
            match tab_index(old(self).tabs@, tab_id) {
                Some(i) => final(self).tabs@ == old(self).tabs@.update(
                    i,
                    QueryTab { connection_profile_id: conn_id, ..old(self).tabs@[i] },
                ),
                None => final(self).tabs@ == old(self).tabs@,
            },
    {
        match find_tab(&self.tabs, tab_id) {
            Some(i) => {
                let mut t = self.tabs.remove(i);
                t.connection_profile_id = conn_id;
                self.tabs.insert(i, t);
                assert(self.tabs@ =~= old(self).tabs@.update(
                    i as int,
                    QueryTab { connection_profile_id: conn_id, ..old(self).tabs@[i as int] },
                ));
            },
            None => {},
        }
    }

    /// After connecting to profile `conn_id`: the tab with the active
    /// identifier is bound to it when it is bound to no profile yet.
    pub fn bind_active_tab_if_unbound(&mut self, conn_id: &str)
        ensures
            final(self).active_id == old(self).active_id,
            final(self).tab_counter == old(self).tab_counter,
            final(self).workspace_tab == old(self).workspace_tab,
            final(self).nav == old(self).nav,
            final(self).status_message == old(self).status_message,
            match tab_index(old(self).tabs@, old(self).active_id) {
                Some(i) => if old(self).tabs@[i].connection_profile_id is None {
                    &&& final(self).tabs@[i].connection_profile_id matches Some(c) && c@
                        == conn_id@
                    &&& final(self).tabs@ == old(self).tabs@.update(
                        i,
                        QueryTab {
                            connection_profile_id: final(self).tabs@[i].connection_profile_id,
                            ..old(self).tabs@[i]
                        },
                    )
                } else {
                    final(self).tabs@ == old(self).tabs@
                },
                None => final(self).tabs@ == old(self).tabs@,
            },
    {
        match find_tab(&self.tabs, self.active_id) {
            Some(i) => {
                if self.tabs[i].connection_profile_id.is_none() {
                    let mut t = self.tabs.remove(i);
                    t.connection_profile_id = Some(string_of(conn_id));
                    self.tabs.insert(i, t);
                    assert(self.tabs@ =~= old(self).tabs@.update(
                        i as int,
                        QueryTab {
                            connection_profile_id: self.tabs@[i as int].connection_profile_id,
                            ..old(self).tabs@[i as int]
                        },
                    ));
                }
            },
            None => {},
        }
    }

    /// Closes tab `tab_id`. The last remaining tab is not removed but reset
    /// to a clean `Query 1` session. Otherwise the tab is removed and, if it
    /// was active, the tab that took its place (or the new last tab) becomes
    /// active. An unknown identifier changes nothing.
    pub fn close_query_tab(&mut self, tab_id: u128)
        ensures
            final(self).tab_counter == old(self).tab_counter,
            final(self).workspace_tab == old(self).workspace_tab,
            final(self).nav == old(self).nav,
            match tab_index(old(self).tabs@, tab_id) {
                None => *final(self) == *old(self),
                Some(idx) => if old(self).tabs@.len() <= 1 {
                    &&& final(self).tabs@.len() == 1
                    &&& reset_tab(old(self).tabs@[0], final(self).tabs@[0])
                    &&& final(self).active_id == old(self).active_id
                    &&& final(self).status_message matches Some(m) && m@
                        == "Reset query session"@
                } else {
                    &&& final(self).tabs@ == old(self).tabs@.remove(idx)
                    &&& final(self).active_id == active_after_close(
                        old(self).tabs@,
                        old(self).active_id,
                        tab_id,
                        idx,
                    )
                    &&& final(self).status_message == old(self).status_message
                },
            },
    {
        let idx = match find_tab(&self.tabs, tab_id) {
            Some(i) => i,
            None => {
                return;
            },
        };
        proof {
            lemma_tab_index_from(self.tabs@, tab_id, 0);
        }
        if self.tabs.len() <= 1 {
            let mut t = self.tabs.remove(0);
            t.title = string_of("Query 1");
            t.sql = String::new();
            t.has_result = false;
            t.error = None;
            t.has_explain_plan = false;
            t.explain_error = None;
            t.execution_time_ms = None;
            t.is_executing = false;
            t.is_explaining = false;
            self.tabs.insert(0, t);
            self.status_message = Some(string_of("Reset query session"));
            return;
        }
        self.tabs.remove(idx);
        if self.active_id == tab_id {
            let new_idx = if idx >= self.tabs.len() {
                self.tabs.len() - 1
            } else {
                idx
            };
            self.active_id = self.tabs[new_idx].id;
        }
    }

    /// Closes the active tab.
    pub fn close_active_query_tab(&mut self)
        ensures
            final(self).tab_counter == old(self).tab_counter,
            match tab_index(old(self).tabs@, old(self).active_id) {
                None => *final(self) == *old(self),
                Some(idx) => if old(self).tabs@.len() <= 1 {
                    final(self).tabs@.len() == 1 && reset_tab(
                        old(self).tabs@[0],
                        final(self).tabs@[0],
                    )
                } else {
                    final(self).tabs@ == old(self).tabs@.remove(idx)
                },
            },
    {
        let active = self.active_id;
        self.close_query_tab(active);
    }
}

/// Closing a tab never leaves the console without tabs.
pub proof fn law_close_keeps_a_tab(tabs: Seq<QueryTab>, idx: int)
    requires
        0 <= idx < tabs.len(),
        tabs.len() > 1,
    ensures
        tabs.remove(idx).len() >= 1,
{
}

/// After closing a tab (not the last), the active identifier still names an
/// open tab, provided it named one before.
pub proof fn law_close_keeps_active_valid(tabs: Seq<QueryTab>, active_id: u128, tab_id: u128)
    requires
        tabs.len() > 1,
        tab_index(tabs, tab_id) is Some,
        tab_index(tabs, active_id) is Some,
    ensures
        tab_index(
            tabs.remove(tab_index(tabs, tab_id)->0),
            active_after_close(tabs, active_id, tab_id, tab_index(tabs, tab_id)->0),
        ) is Some,
{
    let idx = tab_index(tabs, tab_id)->0;
    lemma_tab_index_from(tabs, tab_id, 0);
    lemma_tab_index_from(tabs, active_id, 0);
    let rest = tabs.remove(idx);
    let a = active_after_close(tabs, active_id, tab_id, idx);
    lemma_tab_index_from(rest, a, 0);
    if active_id == tab_id {
        if idx >= rest.len() {
            assert(rest[rest.len() - 1].id == a);
        } else {
            assert(rest[idx].id == a);
        }
    } else {
        let ai = tab_index(tabs, active_id)->0;
        assert(ai != idx);
        if ai < idx {
            assert(rest[ai].id == a);
        } else {
            assert(rest[ai - 1].id == a);
        }
    }
}

/// Closing the tab just opened gives back the tabs as they were before it
/// was opened.
pub proof fn law_open_then_close_restores_tabs(tabs: Seq<QueryTab>, t: QueryTab)
    requires
        tabs.len() >= 1,
        tab_index(tabs, t.id) is None,
    ensures
        tab_index(tabs.push(t), t.id) == Some(tabs.len() as int),
        tabs.push(t).remove(tabs.len() as int) == tabs,
{
    lemma_tab_index_from(tabs.push(t), t.id, 0);
    lemma_tab_index_from(tabs, t.id, 0);
    assert forall|k: int| 0 <= k < tabs.len() implies (#[trigger] tabs.push(t)[k]).id != t.id by {
        assert(tabs.push(t)[k] == tabs[k]);
    }
    if tab_index(tabs.push(t), t.id) is Some {
        let i = tab_index(tabs.push(t), t.id)->0;
        if i < tabs.len() {
            assert(tabs.push(t)[i] == tabs[i]);
        }
    } else {
        assert(tabs.push(t)[tabs.len() as int].id == t.id);
    }
    assert(tabs.push(t).remove(tabs.len() as int) =~= tabs);
}

// ---------------------------------------------------------------------------
// Running a query
// ---------------------------------------------------------------------------

/// The statement to run: the selected text when it is not blank, else the
/// whole editor text; nothing when that is blank.
pub open spec fn statement_to_run(selected: Seq<char>, full: Seq<char>) -> Option<Seq<char>> {
    if trim(selected).len() > 0 {
        Some(selected)
    } else if trim(full).len() > 0 {
        Some(full)
    } else {
        None
    }
}

/// Chooses the statement to run from the editor's selection and full text.
pub fn choose_statement(selected: &str, full: &str) -> (res: Option<String>)
    ensures
        match res {
            Some(s) => statement_to_run(selected@, full@) == Some(s@),
            None => statement_to_run(selected@, full@) is None,
        },
{
    let sel = chars_of(selected);
    if trim_chars(&sel).len() > 0 {
        return Some(string_from_chars(&sel));
    }
    let all = chars_of(full);
    if trim_chars(&all).len() > 0 {
        Some(string_from_chars(&all))
    } else {
        None
    }
}

/// Whether the editor text is formatted before it runs: only when the
/// setting is on and the whole text runs (no selection), so that a
/// selected range is never rewritten.
pub fn formats_before_run(format_on_run: bool, selected: &str) -> (res: bool)
    ensures
        res == (format_on_run && trim(selected@).len() == 0),
{
    if !format_on_run {
        return false;
    }
    let sel = chars_of(selected);
    trim_chars(&sel).len() == 0
}

/// Whether `s` starts with `p`.
pub open spec fn starts_with(s: Seq<char>, p: Seq<char>) -> bool {
    p.len() <= s.len() && s.subrange(0, p.len() as int) == p
}

fn starts_with_str(s: &str, p: &str) -> (res: bool)
    ensures
        res == starts_with(s@, p@),
{
    let sv = chars_of(s);
    let pv = chars_of(p);
    if pv.len() > sv.len() {
        return false;
    }
    let mut i: usize = 0;
    while i < pv.len()
        invariant
            sv@ == s@,
            pv@ == p@,
            pv.len() <= sv.len(),
            i <= pv.len(),
            forall|k: int| 0 <= k < i ==> sv@[k] == pv@[k],
        decreases pv.len() - i,
    {
        if sv[i] != pv[i] {
            assert(s@.subrange(0, p@.len() as int)[i as int] != p@[i as int]);
            return false;
        }
        i += 1;
    }
    assert(s@.subrange(0, p@.len() as int) =~= p@);
    true
}

/// Safe mode holds back a statement (given trimmed and upper-cased) that
/// deletes or updates without a `WHERE`, drops, or truncates.
pub open spec fn is_destructive(upper: Seq<char>) -> bool {
    ||| (starts_with(upper, "DELETE"@) && !contains_seq(upper, "WHERE"@))
    ||| (starts_with(upper, "UPDATE"@) && !contains_seq(upper, "WHERE"@))
    ||| starts_with(upper, "DROP"@)
    ||| starts_with(upper, "TRUNCATE"@)
}

/// Whether safe mode holds back the statement, given it trimmed and
/// upper-cased.
pub fn is_destructive_upper(upper: &str) -> (res: bool)
    ensures
        res == is_destructive(upper@),
{
    let has_where = contains_str(upper, "WHERE");
    (starts_with_str(upper, "DELETE") && !has_where) || (starts_with_str(upper, "UPDATE")
        && !has_where) || starts_with_str(upper, "DROP") || starts_with_str(upper, "TRUNCATE")
}

/// Whether safe mode holds back the statement: it is trimmed and
/// upper-cased, then screened as `is_destructive_upper` states.
pub fn blocked_by_safe_mode(sql: &str) -> (res: bool)
    ensures
        res == is_destructive(spec_to_uppercase(trim(sql@))),
{
    let cs = chars_of(sql);
    let t = trim_chars(&cs);
    let ts = string_from_chars(&t);
    let upper = to_uppercase(ts.as_str());
    is_destructive_upper(upper.as_str())
}

/// A read-only connection holds back a statement (given trimmed and
/// upper-cased) that drops, deletes, updates or truncates, with or without
/// a `WHERE`.
pub open spec fn is_mutation(upper: Seq<char>) -> bool {
    ||| starts_with(upper, "DROP"@)
    ||| starts_with(upper, "DELETE"@)
    ||| starts_with(upper, "UPDATE"@)
    ||| starts_with(upper, "TRUNCATE"@)
}

/// Whether a read-only connection holds back the statement: it is trimmed
/// and upper-cased, then screened as `is_mutation` states.
pub fn blocked_by_read_only(sql: &str) -> (res: bool)
    ensures
        res == is_mutation(spec_to_uppercase(trim(sql@))),
{
    let cs = chars_of(sql);
    let t = trim_chars(&cs);
    let ts = string_from_chars(&t);
    let upper = to_uppercase(ts.as_str());
    let u = upper.as_str();
    starts_with_str(u, "DROP") || starts_with_str(u, "DELETE") || starts_with_str(u, "UPDATE")
        || starts_with_str(u, "TRUNCATE")
}

/// Status line after a query: the affected-row count when the statement
/// returned no rows and reported one, else the number of rows returned.
pub open spec fn query_status(rows: nat, affected: Option<u64>, dur: u64) -> Seq<char> {
    match affected {
        Some(n) if rows == 0 => "Query completed: "@ + decimal(n as nat) + " row(s) affected in "@
            + decimal(dur as nat) + "ms"@,
        _ => "Query completed: "@ + decimal(rows) + " rows returned in "@ + decimal(dur as nat)
            + "ms"@,
    }
}

fn push_decimal_u64(s: &mut String, n: u64)
    ensures
        final(s)@ == old(s)@ + decimal(n as nat),
    decreases n,
{
    if n >= 10 {
        push_decimal_u64(s, n / 10);
    }
    let d = (n % 10) as usize;
    push_decimal(s, d);
    proof {
        assert(decimal(d as nat) == seq![crate::text::digit_char(d as nat)]);
        if n < 10 {
            assert(n % 10 == n);
        }
    }
}

/// The status line shown after a query completed.
pub fn query_status_message(rows: usize, affected: Option<u64>, dur: u64) -> (res: String)
    ensures
        res@ == query_status(rows as nat, affected, dur),
{
    let mut s = String::new();
    append_str(&mut s, "Query completed: ");
    match affected {
        Some(n) if rows == 0 => {
            push_decimal_u64(&mut s, n);
            append_str(&mut s, " row(s) affected in ");
        },
        _ => {
            push_decimal(&mut s, rows);
            append_str(&mut s, " rows returned in ");
        },
    }
    push_decimal_u64(&mut s, dur);
    append_str(&mut s, "ms");
    proof {
        assert(s@ =~= query_status(rows as nat, affected, dur));
    }
    s
}


// ---------------------------------------------------------------------------
// Running a query: start and completion
// ---------------------------------------------------------------------------

/// What became of a request to run the active tab's statement.
#[derive(Debug, Clone, Copy, PartialEq, Eq, Structural)]
pub enum QueryStart {
    /// No tab, or nothing but whitespace to run.
    Nothing,
    /// Safe mode, or a read-only connection, held the statement back.
    Blocked,
    /// No connection to run it on.
    NoConnection,
    /// The statement is to be executed.
    Started,
}

/// Error shown when safe mode holds a statement back.
pub open spec fn safe_mode_error() -> Seq<char> {
    "Safe Mode Protection: Detected destructive or unbounded mutation query without WHERE clause. Execution halted. (Disable Safe Mode in Settings to bypass)."@
}

/// Error shown when a read-only connection holds a statement back.
pub open spec fn read_only_error() -> Seq<char> {
    "Read-Only Protection: destructive queries (DROP, DELETE, UPDATE, TRUNCATE) are blocked on this connection."@
}

/// Error shown when there is no connection to run a statement on.
pub open spec fn no_connection_error() -> Seq<char> {
    "No active database connection. Please select or create a connection first."@
}

/// The tab with its error set to `e` (and all else unchanged).
pub open spec fn with_error(t: QueryTab, e: Option<String>) -> QueryTab {
    QueryTab { error: e, ..t }
}

impl QuerySession {
    fn set_tab_error(&mut self, i: usize, e: Option<String>)
        requires
            i < old(self).tabs.len(),
        ensures
            final(self).tabs@ == old(self).tabs@.update(i as int, with_error(old(self).tabs@[i as int], e)),
            final(self).active_id == old(self).active_id,
            final(self).tab_counter == old(self).tab_counter,
            final(self).workspace_tab == old(self).workspace_tab,
            final(self).nav == old(self).nav,
            final(self).status_message == old(self).status_message,
    {
        let mut t = self.tabs.remove(i);
        t.error = e;
        self.tabs.insert(i, t);
        assert(self.tabs@ =~= old(self).tabs@.update(i as int, with_error(old(self).tabs@[i as int], e)));
    }

    /// Handles a request to run the active tab: the selected text when it
    /// is not blank, else the whole editor text, is the statement. Safe mode
    /// holds destructive statements back with an error on the tab; without
    /// a connection the tab shows an error; a read-only connection holds
    /// back every drop, delete, update and truncate with an error on the
    /// tab; otherwise the tab is marked as running, its error cleared, and
    /// the statement is returned for execution.
    pub fn begin_query(
        &mut self,
        selected: &str,
        full: &str,
        safe_mode: bool,
        has_connection: bool,
        read_only: bool,
    ) -> (res: (QueryStart, Option<String>))
        ensures
            final(self).active_id == old(self).active_id,
            final(self).tab_counter == old(self).tab_counter,
            final(self).tabs@.len() == old(self).tabs@.len(),
            match active_index(old(self).tabs@, old(self).active_id) {
                None => res.0 == QueryStart::Nothing && *final(self) == *old(self),
                Some(i) => match statement_to_run(selected@, full@) {
                    None => res.0 == QueryStart::Nothing && *final(self) == *old(self),
                    Some(sql) => if safe_mode && is_destructive(spec_to_uppercase(trim(sql))) {
                        &&& res.0 == QueryStart::Blocked
                        &&& res.1 is None
                        &&& final(self).tabs@[i].error matches Some(e) && e@ == safe_mode_error()
                        &&& final(self).tabs@ == old(self).tabs@.update(
                            i,
                            QueryTab {
                                error: final(self).tabs@[i].error,
                                bottom_tab: ConsoleBottomTab::Results,
                                ..old(self).tabs@[i]
                            },
                        )
                        &&& final(self).status_message matches Some(m) && m@
                            == "Blocked by Safe Mode"@
                    } else if !has_connection {
                        &&& res.0 == QueryStart::NoConnection
                        &&& res.1 is None
                        &&& final(self).tabs@[i].error matches Some(e) && e@
                            == no_connection_error()
                        &&& final(self).tabs@ == old(self).tabs@.update(
                            i,
                            with_error(old(self).tabs@[i], final(self).tabs@[i].error),
                        )
                        &&& final(self).status_message == old(self).status_message
                    } else if read_only && is_mutation(spec_to_uppercase(trim(sql))) {
                        &&& res.0 == QueryStart::Blocked
                        &&& res.1 is None
                        &&& final(self).tabs@[i].error matches Some(e) && e@ == read_only_error()
                        &&& final(self).tabs@ == old(self).tabs@.update(
                            i,
                            with_error(old(self).tabs@[i], final(self).tabs@[i].error),
                        )
                        &&& final(self).status_message == old(self).status_message
                    } else {
                        &&& res.0 == QueryStart::Started
                        &&& res.1 matches Some(q) && q@ == sql
                        &&& final(self).tabs@ == old(self).tabs@.update(
                            i,
                            QueryTab {
                                is_executing: true,
                                error: None,
                                bottom_tab: ConsoleBottomTab::Results,
                                ..old(self).tabs@[i]
                            },
                        )
                        &&& final(self).status_message matches Some(m) && m@ == if trim(
                            selected@,
                        ).len() > 0 {
                            "Executing selected query..."@
                        } else {
                            "Executing query..."@
                        }
                    },
                },
            },
    {
        let i = match self.active_query_tab() {
            Some(i) => i,
            None => {
                return (QueryStart::Nothing, None);
            },
        };
        proof {
            lemma_tab_index_from(self.tabs@, self.active_id, 0);
        }
        let sql = match choose_statement(selected, full) {
            Some(q) => q,
            None => {
                return (QueryStart::Nothing, None);
            },
        };
        if safe_mode && blocked_by_safe_mode(sql.as_str()) {
            let mut t = self.tabs.remove(i);
            t.error = Some(string_of("Safe Mode Protection: Detected destructive or unbounded mutation query without WHERE clause. Execution halted. (Disable Safe Mode in Settings to bypass)."));
            t.bottom_tab = ConsoleBottomTab::Results;
            self.tabs.insert(i, t);
            assert(self.tabs@ =~= old(self).tabs@.update(
                i as int,
                QueryTab {
                    error: self.tabs@[i as int].error,
                    bottom_tab: ConsoleBottomTab::Results,
                    ..old(self).tabs@[i as int]
                },
            ));
            self.status_message = Some(string_of("Blocked by Safe Mode"));
            return (QueryStart::Blocked, None);
        }
        if !has_connection {
            self.set_tab_error(i, Some(string_of("No active database connection. Please select or create a connection first.")));
            return (QueryStart::NoConnection, None);
        }
        if read_only && blocked_by_read_only(sql.as_str()) {
            self.set_tab_error(i, Some(string_of("Read-Only Protection: destructive queries (DROP, DELETE, UPDATE, TRUNCATE) are blocked on this connection.")));
            return (QueryStart::Blocked, None);
        }
        let mut t = self.tabs.remove(i);
        t.is_executing = true;
        t.error = None;
        t.bottom_tab = ConsoleBottomTab::Results;
        self.tabs.insert(i, t);
        assert(self.tabs@ =~= old(self).tabs@.update(
            i as int,
            QueryTab {
                is_executing: true,
                error: None,
                bottom_tab: ConsoleBottomTab::Results,
                ..old(self).tabs@[i as int]
            },
        ));
        let sel = chars_of(selected);
        let is_selected = trim_chars(&sel).len() > 0;
        self.status_message = Some(
            if is_selected {
                string_of("Executing selected query...")
            } else {
                string_of("Executing query...")
            },
        );
        (QueryStart::Started, Some(sql))
    }

    /// Records the outcome of a statement run on tab `tab_id` after
    /// `duration_ms`: the tab stops running and keeps the duration; on
    /// success (`Ok` with rows returned, rows affected and the server-side
    /// time) the tab holds a result, its error is cleared and the status
    /// line reports the run; on failure the tab shows the error and the
    /// status line reports the failure. Returns whether a slow successful
    /// run (500 ms or more, server-side time if known) is to be explained
    /// automatically.
    pub fn finish_query(
        &mut self,
        tab_id: u128,
        duration_ms: u64,
        outcome: Result<(usize, Option<u64>, Option<u64>), String>,
        auto_explain: bool,
    ) -> (res: bool)
        ensures
            final(self).active_id == old(self).active_id,
            final(self).tab_counter == old(self).tab_counter,
            final(self).workspace_tab == old(self).workspace_tab,
            final(self).nav == old(self).nav,
            match tab_index(old(self).tabs@, tab_id) {
                None => *final(self) == *old(self) && !res,
                Some(i) => match outcome {
                    Ok((rows, affected, server_ms)) => {
                        let dur = match server_ms {
                            Some(d) => d,
                            None => duration_ms,
                        };
                        &&& final(self).tabs@ == old(self).tabs@.update(
                            i,
                            QueryTab {
                                is_executing: false,
                                execution_time_ms: Some(duration_ms),
                                has_result: true,
                                error: None,
                                ..old(self).tabs@[i]
                            },
                        )
                        &&& final(self).status_message matches Some(m) && m@ == query_status(
                            rows as nat,
                            affected,
                            dur,
                        )
                        &&& res == (auto_explain && dur >= 500)
                    },
                    Err(e) => {
                        &&& final(self).tabs@ == old(self).tabs@.update(
                            i,
                            QueryTab {
                                is_executing: false,
                                execution_time_ms: Some(duration_ms),
                                error: Some(e),
                                ..old(self).tabs@[i]
                            },
                        )
                        &&& final(self).status_message matches Some(m) && m@
                            == "Query execution failed"@
                        &&& !res
                    },
                },
            },
    {
        let i = match find_tab(&self.tabs, tab_id) {
            Some(i) => i,
            None => {
                return false;
            },
        };
        let mut t = self.tabs.remove(i);
        t.is_executing = false;
        t.execution_time_ms = Some(duration_ms);
        match outcome {
            Ok((rows, affected, server_ms)) => {
                let dur = match server_ms {
                    Some(d) => d,
                    None => duration_ms,
                };
                t.has_result = true;
                t.error = None;
                self.tabs.insert(i, t);
                assert(self.tabs@ =~= old(self).tabs@.update(
                    i as int,
                    QueryTab {
                        is_executing: false,
                        execution_time_ms: Some(duration_ms),
                        has_result: true,
                        error: None,
                        ..old(self).tabs@[i as int]
                    },
                ));
                self.status_message = Some(query_status_message(rows, affected, dur));
                auto_explain && dur >= 500
            },
            Err(e) => {
                t.error = Some(e);
                self.tabs.insert(i, t);
                assert(self.tabs@ =~= old(self).tabs@.update(
                    i as int,
                    QueryTab {
                        is_executing: false,
                        execution_time_ms: Some(duration_ms),
                        error: Some(e),
                        ..old(self).tabs@[i as int]
                    },
                ));
                self.status_message = Some(string_of("Query execution failed"));
                false
            },
        }
    }
}

// ---------------------------------------------------------------------------
// Explaining a statement: start and completion
// ---------------------------------------------------------------------------

/// Status line after a plan of `nodes` nodes came back.
pub open spec fn explain_status(nodes: nat) -> Seq<char> {
    "Explain completed: "@ + decimal(nodes) + " nodes"@
}

impl QuerySession {
    /// First step of explaining the statement of tab `tab_id`: the selected
    /// text when it is not blank, else the whole editor text. Without a
    /// connection the tab's plan pane shows the no-connection error;
    /// otherwise the statement is handed back (to be put in the EXPLAIN form
    /// of the connection's dialect) and nothing changes yet.
    pub fn begin_explain(&mut self, tab_id: u128, selected: &str, full: &str, has_connection: bool)
        -> (res: Option<String>)
        ensures
            final(self).active_id == old(self).active_id,
            final(self).tab_counter == old(self).tab_counter,
            final(self).workspace_tab == old(self).workspace_tab,
            final(self).nav == old(self).nav,
            final(self).status_message == old(self).status_message,
            match tab_index(old(self).tabs@, tab_id) {
                None => res is None && *final(self) == *old(self),
                Some(i) => match statement_to_run(selected@, full@) {
                    None => res is None && *final(self) == *old(self),
                    Some(sql) => if has_connection {
                        res matches Some(q) && q@ == sql && *final(self) == *old(self)
                    } else {
                        &&& res is None
                        &&& final(self).tabs@[i].explain_error matches Some(e) && e@
                            == no_connection_error()
                        &&& final(self).tabs@ == old(self).tabs@.update(
                            i,
                            QueryTab {
                                explain_error: final(self).tabs@[i].explain_error,
                                bottom_tab: ConsoleBottomTab::Explain,
                                ..old(self).tabs@[i]
                            },
                        )
                    },
                },
            },
    {
        let i = match find_tab(&self.tabs, tab_id) {
            Some(i) => i,
            None => {
                return None;
            },
        };
        let sql = match choose_statement(selected, full) {
            Some(q) => q,
            None => {
                return None;
            },
        };
        if !has_connection {
            let mut t = self.tabs.remove(i);
            t.explain_error = Some(string_of("No active database connection. Please select or create a connection first."));
            t.bottom_tab = ConsoleBottomTab::Explain;
            self.tabs.insert(i, t);
            assert(self.tabs@ =~= old(self).tabs@.update(
                i as int,
                QueryTab {
                    explain_error: self.tabs@[i as int].explain_error,
                    bottom_tab: ConsoleBottomTab::Explain,
                    ..old(self).tabs@[i as int]
                },
            ));
            return None;
        }
        Some(sql)
    }

    /// Marks tab `tab_id` as explaining: its explain error is cleared, the
    /// plan pane is shown and the status line says so. An unknown tab is
    /// left as is; the status line is set either way.
    pub fn mark_explaining(&mut self, tab_id: u128)
        ensures
            final(self).active_id == old(self).active_id,
            final(self).tab_counter == old(self).tab_counter,
            final(self).workspace_tab == old(self).workspace_tab,
            final(self).nav == old(self).nav,
            final(self).status_message matches Some(m) && m@ == "Running EXPLAIN\u{2026}"@,
            match tab_index(old(self).tabs@, tab_id) {
                None => final(self).tabs@ == old(self).tabs@,
                Some(i) => final(self).tabs@ == old(self).tabs@.update(
                    i,
                    QueryTab {
                        is_explaining: true,
                        explain_error: None,
                        bottom_tab: ConsoleBottomTab::Explain,
                        ..old(self).tabs@[i]
                    },
                ),
            },
    {
        match find_tab(&self.tabs, tab_id) {
            Some(i) => {
                let mut t = self.tabs.remove(i);
                t.is_explaining = true;
                t.explain_error = None;
                t.bottom_tab = ConsoleBottomTab::Explain;
                self.tabs.insert(i, t);
                assert(self.tabs@ =~= old(self).tabs@.update(
                    i as int,
                    QueryTab {
                        is_explaining: true,
                        explain_error: None,
                        bottom_tab: ConsoleBottomTab::Explain,
                        ..old(self).tabs@[i as int]
                    },
                ));
            },
            None => {},
        }
        self.status_message = Some(string_of("Running EXPLAIN\u{2026}"));
    }

    /// Records the outcome of explaining tab `tab_id`: the tab stops
    /// explaining; a plan of `nodes` nodes is kept with its error cleared
    /// and reported on the status line, or the plan is dropped, the error
    /// shown on the tab and the failure reported. An unknown tab changes
    /// nothing.
    pub fn finish_explain(&mut self, tab_id: u128, outcome: Result<usize, String>)
        ensures
            final(self).active_id == old(self).active_id,
            final(self).tab_counter == old(self).tab_counter,
            final(self).workspace_tab == old(self).workspace_tab,
            final(self).nav == old(self).nav,
            match tab_index(old(self).tabs@, tab_id) {
                None => *final(self) == *old(self),
                Some(i) => match outcome {
                    Ok(nodes) => {
                        &&& final(self).tabs@ == old(self).tabs@.update(
                            i,
                            QueryTab {
                                is_explaining: false,
                                has_explain_plan: true,
                                explain_error: None,
                                ..old(self).tabs@[i]
                            },
                        )
                        &&& final(self).status_message matches Some(m) && m@ == explain_status(
                            nodes as nat,
                        )
                    },
                    Err(e) => {
                        &&& final(self).tabs@ == old(self).tabs@.update(
                            i,
                            QueryTab {
                                is_explaining: false,
                                has_explain_plan: false,
                                explain_error: Some(e),
                                ..old(self).tabs@[i]
                            },
                        )
                        &&& final(self).status_message matches Some(m) && m@ == "Explain failed"@
                    },
                },
            },
    {
        let i = match find_tab(&self.tabs, tab_id) {
            Some(i) => i,
            None => {
                return;
            },
        };
        let mut t = self.tabs.remove(i);
        t.is_explaining = false;
        match outcome {
            Ok(nodes) => {
                t.has_explain_plan = true;
                t.explain_error = None;
                self.tabs.insert(i, t);
                assert(self.tabs@ =~= old(self).tabs@.update(
                    i as int,
                    QueryTab {
                        is_explaining: false,
                        has_explain_plan: true,
                        explain_error: None,
                        ..old(self).tabs@[i as int]
                    },
                ));
                let mut m = string_of("Explain completed: ");
                push_decimal(&mut m, nodes);
                append_str(&mut m, " nodes");
                self.status_message = Some(m);
            },
            Err(e) => {
                t.has_explain_plan = false;
                t.explain_error = Some(e);
                self.tabs.insert(i, t);
                assert(self.tabs@ =~= old(self).tabs@.update(
                    i as int,
                    QueryTab {
                        is_explaining: false,
                        has_explain_plan: false,
                        explain_error: Some(e),
                        ..old(self).tabs@[i as int]
                    },
                ));
                self.status_message = Some(string_of("Explain failed"));
            },
        }
    }
}

} // verus!
