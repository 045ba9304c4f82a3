//! Row layout of the data grid: which existing rows and which staged
//! (not yet committed) inserted rows are shown, and in which order.

use vstd::prelude::*;

verus! {

/// A single cell value of a query result.
///
/// A floating-point value is carried as the bit pattern of its IEEE-754
/// double, so that the value passes through the library unchanged.
#[derive(Debug, Clone, PartialEq)]
pub enum QueryValue {
    Null,
    Bool(bool),
    Int(i64),
    Float(u64),
    String(String),
    Bytes(Vec<u8>),
    DateTime(String),
}

/// Mathematical model of a cell value.
pub enum CellValue {
    Null,
    Bool(bool),
    Int(i64),
    Float(u64),
    Text(Seq<char>),
    Bytes(Seq<u8>),
    DateTime(Seq<char>),
}

impl View for QueryValue {
    type V = CellValue;

    open spec fn view(&self) -> CellValue {
        match self {
            QueryValue::Null => CellValue::Null,
            QueryValue::Bool(b) => CellValue::Bool(*b),
            QueryValue::Int(i) => CellValue::Int(*i),
            QueryValue::Float(f) => CellValue::Float(*f),
            QueryValue::String(s) => CellValue::Text(s@),
            QueryValue::Bytes(b) => CellValue::Bytes(b@),
            QueryValue::DateTime(d) => CellValue::DateTime(d@),
        }
    }
}

impl QueryValue {
    /// Whether the value is SQL `NULL`.
    pub fn is_null(&self) -> (res: bool)
        ensures
            res <==> *self is Null,
    {
        match self {
            QueryValue::Null => true,
            _ => false,
        }
    }
}

/// Where a staged row is shown in the grid.
#[derive(Debug, Clone, Copy, PartialEq, Eq, Structural)]
pub enum InsertAnchor {
    /// Directly after the existing row with this index in the result.
    AfterRow(usize),
    /// Directly after the staged row with this temporary id.
    AfterInserted(usize),
    /// At the end of the page with this index.
    PageEnd(usize),
}

/// A row staged for insertion.
#[derive(Debug, Clone)]
pub struct RowInsertion {
    pub temp_id: usize,
    pub values: Vec<QueryValue>,
    pub anchor: InsertAnchor,
}

/// An entry of the displayed row sequence.
#[derive(Debug, Clone, Copy, PartialEq, Eq, Structural)]
pub enum GridDisplayItem {
    /// An existing row: its position on the page and its index in the result.
    Original(usize, usize),
    /// A staged row, by its index among the staged rows.
    Inserted(usize),
}

/// Coordinate of a grid cell, in an existing row or in a staged row.
#[derive(Debug, Clone, Copy, PartialEq, Eq, Structural)]
pub struct GridCellCoord {
    pub is_inserted: bool,
    pub row_idx: usize,
    pub col_idx: usize,
}

impl GridCellCoord {
    /// A cell of an existing row.
    pub fn existing(row_idx: usize, col_idx: usize) -> (res: Self)
        ensures
            res == (GridCellCoord { is_inserted: false, row_idx, col_idx }),
    {
        GridCellCoord { is_inserted: false, row_idx, col_idx }
    }

    /// A cell of a staged row.
    pub fn inserted(insert_idx: usize, col_idx: usize) -> (res: Self)
        ensures
            res == (GridCellCoord { is_inserted: true, row_idx: insert_idx, col_idx }),
    {
        GridCellCoord { is_inserted: true, row_idx: insert_idx, col_idx }
    }
}

// ---------------------------------------------------------------------------
// Specification of the layout
// ---------------------------------------------------------------------------

/// Indices, in increasing order, of the staged rows among the first `n`
/// whose anchor is `a`.
pub open spec fn anchored_upto(rows: Seq<RowInsertion>, a: InsertAnchor, n: int) -> Seq<usize>
    decreases n,
{
    if n <= 0 {
        Seq::empty()
    } else {
        let prev = anchored_upto(rows, a, n - 1);
        if rows[n - 1].anchor == a {
            prev.push((n - 1) as usize)
        } else {
            prev
        }
    }
}

/// Indices, in increasing order, of the staged rows whose anchor is `a`.
pub open spec fn anchored(rows: Seq<RowInsertion>, a: InsertAnchor) -> Seq<usize> {
    anchored_upto(rows, a, rows.len() as int)
}

/// The staged rows shown directly below staged row `i`.
pub open spec fn children_of(rows: Seq<RowInsertion>, i: usize) -> Seq<usize> {
    anchored(rows, InsertAnchor::AfterInserted(rows[i as int].temp_id))
}

/// Number of staged rows not yet placed.
pub open spec fn unvisited(v: Seq<bool>) -> nat
    decreases v.len(),
{
    if v.len() == 0 {
        0
    } else {
        unvisited(v.drop_last()) + if v.last() {
            0nat
        } else {
            1nat
        }
    }
}

pub proof fn lemma_unvisited_mark(v: Seq<bool>, i: int)
    requires
        0 <= i < v.len(),
        !v[i],
    ensures
        unvisited(v.update(i, true)) + 1 == unvisited(v),
    decreases v.len(),
{
    if i == v.len() - 1 {
        assert(v.update(i, true).drop_last() =~= v.drop_last());
    } else {
        lemma_unvisited_mark(v.drop_last(), i);
        assert(v.update(i, true).drop_last() =~= v.drop_last().update(i, true));
    }
}

/// Depth-first placement of staged rows: the top of `stack` (its last
/// element) is placed next, unless already placed, followed by the rows
/// anchored below it, in index order, each with its own descendants.
pub open spec fn walk(
    rows: Seq<RowInsertion>,
    stack: Seq<usize>,
    items: Seq<GridDisplayItem>,
    visited: Seq<bool>,
) -> (Seq<GridDisplayItem>, Seq<bool>)
    decreases unvisited(visited), stack.len(),
{
    if stack.len() == 0 {
        (items, visited)
    } else {
        let i = stack.last();
        let rest = stack.drop_last();
        if i >= visited.len() || visited[i as int] {
            walk(rows, rest, items, visited)
        } else {
            proof {
                lemma_unvisited_mark(visited, i as int);
            }
            walk(
                rows,
                rest + children_of(rows, i).reverse(),
                items.push(GridDisplayItem::Inserted(i)),
                visited.update(i as int, true),
            )
        }
    }
}

/// Places the staged rows of `list`, in order, each with its descendants.
pub open spec fn place_all(
    rows: Seq<RowInsertion>,
    list: Seq<usize>,
    st: (Seq<GridDisplayItem>, Seq<bool>),
) -> (Seq<GridDisplayItem>, Seq<bool>) {
    walk(rows, list.reverse(), st.0, st.1)
}

/// State after the first `k` rows of the page, each followed by the staged
/// rows anchored after it.
pub open spec fn after_originals(rows: Seq<RowInsertion>, page: Seq<usize>, k: int) -> (
    Seq<GridDisplayItem>,
    Seq<bool>,
)
    decreases k,
{
    if k <= 0 {
        (Seq::empty(), Seq::new(rows.len(), |j: int| false))
    } else {
        let s = after_originals(rows, page, k - 1);
        place_all(
            rows,
            anchored(rows, InsertAnchor::AfterRow(page[k - 1])),
            (s.0.push(GridDisplayItem::Original((k - 1) as usize, page[k - 1])), s.1),
        )
    }
}

/// Whether a staged row belongs to another existing page than the current one.
pub open spec fn on_other_page(r: RowInsertion, current_page: usize, total_pages: usize) -> bool {
    match r.anchor {
        InsertAnchor::PageEnd(p) => p != current_page && p < total_pages,
        _ => false,
    }
}

/// Rows not placed yet, among the first `k`, are placed in index order unless
/// they belong to another page.
pub open spec fn fallback(
    rows: Seq<RowInsertion>,
    current_page: usize,
    total_pages: usize,
    k: int,
    st: (Seq<GridDisplayItem>, Seq<bool>),
) -> (Seq<GridDisplayItem>, Seq<bool>)
    decreases k,
{
    if k <= 0 {
        st
    } else {
        let s = fallback(rows, current_page, total_pages, k - 1, st);
        if !s.1[k - 1] && !on_other_page(rows[k - 1], current_page, total_pages) {
            place_all(rows, seq![(k - 1) as usize], s)
        } else {
            s
        }
    }
}

/// The complete display sequence of a page.
pub open spec fn grid_display_items(
    page: Seq<usize>,
    current_page: usize,
    total_pages: usize,
    rows: Seq<RowInsertion>,
) -> Seq<GridDisplayItem> {
    let s1 = after_originals(rows, page, page.len() as int);
    let s2 = place_all(rows, anchored(rows, InsertAnchor::PageEnd(current_page)), s1);
    fallback(rows, current_page, total_pages, rows.len() as int, s2).0
}

// ---------------------------------------------------------------------------
// Implementation
// ---------------------------------------------------------------------------

fn anchored_indices(rows: &[RowInsertion], a: InsertAnchor) -> (res: Vec<usize>)
    ensures
        res@ == anchored(rows@, a),
{
    let mut res: Vec<usize> = Vec::new();
    let mut j: usize = 0;
    while j < rows.len()
        invariant
            j <= rows.len(),
            res@ == anchored_upto(rows@, a, j as int),
        decreases rows.len() - j,
    {
        if rows[j].anchor == a {
            res.push(j);
        }
        j += 1;
    }
    res
}

fn reversed(v: &Vec<usize>) -> (res: Vec<usize>)
    ensures
        res@ == v@.reverse(),
{
    let mut res: Vec<usize> = Vec::new();
    let n = v.len();
    let mut k: usize = 0;
    while k < n
        invariant
            n == v.len(),
            k <= n,
            res@ == v@.reverse().take(k as int),
        decreases n - k,
    {
        res.push(v[n - 1 - k]);
        k += 1;
        assert(res@ =~= v@.reverse().take(k as int));
    }
    assert(v@.reverse().take(n as int) =~= v@.reverse());
    res
}

fn walk_exec(
    rows: &[RowInsertion],
    stack: Vec<usize>,
    items: &mut Vec<GridDisplayItem>,
    visited: &mut Vec<bool>,
)
    requires
        old(visited).len() == rows.len(),
    ensures
        final(visited).len() == rows.len(),
        (final(items)@, final(visited)@) == walk(rows@, stack@, old(items)@, old(visited)@),
{
    let ghost target = walk(rows@, stack@, items@, visited@);
    let mut stack = stack;
    while stack.len() > 0
        invariant
            visited.len() == rows.len(),
            walk(rows@, stack@, items@, visited@) == target,
        decreases unvisited(visited@), stack.len(),
    {
        let i = stack.pop().unwrap();
        if i < visited.len() && !visited[i] {
            proof {
                lemma_unvisited_mark(visited@, i as int);
            }
            visited.set(i, true);
            items.push(GridDisplayItem::Inserted(i));
            let ch = anchored_indices(rows, InsertAnchor::AfterInserted(rows[i].temp_id));
            let rev = reversed(&ch);
            let ghost rest = stack@;
            let mut k: usize = 0;
            while k < rev.len()
                invariant
                    k <= rev.len(),
                    stack@ == rest + rev@.take(k as int),
                decreases rev.len() - k,
            {
                stack.push(rev[k]);
                k += 1;
                assert(stack@ =~= rest + rev@.take(k as int));
            }
            assert(rev@.take(rev.len() as int) =~= rev@);
        }
    }
}

/// Computes the displayed row sequence of a page: each existing row of the
/// page followed by the staged rows anchored after it (each followed by the
/// staged rows anchored after it, depth first), then the staged rows anchored
/// at the end of the current page, then every staged row not placed yet that
/// does not belong to another page, in index order.
pub fn compute_grid_display_items(
    page_slice_indices: &[usize],
    current_page: usize,
    total_pages: usize,
    inserted_rows: &[RowInsertion],
) -> (res: Vec<GridDisplayItem>)
    ensures
        res@ == grid_display_items(page_slice_indices@, current_page, total_pages, inserted_rows@),
{
    let rows = inserted_rows;
    let page = page_slice_indices;
    let n = rows.len();
    let mut visited: Vec<bool> = Vec::new();
    let mut j: usize = 0;
    while j < n
        invariant
            n == rows.len(),
            j <= n,
            visited@ == Seq::new(j as nat, |x: int| false),
        decreases n - j,
    {
        visited.push(false);
        j += 1;
        assert(visited@ =~= Seq::new(j as nat, |x: int| false));
    }
    let mut items: Vec<GridDisplayItem> = Vec::new();
    assert(items@ =~= after_originals(rows@, page@, 0).0);
    let mut rel: usize = 0;
    while rel < page.len()
        invariant
            n == rows.len(),
            rel <= page.len(),
            (items@, visited@) == after_originals(rows@, page@, rel as int),
            visited.len() == n,
        decreases page.len() - rel,
    {
        let orig = page[rel];
        items.push(GridDisplayItem::Original(rel, orig));
        let ch = anchored_indices(rows, InsertAnchor::AfterRow(orig));
        let rev = reversed(&ch);
        walk_exec(rows, rev, &mut items, &mut visited);
        rel += 1;
    }
    let ch = anchored_indices(rows, InsertAnchor::PageEnd(current_page));
    let rev = reversed(&ch);
    walk_exec(rows, rev, &mut items, &mut visited);
    let ghost s2 = (items@, visited@);
    let mut k: usize = 0;
    while k < n
        invariant
            n == rows.len(),
            k <= n,
            visited.len() == n,
            (items@, visited@) == fallback(rows@, current_page, total_pages, k as int, s2),
        decreases n - k,
    {
        let other = match rows[k].anchor {
            InsertAnchor::PageEnd(p) => p != current_page && p < total_pages,
            _ => false,
        };
        if !visited[k] && !other {
            let mut single: Vec<usize> = Vec::new();
            single.push(k);
            proof {
                assert(single@ =~= seq![k].reverse());
            }
            walk_exec(rows, single, &mut items, &mut visited);
        }
        k += 1;
    }
    items
}


// ---------------------------------------------------------------------------
// Laws of the layout
// ---------------------------------------------------------------------------

/// Index of a staged row shown by `x`, or -1 for an existing row.
pub open spec fn inserted_index(x: GridDisplayItem) -> int {
    match x {
        GridDisplayItem::Inserted(i) => i as int,
        GridDisplayItem::Original(_, _) => -1,
    }
}

/// The existing-row entries of a display sequence, in order.
pub open spec fn originals_of(items: Seq<GridDisplayItem>) -> Seq<GridDisplayItem>
    decreases items.len(),
{
    if items.len() == 0 {
        Seq::empty()
    } else {
        let p = originals_of(items.drop_last());
        if items.last() is Original {
            p.push(items.last())
        } else {
            p
        }
    }
}

/// Consistency of a partial layout: `visited` marks exactly the staged rows
/// shown so far, each is shown once, and none belongs to another page.
pub open spec fn layout_ok(
    rows: Seq<RowInsertion>,
    current_page: usize,
    total_pages: usize,
    items: Seq<GridDisplayItem>,
    visited: Seq<bool>,
) -> bool {
    &&& visited.len() == rows.len()
    &&& forall|k: int|
        0 <= k < items.len() && inserted_index(#[trigger] items[k]) >= 0 ==> inserted_index(
            items[k],
        ) < rows.len() && visited[inserted_index(items[k])]
    &&& forall|i: int|
        0 <= i < rows.len() && #[trigger] visited[i] ==> items.contains(
            GridDisplayItem::Inserted(i as usize),
        )
    &&& forall|k1: int, k2: int|
        0 <= k1 < k2 < items.len() && inserted_index(#[trigger] items[k1]) >= 0
            ==> inserted_index(items[k1]) != inserted_index(#[trigger] items[k2])
    &&& forall|i: int|
        0 <= i < rows.len() && #[trigger] visited[i] ==> !on_other_page(
            rows[i],
            current_page,
            total_pages,
        )
}

proof fn lemma_anchored(rows: Seq<RowInsertion>, a: InsertAnchor, n: int)
    requires
        0 <= n <= rows.len(),
        rows.len() <= usize::MAX,
    ensures
        forall|k: int|
            0 <= k < anchored_upto(rows, a, n).len() ==> (#[trigger] anchored_upto(rows, a, n)[k])
                < n && rows[anchored_upto(rows, a, n)[k] as int].anchor == a,
        forall|j: int|
            0 <= j < n && #[trigger] rows[j].anchor == a ==> anchored_upto(rows, a, n).contains(
                j as usize,
            ),
    decreases n,
{
    if n > 0 {
        lemma_anchored(rows, a, n - 1);
        let prev = anchored_upto(rows, a, n - 1);
        if rows[n - 1].anchor == a {
            assert(prev.push((n - 1) as usize)[prev.len() as int] == (n - 1) as usize);
            assert forall|j: int| 0 <= j < n && #[trigger] rows[j].anchor == a implies anchored_upto(
                rows,
                a,
                n,
            ).contains(j as usize) by {
                if j < n - 1 {
                    let w = choose|w: int| 0 <= w < prev.len() && prev[w] == j as usize;
                    assert(prev.push((n - 1) as usize)[w] == j as usize);
                }
            }
        }
    }
}

proof fn lemma_reverse_member(s: Seq<usize>, k: int)
    requires
        0 <= k < s.len(),
    ensures
        s.reverse()[k] == s[s.len() - 1 - k],
        s.reverse().len() == s.len(),
{
}

proof fn lemma_originals_append_inserted(a: Seq<GridDisplayItem>, b: Seq<GridDisplayItem>)
    requires
        forall|k: int| 0 <= k < b.len() ==> (#[trigger] b[k]) is Inserted,
    ensures
        originals_of(a + b) == originals_of(a),
    decreases b.len(),
{
    if b.len() > 0 {
        lemma_originals_append_inserted(a, b.drop_last());
        assert((a + b).drop_last() =~= a + b.drop_last());
        assert(b[b.len() - 1] is Inserted);
    } else {
        assert(a + b =~= a);
    }
}

proof fn lemma_walk(
    rows: Seq<RowInsertion>,
    current_page: usize,
    total_pages: usize,
    stack: Seq<usize>,
    items: Seq<GridDisplayItem>,
    visited: Seq<bool>,
)
    requires
        rows.len() <= usize::MAX,
        layout_ok(rows, current_page, total_pages, items, visited),
        forall|j: int|
            0 <= j < stack.len() && (#[trigger] stack[j]) < rows.len() ==> !on_other_page(
                rows[stack[j] as int],
                current_page,
                total_pages,
            ),
    ensures
        ({
            let r = walk(rows, stack, items, visited);
            &&& layout_ok(rows, current_page, total_pages, r.0, r.1)
            &&& r.0.len() >= items.len()
            &&& r.0.subrange(0, items.len() as int) == items
            &&& forall|k: int| items.len() <= k < r.0.len() ==> (#[trigger] r.0[k]) is Inserted
            &&& forall|i: int| 0 <= i < rows.len() && visited[i] ==> #[trigger] r.1[i]
            &&& forall|j: int|
                0 <= j < stack.len() && (#[trigger] stack[j]) < rows.len() ==> r.1[stack[j] as int]
        }),
    decreases unvisited(visited), stack.len(),
{
    if stack.len() == 0 {
        assert(items.subrange(0, items.len() as int) =~= items);
    } else {
        let i = stack.last();
        let rest = stack.drop_last();
        assert forall|j: int|
            0 <= j < rest.len() && (#[trigger] rest[j]) < rows.len() implies !on_other_page(
            rows[rest[j] as int],
            current_page,
            total_pages,
        ) by {
            assert(rest[j] == stack[j]);
        }
        if i >= visited.len() || visited[i as int] {
            lemma_walk(rows, current_page, total_pages, rest, items, visited);
            let r = walk(rows, rest, items, visited);
            assert forall|j: int|
                0 <= j < stack.len() && (#[trigger] stack[j]) < rows.len() implies r.1[stack[j] as int] by {
                if j < rest.len() {
                    assert(rest[j] == stack[j]);
                }
            }
        } else {
            lemma_unvisited_mark(visited, i as int);
            let ch = children_of(rows, i);
            let a = InsertAnchor::AfterInserted(rows[i as int].temp_id);
            lemma_anchored(rows, a, rows.len() as int);
            let st = rest + ch.reverse();
            assert forall|j: int|
                0 <= j < st.len() && (#[trigger] st[j]) < rows.len() implies !on_other_page(
                rows[st[j] as int],
                current_page,
                total_pages,
            ) by {
                if j < rest.len() {
                    assert(st[j] == rest[j]);
                } else {
                    lemma_reverse_member(ch, j - rest.len());
                    assert(st[j] == ch[ch.len() - 1 - (j - rest.len())]);
                    assert(rows[st[j] as int].anchor == a);
                }
            }
            let items2 = items.push(GridDisplayItem::Inserted(i));
            let visited2 = visited.update(i as int, true);
            assert(!items.contains(GridDisplayItem::Inserted(i))) by {
                if items.contains(GridDisplayItem::Inserted(i)) {
                    let w = choose|w: int| 0 <= w < items.len() && items[w] == GridDisplayItem::Inserted(i);
                    assert(inserted_index(items[w]) == i);
                }
            }
            assert(layout_ok(rows, current_page, total_pages, items2, visited2)) by {
                assert forall|k: int|
                    0 <= k < items2.len() && inserted_index(#[trigger] items2[k]) >= 0 implies inserted_index(
                    items2[k],
                ) < rows.len() && visited2[inserted_index(items2[k])] by {
                    if k < items.len() {
                        assert(items2[k] == items[k]);
                    }
                }
                assert forall|ii: int|
                    0 <= ii < rows.len() && #[trigger] visited2[ii] implies items2.contains(
                    GridDisplayItem::Inserted(ii as usize),
                ) by {
                    if ii == i {
                        assert(items2[items.len() as int] == GridDisplayItem::Inserted(i));
                    } else {
                        assert(visited[ii]);
                        let w = choose|w: int|
                            0 <= w < items.len() && items[w] == GridDisplayItem::Inserted(ii as usize);
                        assert(items2[w] == items[w]);
                    }
                }
                assert forall|k1: int, k2: int|
                    0 <= k1 < k2 < items2.len() && inserted_index(#[trigger] items2[k1]) >= 0 implies inserted_index(
                    items2[k1],
                ) != inserted_index(#[trigger] items2[k2]) by {
                    assert(items2[k1] == items[k1]);
                    if k2 == items.len() {
                        if inserted_index(items[k1]) == i {
                            assert(items[k1] == GridDisplayItem::Inserted(i));
                        }
                    } else {
                        assert(items2[k2] == items[k2]);
                    }
                }
                assert forall|ii: int|
                    0 <= ii < rows.len() && #[trigger] visited2[ii] implies !on_other_page(
                    rows[ii],
                    current_page,
                    total_pages,
                ) by {
                    if ii != i {
                        assert(visited[ii]);
                    }
                }
            }
            lemma_walk(rows, current_page, total_pages, st, items2, visited2);
            let r = walk(rows, st, items2, visited2);
            assert(r.0.subrange(0, items2.len() as int) == items2);
            assert(r.0.subrange(0, items.len() as int) =~= items) by {
                assert forall|k: int| 0 <= k < items.len() implies r.0.subrange(0, items.len() as int)[k]
                    == items[k] by {
                    assert(r.0.subrange(0, items2.len() as int)[k] == items2[k]);
                }
            }
            assert forall|k: int| items.len() <= k < r.0.len() implies (#[trigger] r.0[k]) is Inserted by {
                if k == items.len() {
                    assert(r.0.subrange(0, items2.len() as int)[k] == items2[k]);
                }
            }
            assert forall|ii: int| 0 <= ii < rows.len() && visited[ii] implies #[trigger] r.1[ii] by {
                assert(visited2[ii]);
            }
            assert forall|j: int|
                0 <= j < stack.len() && (#[trigger] stack[j]) < rows.len() implies r.1[stack[j] as int] by {
                if j < rest.len() {
                    assert(st[j] == stack[j]);
                } else {
                    assert(visited2[i as int]);
                }
            }
        }
    }
}

proof fn lemma_after_originals(
    rows: Seq<RowInsertion>,
    page: Seq<usize>,
    current_page: usize,
    total_pages: usize,
    k: int,
)
    requires
        rows.len() <= usize::MAX,
        0 <= k <= page.len(),
        page.len() <= usize::MAX,
    ensures
        ({
            let s = after_originals(rows, page, k);
            &&& layout_ok(rows, current_page, total_pages, s.0, s.1)
            &&& originals_of(s.0) == Seq::new(
                k as nat,
                |r: int| GridDisplayItem::Original(r as usize, page[r]),
            )
            &&& k > 0 ==> {
                let prev = after_originals(rows, page, k - 1).0;
                &&& s.0.len() > prev.len()
                &&& s.0.subrange(0, prev.len() + 1int) == prev.push(
                    GridDisplayItem::Original((k - 1) as usize, page[k - 1]),
                )
                &&& forall|j: int| prev.len() < j < s.0.len() ==> (#[trigger] s.0[j]) is Inserted
                &&& forall|j: int|
                    0 <= j < rows.len() && (#[trigger] rows[j]).anchor == InsertAnchor::AfterRow(
                        page[k - 1],
                    ) ==> s.1[j]
            }
        }),
    decreases k,
{
    if k <= 0 {
        let s = after_originals(rows, page, k);
        assert(originals_of(s.0) =~= Seq::new(
            k as nat,
            |r: int| GridDisplayItem::Original(r as usize, page[r]),
        ));
    } else {
        lemma_after_originals(rows, page, current_page, total_pages, k - 1);
        let s = after_originals(rows, page, k - 1);
        let x = GridDisplayItem::Original((k - 1) as usize, page[k - 1]);
        let items = s.0.push(x);
        assert(layout_ok(rows, current_page, total_pages, items, s.1)) by {
            assert forall|j: int|
                0 <= j < items.len() && inserted_index(#[trigger] items[j]) >= 0 implies inserted_index(
                items[j],
            ) < rows.len() && s.1[inserted_index(items[j])] by {
                assert(items[j] == s.0[j]);
            }
            assert forall|ii: int|
                0 <= ii < rows.len() && #[trigger] s.1[ii] implies items.contains(
                GridDisplayItem::Inserted(ii as usize),
            ) by {
                let w = choose|w: int|
                    0 <= w < s.0.len() && s.0[w] == GridDisplayItem::Inserted(ii as usize);
                assert(items[w] == s.0[w]);
            }
            assert forall|k1: int, k2: int|
                0 <= k1 < k2 < items.len() && inserted_index(#[trigger] items[k1]) >= 0 implies inserted_index(
                items[k1],
            ) != inserted_index(#[trigger] items[k2]) by {
                assert(items[k1] == s.0[k1]);
                if k2 < s.0.len() {
                    assert(items[k2] == s.0[k2]);
                }
            }
        }
        let a = InsertAnchor::AfterRow(page[k - 1]);
        let ch = anchored(rows, a);
        lemma_anchored(rows, a, rows.len() as int);
        assert forall|j: int|
            0 <= j < ch.reverse().len() && (#[trigger] ch.reverse()[j]) < rows.len() implies !on_other_page(
            rows[ch.reverse()[j] as int],
            current_page,
            total_pages,
        ) by {
            lemma_reverse_member(ch, j);
        }
        lemma_walk(rows, current_page, total_pages, ch.reverse(), items, s.1);
        let r = walk(rows, ch.reverse(), items, s.1);
        assert(r.0.subrange(0, s.0.len() + 1int) == items);
        assert forall|j: int|
            0 <= j < rows.len() && (#[trigger] rows[j]).anchor == a implies r.1[j] by {
            assert(ch.contains(j as usize));
            let w = choose|w: int| 0 <= w < ch.len() && ch[w] == j as usize;
            lemma_reverse_member(ch, ch.len() - 1 - w);
            assert(ch.reverse()[ch.len() - 1 - w] == j as usize);
        }
        assert(r.0 =~= items + r.0.subrange(items.len() as int, r.0.len() as int));
        lemma_originals_append_inserted(items, r.0.subrange(items.len() as int, r.0.len() as int));
        assert(items.drop_last() =~= s.0);
        assert(originals_of(r.0) =~= Seq::new(
            k as nat,
            |r: int| GridDisplayItem::Original(r as usize, page[r]),
        ));
    }
}

proof fn lemma_fallback(
    rows: Seq<RowInsertion>,
    current_page: usize,
    total_pages: usize,
    k: int,
    st: (Seq<GridDisplayItem>, Seq<bool>),
)
    requires
        rows.len() <= usize::MAX,
        0 <= k <= rows.len(),
        layout_ok(rows, current_page, total_pages, st.0, st.1),
    ensures
        ({
            let r = fallback(rows, current_page, total_pages, k, st);
            &&& layout_ok(rows, current_page, total_pages, r.0, r.1)
            &&& r.0.len() >= st.0.len()
            &&& r.0.subrange(0, st.0.len() as int) == st.0
            &&& forall|j: int| st.0.len() <= j < r.0.len() ==> (#[trigger] r.0[j]) is Inserted
            &&& forall|i: int|
                0 <= i < k && !on_other_page(rows[i], current_page, total_pages) ==> #[trigger] r.1[i]
        }),
    decreases k,
{
    if k <= 0 {
        assert(st.0.subrange(0, st.0.len() as int) =~= st.0);
    } else {
        lemma_fallback(rows, current_page, total_pages, k - 1, st);
        let s = fallback(rows, current_page, total_pages, k - 1, st);
        if !s.1[k - 1] && !on_other_page(rows[k - 1], current_page, total_pages) {
            let single = seq![(k - 1) as usize];
            assert(single.reverse() =~= single);
            lemma_walk(rows, current_page, total_pages, single, s.0, s.1);
            let r = walk(rows, single, s.0, s.1);
            assert(single[0] == (k - 1) as usize);
            assert(r.0.subrange(0, st.0.len() as int) =~= st.0) by {
                assert forall|j: int| 0 <= j < st.0.len() implies r.0.subrange(0, st.0.len() as int)[j]
                    == st.0[j] by {
                    assert(r.0.subrange(0, s.0.len() as int)[j] == s.0[j]);
                    assert(s.0.subrange(0, st.0.len() as int)[j] == st.0[j]);
                }
            }
            assert forall|j: int| st.0.len() <= j < r.0.len() implies (#[trigger] r.0[j]) is Inserted by {
                if j < s.0.len() {
                    assert(r.0.subrange(0, s.0.len() as int)[j] == s.0[j]);
                }
            }
        }
    }
}

proof fn lemma_layout(
    page: Seq<usize>,
    current_page: usize,
    total_pages: usize,
    rows: Seq<RowInsertion>,
)
    requires
        rows.len() <= usize::MAX,
        page.len() <= usize::MAX,
    ensures
        ({
            let s1 = after_originals(rows, page, page.len() as int);
            let s2 = place_all(rows, anchored(rows, InsertAnchor::PageEnd(current_page)), s1);
            let r = fallback(rows, current_page, total_pages, rows.len() as int, s2);
            &&& layout_ok(rows, current_page, total_pages, r.0, r.1)
            &&& originals_of(r.0) == Seq::new(
                page.len(),
                |x: int| GridDisplayItem::Original(x as usize, page[x]),
            )
            &&& forall|i: int|
                0 <= i < rows.len() && !on_other_page(rows[i], current_page, total_pages)
                    ==> #[trigger] r.1[i]
            &&& r.0.len() >= s1.0.len()
            &&& r.0.subrange(0, s1.0.len() as int) == s1.0
        }),
{
    lemma_after_originals(rows, page, current_page, total_pages, page.len() as int);
    let s1 = after_originals(rows, page, page.len() as int);
    let a = InsertAnchor::PageEnd(current_page);
    let ch = anchored(rows, a);
    lemma_anchored(rows, a, rows.len() as int);
    assert forall|j: int|
        0 <= j < ch.reverse().len() && (#[trigger] ch.reverse()[j]) < rows.len() implies !on_other_page(
        rows[ch.reverse()[j] as int],
        current_page,
        total_pages,
    ) by {
        lemma_reverse_member(ch, j);
    }
    lemma_walk(rows, current_page, total_pages, ch.reverse(), s1.0, s1.1);
    let s2 = place_all(rows, ch, s1);
    assert(s2.0 =~= s1.0 + s2.0.subrange(s1.0.len() as int, s2.0.len() as int));
    lemma_originals_append_inserted(s1.0, s2.0.subrange(s1.0.len() as int, s2.0.len() as int));
    lemma_fallback(rows, current_page, total_pages, rows.len() as int, s2);
    let r = fallback(rows, current_page, total_pages, rows.len() as int, s2);
    assert(r.0 =~= s2.0 + r.0.subrange(s2.0.len() as int, r.0.len() as int));
    lemma_originals_append_inserted(s2.0, r.0.subrange(s2.0.len() as int, r.0.len() as int));
    assert(r.0.subrange(0, s1.0.len() as int) =~= s1.0) by {
        assert forall|j: int| 0 <= j < s1.0.len() implies r.0.subrange(0, s1.0.len() as int)[j]
            == s1.0[j] by {
            assert(r.0.subrange(0, s2.0.len() as int)[j] == s2.0[j]);
            assert(s2.0.subrange(0, s1.0.len() as int)[j] == s1.0[j]);
        }
    }
}

/// No staged row is shown twice, and every staged-row entry refers to an
/// existing staged row.
pub proof fn law_display_inserted_once(
    page: Seq<usize>,
    current_page: usize,
    total_pages: usize,
    rows: Seq<RowInsertion>,
)
    requires
        rows.len() <= usize::MAX,
        page.len() <= usize::MAX,
    ensures
        ({
            let r = grid_display_items(page, current_page, total_pages, rows);
            &&& forall|k: int|
                0 <= k < r.len() && (#[trigger] r[k]) is Inserted ==> inserted_index(r[k]) < rows.len()
            &&& forall|k1: int, k2: int|
                0 <= k1 < k2 < r.len() && (#[trigger] r[k1]) is Inserted ==> r[k1] != #[trigger] r[k2]
        }),
{
    lemma_layout(page, current_page, total_pages, rows);
    let r = grid_display_items(page, current_page, total_pages, rows);
    assert forall|k1: int, k2: int|
        0 <= k1 < k2 < r.len() && (#[trigger] r[k1]) is Inserted implies r[k1] != #[trigger] r[k2] by {
        assert(inserted_index(r[k1]) >= 0);
    }
    assert forall|k: int|
        0 <= k < r.len() && (#[trigger] r[k]) is Inserted implies inserted_index(r[k]) < rows.len() by {
        assert(inserted_index(r[k]) >= 0);
    }
}

/// A staged row is shown exactly when it does not belong to another
/// existing page.
pub proof fn law_display_inserted_shown(
    page: Seq<usize>,
    current_page: usize,
    total_pages: usize,
    rows: Seq<RowInsertion>,
)
    requires
        rows.len() <= usize::MAX,
        page.len() <= usize::MAX,
    ensures
        forall|i: int|
            0 <= i < rows.len() ==> (grid_display_items(
                page,
                current_page,
                total_pages,
                rows,
            ).contains(GridDisplayItem::Inserted(i as usize)) <==> !on_other_page(
                #[trigger] rows[i],
                current_page,
                total_pages,
            )),
{
    lemma_layout(page, current_page, total_pages, rows);
    let s1 = after_originals(rows, page, page.len() as int);
    let s2 = place_all(rows, anchored(rows, InsertAnchor::PageEnd(current_page)), s1);
    let st = fallback(rows, current_page, total_pages, rows.len() as int, s2);
    let r = st.0;
    assert forall|i: int| 0 <= i < rows.len() implies (r.contains(GridDisplayItem::Inserted(i as usize))
        <==> !on_other_page(#[trigger] rows[i], current_page, total_pages)) by {
        if r.contains(GridDisplayItem::Inserted(i as usize)) {
            let w = choose|w: int| 0 <= w < r.len() && r[w] == GridDisplayItem::Inserted(i as usize);
            assert(inserted_index(r[w]) == i);
            assert(st.1[i]);
        }
        if !on_other_page(rows[i], current_page, total_pages) {
            assert(st.1[i]);
        }
    }
}

/// The existing rows of the page are shown once each, in page order, with
/// their position on the page.
pub proof fn law_display_originals_in_order(
    page: Seq<usize>,
    current_page: usize,
    total_pages: usize,
    rows: Seq<RowInsertion>,
)
    requires
        rows.len() <= usize::MAX,
        page.len() <= usize::MAX,
    ensures
        originals_of(grid_display_items(page, current_page, total_pages, rows)) == Seq::new(
            page.len(),
            |x: int| GridDisplayItem::Original(x as usize, page[x]),
        ),
{
    lemma_layout(page, current_page, total_pages, rows);
}

proof fn lemma_walk_skips(
    rows: Seq<RowInsertion>,
    stack: Seq<usize>,
    items: Seq<GridDisplayItem>,
    visited: Seq<bool>,
    i: int,
)
    requires
        rows.len() <= usize::MAX,
        0 <= i < rows.len(),
        visited.len() == rows.len(),
        rows[i].anchor is AfterRow,
        !visited[i],
        forall|j: int| 0 <= j < stack.len() ==> #[trigger] stack[j] != i as usize,
    ensures
        !walk(rows, stack, items, visited).1[i],
    decreases unvisited(visited), stack.len(),
{
    if stack.len() > 0 {
        let top = stack.last();
        let rest = stack.drop_last();
        assert forall|j: int| 0 <= j < rest.len() implies #[trigger] rest[j] != i as usize by {
            assert(rest[j] == stack[j]);
        }
        if top >= visited.len() || visited[top as int] {
            lemma_walk_skips(rows, rest, items, visited, i);
        } else {
            lemma_unvisited_mark(visited, top as int);
            let ch = children_of(rows, top);
            let a = InsertAnchor::AfterInserted(rows[top as int].temp_id);
            lemma_anchored(rows, a, rows.len() as int);
            let st = rest + ch.reverse();
            assert(stack[stack.len() - 1] == top);
            assert forall|j: int| 0 <= j < st.len() implies #[trigger] st[j] != i as usize by {
                if j < rest.len() {
                    assert(st[j] == rest[j]);
                } else {
                    lemma_reverse_member(ch, j - rest.len());
                    assert(st[j] == ch[ch.len() - 1 - (j - rest.len())]);
                    assert(rows[st[j] as int].anchor == a);
                }
            }
            lemma_walk_skips(
                rows,
                st,
                items.push(GridDisplayItem::Inserted(top)),
                visited.update(top as int, true),
                i,
            );
        }
    }
}

proof fn lemma_after_originals_skips(
    rows: Seq<RowInsertion>,
    page: Seq<usize>,
    current_page: usize,
    total_pages: usize,
    k: int,
    i: int,
    x: usize,
)
    requires
        rows.len() <= usize::MAX,
        page.len() <= usize::MAX,
        0 <= k <= page.len(),
        0 <= i < rows.len(),
        rows[i].anchor == InsertAnchor::AfterRow(x),
        forall|q: int| 0 <= q < k ==> #[trigger] page[q] != x,
    ensures
        !after_originals(rows, page, k).1[i],
    decreases k,
{
    if k > 0 {
        lemma_after_originals_skips(rows, page, current_page, total_pages, k - 1, i, x);
        lemma_after_originals(rows, page, current_page, total_pages, k - 1);
        let s = after_originals(rows, page, k - 1);
        let a = InsertAnchor::AfterRow(page[k - 1]);
        let ch = anchored(rows, a);
        lemma_anchored(rows, a, rows.len() as int);
        assert(page[k - 1] != x);
        assert forall|j: int| 0 <= j < ch.reverse().len() implies #[trigger] ch.reverse()[j]
            != i as usize by {
            lemma_reverse_member(ch, j);
            assert(rows[ch[ch.len() - 1 - j] as int].anchor == a);
        }
        lemma_walk_skips(
            rows,
            ch.reverse(),
            s.0.push(GridDisplayItem::Original((k - 1) as usize, page[k - 1])),
            s.1,
            i,
        );
    } else {
        assert(!Seq::new(rows.len(), |j: int| false)[i]);
    }
}

proof fn lemma_after_originals_prefix(
    rows: Seq<RowInsertion>,
    page: Seq<usize>,
    current_page: usize,
    total_pages: usize,
    k: int,
    n: int,
)
    requires
        rows.len() <= usize::MAX,
        page.len() <= usize::MAX,
        0 <= k <= n <= page.len(),
    ensures
        after_originals(rows, page, n).0.len() >= after_originals(rows, page, k).0.len(),
        after_originals(rows, page, n).0.subrange(0, after_originals(rows, page, k).0.len() as int)
            == after_originals(rows, page, k).0,
    decreases n,
{
    let sk = after_originals(rows, page, k).0;
    if n == k {
        assert(sk.subrange(0, sk.len() as int) =~= sk);
    } else {
        lemma_after_originals_prefix(rows, page, current_page, total_pages, k, n - 1);
        lemma_after_originals(rows, page, current_page, total_pages, n);
        let prev = after_originals(rows, page, n - 1).0;
        let sn = after_originals(rows, page, n).0;
        assert(sn.subrange(0, sk.len() as int) =~= sk) by {
            assert forall|j: int| 0 <= j < sk.len() implies sn.subrange(0, sk.len() as int)[j]
                == sk[j] by {
                assert(prev.subrange(0, sk.len() as int)[j] == sk[j]);
                assert(sn.subrange(0, prev.len() + 1int)[j] == prev.push(
                    GridDisplayItem::Original((n - 1) as usize, page[n - 1]),
                )[j]);
            }
        }
    }
}

/// A staged row anchored after an existing row of the page is shown after
/// that row and before the page's next existing row: the anchor names the
/// row by its index in the result, as the page lists it, not by its
/// position on the page. (The row is the first on the page with that
/// index.)
pub proof fn law_display_inserted_after_anchor(
    page: Seq<usize>,
    current_page: usize,
    total_pages: usize,
    rows: Seq<RowInsertion>,
    p: int,
    i: int,
)
    requires
        rows.len() <= usize::MAX,
        page.len() <= usize::MAX,
        0 <= p < page.len(),
        0 <= i < rows.len(),
        rows[i].anchor == InsertAnchor::AfterRow(page[p]),
        forall|q: int| 0 <= q < p ==> #[trigger] page[q] != page[p],
    ensures
        ({
            let r = grid_display_items(page, current_page, total_pages, rows);
            exists|m1: int, m2: int|
                0 <= m1 < m2 < r.len() && r[m1] == GridDisplayItem::Original(p as usize, page[p])
                    && r[m2] == GridDisplayItem::Inserted(i as usize) && forall|k: int|
                    m1 < k < m2 ==> (#[trigger] r[k]) is Inserted
        }),
{
    lemma_after_originals(rows, page, current_page, total_pages, p);
    lemma_after_originals(rows, page, current_page, total_pages, p + 1);
    lemma_after_originals_skips(rows, page, current_page, total_pages, p, i, page[p]);
    lemma_after_originals_prefix(rows, page, current_page, total_pages, p + 1, page.len() as int);
    lemma_layout(page, current_page, total_pages, rows);
    let sp = after_originals(rows, page, p);
    let sq = after_originals(rows, page, p + 1);
    let s1 = after_originals(rows, page, page.len() as int);
    let r = grid_display_items(page, current_page, total_pages, rows);
    let l = sp.0.len() as int;
    assert(sq.1[i]);
    assert(sq.0.contains(GridDisplayItem::Inserted(i as usize)));
    let m2 = choose|w: int| 0 <= w < sq.0.len() && sq.0[w] == GridDisplayItem::Inserted(i as usize);
    assert(sq.0.subrange(0, l + 1)[l] == sp.0.push(
        GridDisplayItem::Original(p as usize, page[p]),
    )[l]);
    assert(sq.0[l] == GridDisplayItem::Original(p as usize, page[p]));
    if m2 < l {
        assert(sq.0.subrange(0, l + 1)[m2] == sp.0.push(
            GridDisplayItem::Original(p as usize, page[p]),
        )[m2]);
        assert(sp.0[m2] == GridDisplayItem::Inserted(i as usize));
        assert(inserted_index(sp.0[m2]) == i);
        assert(false);
    }
    assert(m2 > l);
    assert forall|k: int| 0 <= k < sq.0.len() implies #[trigger] r[k] == sq.0[k] by {
        assert(r.subrange(0, s1.0.len() as int)[k] == s1.0[k]);
        assert(s1.0.subrange(0, sq.0.len() as int)[k] == sq.0[k]);
    }
    assert(r[l] == GridDisplayItem::Original(p as usize, page[p]));
    assert(r[m2] == GridDisplayItem::Inserted(i as usize));
    assert forall|k: int| l < k < m2 implies (#[trigger] r[k]) is Inserted by {
        assert(r[k] == sq.0[k]);
    }
}

} // verus!
