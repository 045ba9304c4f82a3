//! Keyword filtering and pagination of the data grid's rows.

use vstd::prelude::*;
use crate::grid::{
    CellValue, QueryValue, RowInsertion, GridDisplayItem, compute_grid_display_items,
    grid_display_items,
};
use crate::text::{
    decimal, push_decimal, append_str, chars_of, contains_seq, contains_str, spec_to_lowercase,
    to_lowercase,
};

verus! {

/// The rows shown on one page of the grid.
#[derive(Debug, Clone, Copy, PartialEq, Eq, Structural)]
pub struct PageWindow {
    /// Number of pages, at least one.
    pub total_pages: usize,
    /// The requested page, clamped to the last page.
    pub current_page: usize,
    /// First row (among the matching rows) on the page.
    pub start: usize,
    /// One past the last row on the page.
    pub end: usize,
}

/// Number of pages for `total` rows: enough pages of `page_size` rows to
/// hold them all, and at least one.
pub open spec fn page_count(total: nat, page_size: nat) -> nat {
    let p = ((total + page_size - 1) as int / page_size as int) as nat;
    if p == 0 {
        1
    } else {
        p
    }
}

/// The window of page `current` over `total` rows: the page is clamped to
/// the last page, and the window holds the rows of that page that exist.
pub open spec fn page_window_spec(total: nat, page_size: nat, current: nat) -> (nat, nat, nat, nat) {
    let pages = page_count(total, page_size);
    let cur = if current < pages {
        current
    } else {
        (pages - 1) as nat
    };
    let start = cur * page_size;
    let end = if start + page_size < total {
        start + page_size
    } else {
        total
    };
    if start < total {
        (pages, cur, start, end)
    } else {
        (pages, cur, start, start)
    }
}

/// The page size the grid works with: the requested size, at least one.
pub fn clamp_page_size(size: usize) -> (res: usize)
    ensures
        res == if size == 0 {
            1
        } else {
            size
        },
        res > 0,
{
    if size == 0 {
        1
    } else {
        size
    }
}

/// Computes which matching rows are shown on the requested page.
pub fn page_window(total_rows: usize, page_size: usize, current_page: usize) -> (res: PageWindow)
    requires
        page_size > 0,
        total_rows + page_size - 1 <= usize::MAX,
    ensures
        (res.total_pages as nat, res.current_page as nat, res.start as nat, res.end as nat)
            == page_window_spec(total_rows as nat, page_size as nat, current_page as nat),
{
    let pages0 = (total_rows + (page_size - 1)) / page_size;
    let total_pages = if pages0 == 0 {
        1
    } else {
        pages0
    };
    let cur = if current_page < total_pages {
        current_page
    } else {
        total_pages - 1
    };
    proof {
        lemma_page_start_bound(total_rows as nat, page_size as nat, cur as nat, total_pages as nat);
    }
    let start = cur * page_size;
    let end = if start < total_rows && start + page_size < total_rows {
        start + page_size
    } else {
        total_rows
    };
    if start < total_rows {
        PageWindow { total_pages, current_page: cur, start, end }
    } else {
        PageWindow { total_pages, current_page: cur, start, end: start }
    }
}

proof fn lemma_page_start_bound(total: nat, ps: nat, cur: nat, pages: nat)
    requires
        ps > 0,
        total + ps - 1 <= usize::MAX,
        pages == page_count(total, ps),
        cur < pages,
    ensures
        cur * ps <= total + ps - 1,
        cur * ps <= usize::MAX,
{
    let q = ((total + ps - 1) as int / ps as int);
    vstd::arithmetic::div_mod::lemma_fundamental_div_mod((total + ps - 1) as int, ps as int);
    if q == 0 {
        assert(cur == 0);
        assert(cur * ps == 0) by (nonlinear_arith)
            requires
                cur == 0,
        ;
    } else {
        assert(cur < q);
        assert(cur * ps <= q * ps) by (nonlinear_arith)
            requires
                cur < q,
                ps > 0,
        ;
        assert(q * ps <= total + ps - 1) by (nonlinear_arith)
            requires
                (total + ps - 1) as int == ps * q + (total + ps - 1) as int % ps as int,
                (total + ps - 1) as int % ps as int >= 0,
        ;
    }
}

proof fn lemma_start_within(total: nat, ps: nat, current: nat)
    requires
        ps > 0,
    ensures
        page_window_spec(total, ps, current).2 <= total,
        total > 0 ==> page_window_spec(total, ps, current).2 < total,
{
    let pages = page_count(total, ps);
    let cur = page_window_spec(total, ps, current).1;
    if total > 0 {
        let x = (total + ps - 1) as int;
        let q = x / ps as int;
        vstd::arithmetic::div_mod::lemma_fundamental_div_mod(x, ps as int);
        let m = x % ps as int;
        assert(q >= 1) by (nonlinear_arith)
            requires
                x == ps * q + m,
                0 <= m < ps,
                x >= ps,
        ;
        assert(cur <= q - 1);
        assert(cur * ps <= (q - 1) * ps) by (nonlinear_arith)
            requires
                cur <= q - 1,
                ps > 0,
        ;
        assert((q - 1) * ps < total) by (nonlinear_arith)
            requires
                x == ps * q + m,
                0 <= m < ps,
                x == total + ps - 1,
        ;
    } else {
        assert(pages == 1) by {
            assert(((ps - 1) as int / ps as int) == 0) by {
                vstd::arithmetic::div_mod::lemma_basic_div((ps - 1) as int, ps as int);
            }
        }
        assert(cur == 0);
        assert(cur * ps == 0) by (nonlinear_arith)
            requires
                cur == 0,
        ;
    }
}

/// The window always lies within the matching rows, holds at most one page
/// of rows, names an existing page, and holds at least one row when there
/// is any.
pub proof fn law_page_window_bounds(total: nat, page_size: nat, current: nat)
    requires
        page_size > 0,
    ensures
        ({
            let w = page_window_spec(total, page_size, current);
            &&& w.2 <= w.3 <= total
            &&& w.3 - w.2 <= page_size
            &&& w.1 < w.0
            &&& w.0 >= 1
            &&& current < w.0 ==> w.1 == current
            &&& total > 0 ==> w.2 < w.3
        }),
{
    lemma_start_within(total, page_size, current);
}

/// Every row lies on exactly one page: row `r` of `total` is on the page
/// `r / page_size`, whose window holds it.
pub proof fn law_row_on_its_page(total: nat, page_size: nat, r: nat)
    requires
        page_size > 0,
        r < total,
    ensures
        ({
            let w = page_window_spec(total, page_size, r / page_size);
            &&& w.1 == r / page_size
            &&& w.2 <= r < w.3
        }),
{
    let p = r / page_size;
    vstd::arithmetic::div_mod::lemma_fundamental_div_mod(r as int, page_size as int);
    let m = r % page_size;
    assert(p * page_size <= r) by (nonlinear_arith)
        requires
            r as int == page_size * p + m,
            m >= 0,
    ;
    assert(r < p * page_size + page_size) by (nonlinear_arith)
        requires
            r as int == page_size * p + m,
            m < page_size,
    ;
    let pages = page_count(total, page_size);
    let q = ((total + page_size - 1) as int / page_size as int);
    vstd::arithmetic::div_mod::lemma_fundamental_div_mod((total + page_size - 1) as int, page_size as int);
    let mq = (total + page_size - 1) as int % page_size as int;
    assert(p < q) by (nonlinear_arith)
        requires
            (total + page_size - 1) as int == page_size * q + mq,
            mq < page_size,
            mq >= 0,
            p * page_size <= r,
            r < total,
            page_size > 0,
    ;
}

// ---------------------------------------------------------------------------
// Keyword filter
// ---------------------------------------------------------------------------

/// The character views of a table of texts.
pub open spec fn table_view(rows: Seq<Vec<String>>) -> Seq<Seq<Seq<char>>> {
    Seq::new(rows.len(), |i: int| Seq::new(rows[i]@.len(), |j: int| rows[i]@[j]@))
}

/// A table of texts, each lower-cased.
pub open spec fn table_lowered(rows: Seq<Vec<String>>) -> Seq<Seq<Seq<char>>> {
    Seq::new(
        rows.len(),
        |i: int| Seq::new(rows[i]@.len(), |j: int| spec_to_lowercase(rows[i]@[j]@)),
    )
}

/// Whether some cell of a row contains the keyword.
pub open spec fn row_matches(row: Seq<Seq<char>>, keyword: Seq<char>) -> bool {
    exists|j: int| 0 <= j < row.len() && contains_seq(#[trigger] row[j], keyword)
}

/// Indices, in increasing order, of the first `n` rows that match the
/// keyword (all of them when the keyword is empty).
pub open spec fn matching_rows(rows: Seq<Seq<Seq<char>>>, keyword: Seq<char>, n: int) -> Seq<usize>
    decreases n,
{
    if n <= 0 {
        Seq::empty()
    } else {
        let prev = matching_rows(rows, keyword, n - 1);
        if keyword.len() == 0 || row_matches(rows[n - 1], keyword) {
            prev.push((n - 1) as usize)
        } else {
            prev
        }
    }
}

proof fn lemma_matching_rows(rows: Seq<Seq<Seq<char>>>, keyword: Seq<char>, n: int)
    requires
        0 <= n <= rows.len(),
        rows.len() <= usize::MAX,
    ensures
        ({
            let m = matching_rows(rows, keyword, n);
            &&& forall|x: int| 0 <= x < m.len() ==> (#[trigger] m[x]) < n
            &&& forall|x: int, y: int| 0 <= x < y < m.len() ==> #[trigger] m[x] < #[trigger] m[y]
            &&& forall|i: usize|
                #![trigger m.contains(i)]
                i < n ==> (m.contains(i) <==> (keyword.len() == 0 || row_matches(
                    rows[i as int],
                    keyword,
                )))
        }),
    decreases n,
{
    if n > 0 {
        lemma_matching_rows(rows, keyword, n - 1);
        let prev = matching_rows(rows, keyword, n - 1);
        let m = matching_rows(rows, keyword, n);
        let kept = keyword.len() == 0 || row_matches(rows[n - 1], keyword);
        assert forall|i: usize| #![trigger m.contains(i)] i < n implies (m.contains(i) <==> (
        keyword.len() == 0 || row_matches(rows[i as int], keyword))) by {
            if (i as int) < n - 1 {
                assert(prev.contains(i) <==> (keyword.len() == 0 || row_matches(rows[i as int], keyword)));
                if m.contains(i) {
                    let w = choose|w: int| 0 <= w < m.len() && m[w] == i;
                    if kept {
                        if w < prev.len() {
                            assert(m[w] == prev[w]);
                        } else {
                            assert(m[w] == (n - 1) as usize);
                        }
                    } else {
                        assert(m == prev);
                    }
                    assert(prev.contains(i));
                }
                if prev.contains(i) {
                    let w = choose|w: int| 0 <= w < prev.len() && prev[w] == i;
                    if kept {
                        assert(m[w] == prev[w]);
                    }
                    assert(m.contains(i));
                }
            } else {
                if kept {
                    assert(m[prev.len() as int] == (n - 1) as usize);
                    assert(m.contains(i));
                } else {
                    assert(m == prev);
                    if prev.contains(i) {
                        let w = choose|w: int| 0 <= w < prev.len() && prev[w] == i;
                        assert(prev[w] < n - 1);
                    }
                    assert(!m.contains(i));
                }
            }
        }
    }
}

/// The keyword filter keeps, in increasing order and once each, exactly the
/// rows with some cell (any of them, the first included) that contains the
/// keyword; every row when the keyword is empty.
pub proof fn law_filter_rows_exact(rows: Seq<Seq<Seq<char>>>, keyword: Seq<char>)
    requires
        rows.len() <= usize::MAX,
    ensures
        ({
            let m = matching_rows(rows, keyword, rows.len() as int);
            &&& forall|x: int| 0 <= x < m.len() ==> (#[trigger] m[x]) < rows.len()
            &&& forall|x: int, y: int| 0 <= x < y < m.len() ==> #[trigger] m[x] < #[trigger] m[y]
            &&& forall|i: int, j: int|
                0 <= i < rows.len() && 0 <= j < rows[i].len() && contains_seq(
                    #[trigger] rows[i][j],
                    keyword,
                ) ==> m.contains(i as usize)
            &&& forall|i: int|
                0 <= i < rows.len() && keyword.len() == 0 ==> #[trigger] m.contains(i as usize)
            &&& forall|i: usize|
                #![trigger m.contains(i)]
                m.contains(i) && keyword.len() > 0 ==> exists|j: int|
                    0 <= j < rows[i as int].len() && contains_seq(
                        #[trigger] rows[i as int][j],
                        keyword,
                    )
        }),
{
    lemma_matching_rows(rows, keyword, rows.len() as int);
    let m = matching_rows(rows, keyword, rows.len() as int);
    assert forall|i: usize| #![trigger m.contains(i)] m.contains(i) && keyword.len() > 0 implies exists|j: int|
        0 <= j < rows[i as int].len() && contains_seq(#[trigger] rows[i as int][j], keyword) by {
        let w = choose|w: int| 0 <= w < m.len() && m[w] == i;
        assert(m[w] < rows.len());
        assert(row_matches(rows[i as int], keyword));
    }
    assert forall|i: int, j: int|
        0 <= i < rows.len() && 0 <= j < rows[i].len() && contains_seq(
            #[trigger] rows[i][j],
            keyword,
        ) implies m.contains(i as usize) by {
        assert(row_matches(rows[i], keyword));
        assert(m.contains(i as usize) <==> (keyword.len() == 0 || row_matches(
            rows[(i as usize) as int],
            keyword,
        )));
    }
    assert forall|i: int| 0 <= i < rows.len() && keyword.len() == 0 implies #[trigger] m.contains(
        i as usize,
    ) by {
        assert(m.contains(i as usize) <==> (keyword.len() == 0 || row_matches(
            rows[(i as usize) as int],
            keyword,
        )));
    }
}

fn row_matches_exec(row: &Vec<String>, keyword: &str) -> (res: bool)
    ensures
        res == row_matches(Seq::new(row@.len(), |j: int| row@[j]@), keyword@),
{
    let ghost rv = Seq::new(row@.len(), |j: int| row@[j]@);
    let mut j: usize = 0;
    while j < row.len()
        invariant
            j <= row.len(),
            rv == Seq::new(row@.len(), |j: int| row@[j]@),
            forall|k: int| 0 <= k < j ==> !contains_seq(#[trigger] rv[k], keyword@),
        decreases row.len() - j,
    {
        if contains_str(row[j].as_str(), keyword) {
            assert(rv[j as int] == row@[j as int]@);
            return true;
        }
        j += 1;
    }
    false
}

/// Indices of the rows (cells given as lower-cased display texts) that
/// contain the lower-cased keyword in some cell; every row when the keyword
/// is empty.
pub fn filter_rows_lowered(rows_lower: &Vec<Vec<String>>, keyword_lower: &str) -> (res: Vec<usize>)
    ensures
        res@ == matching_rows(table_view(rows_lower@), keyword_lower@, rows_lower@.len() as int),
{
    let ghost tv = table_view(rows_lower@);
    let mut res: Vec<usize> = Vec::new();
    let empty = chars_of(keyword_lower).len() == 0;
    let mut i: usize = 0;
    while i < rows_lower.len()
        invariant
            i <= rows_lower.len(),
            tv == table_view(rows_lower@),
            empty == (keyword_lower@.len() == 0),
            res@ == matching_rows(tv, keyword_lower@, i as int),
        decreases rows_lower.len() - i,
    {
        let m = if empty {
            true
        } else {
            row_matches_exec(&rows_lower[i], keyword_lower)
        };
        proof {
            assert(tv[i as int] =~= Seq::new(rows_lower@[i as int]@.len(), |j: int| rows_lower@[i as int]@[j]@));
        }
        if m {
            res.push(i);
        }
        i += 1;
    }
    res
}

/// Indices of the rows (cells given as display texts) that contain the
/// keyword in some cell, both compared in lower case; every row when the
/// lower-cased keyword is empty.
pub fn filter_rows(rows: &Vec<Vec<String>>, keyword: &str) -> (res: Vec<usize>)
    ensures
        res@ == matching_rows(table_lowered(rows@), spec_to_lowercase(keyword@), rows@.len() as int),
{
    let mut lowered: Vec<Vec<String>> = Vec::new();
    let mut i: usize = 0;
    while i < rows.len()
        invariant
            i <= rows.len(),
            lowered@.len() == i,
            forall|a: int|
                0 <= a < i ==> (#[trigger] lowered@[a])@.len() == rows@[a]@.len() && forall|b: int|
                    0 <= b < rows@[a]@.len() ==> lowered@[a]@[b]@ == spec_to_lowercase(
                        rows@[a]@[b]@,
                    ),
        decreases rows.len() - i,
    {
        let row = &rows[i];
        let mut lr: Vec<String> = Vec::new();
        let mut j: usize = 0;
        while j < row.len()
            invariant
                j <= row.len(),
                lr@.len() == j,
                forall|b: int| 0 <= b < j ==> (#[trigger] lr@[b])@ == spec_to_lowercase(row@[b]@),
            decreases row.len() - j,
        {
            lr.push(to_lowercase(row[j].as_str()));
            j += 1;
        }
        lowered.push(lr);
        i += 1;
    }
    let kw = to_lowercase(keyword);
    let res = filter_rows_lowered(&lowered, kw.as_str());
    proof {
        assert(table_view(lowered@) =~= table_lowered(rows@)) by {
            assert forall|a: int| 0 <= a < rows@.len() implies #[trigger] table_view(lowered@)[a]
                =~= table_lowered(rows@)[a] by {
                assert(lowered@[a]@.len() == rows@[a]@.len());
            }
        }
    }
    res
}


// ---------------------------------------------------------------------------
// Column sorting
// ---------------------------------------------------------------------------

/// Direction of a column sort.
#[derive(Debug, Clone, Copy, PartialEq, Eq, Structural)]
pub enum SortDirection {
    Ascending,
    Descending,
}

/// Sort state after clicking the header of column `col`: the sorted column
/// cycles ascending, descending, unsorted; another column starts ascending.
pub open spec fn sort_after_click(
    sort_col: Option<usize>,
    sort_dir: Option<SortDirection>,
    col: usize,
) -> (Option<usize>, Option<SortDirection>) {
    if sort_col == Some(col) {
        match sort_dir {
            None => (sort_col, Some(SortDirection::Ascending)),
            Some(SortDirection::Ascending) => (sort_col, Some(SortDirection::Descending)),
            Some(SortDirection::Descending) => (None, None),
        }
    } else {
        (Some(col), Some(SortDirection::Ascending))
    }
}

/// The sort state after clicking the header of column `col`.
pub fn click_sort_header(sort_col: Option<usize>, sort_dir: Option<SortDirection>, col: usize) -> (res:
    (Option<usize>, Option<SortDirection>))
    ensures
        res == sort_after_click(sort_col, sort_dir, col),
{
    let same = match sort_col {
        Some(c) => c == col,
        None => false,
    };
    if same {
        let dir = match sort_dir {
            None => Some(SortDirection::Ascending),
            Some(SortDirection::Ascending) => Some(SortDirection::Descending),
            Some(SortDirection::Descending) => None,
        };
        if dir.is_none() {
            (None, None)
        } else {
            (sort_col, dir)
        }
    } else {
        (Some(col), Some(SortDirection::Ascending))
    }
}

/// Three clicks on the header of a column that is not sorted sort it
/// ascending, then descending, then leave the grid unsorted.
pub proof fn law_sort_click_cycle(sort_col: Option<usize>, sort_dir: Option<SortDirection>, col: usize)
    requires
        sort_col != Some(col),
    ensures
        sort_after_click(sort_col, sort_dir, col) == (Some(col), Some(SortDirection::Ascending)),
        sort_after_click(Some(col), Some(SortDirection::Ascending), col) == (
            Some(col),
            Some(SortDirection::Descending),
        ),
        sort_after_click(Some(col), Some(SortDirection::Descending), col) == (
            None::<usize>,
            None::<SortDirection>,
        ),
{
}


/// Relative order of two cells.
#[derive(Debug, Clone, Copy, PartialEq, Eq, Structural)]
pub enum CellOrder {
    Less,
    Equal,
    Greater,
}

/// The opposite order.
pub open spec fn reversed(o: CellOrder) -> CellOrder {
    match o {
        CellOrder::Less => CellOrder::Greater,
        CellOrder::Equal => CellOrder::Equal,
        CellOrder::Greater => CellOrder::Less,
    }
}

/// Order of two numbers.
pub open spec fn int_order(a: int, b: int) -> CellOrder {
    if a < b {
        CellOrder::Less
    } else if a > b {
        CellOrder::Greater
    } else {
        CellOrder::Equal
    }
}

/// Lexicographic order of two texts by code point (the order in which
/// `str` values compare, since UTF-8 keeps code-point order).
pub open spec fn text_order(a: Seq<char>, b: Seq<char>) -> CellOrder
    decreases a.len(),
{
    if a.len() == 0 {
        if b.len() == 0 {
            CellOrder::Equal
        } else {
            CellOrder::Less
        }
    } else if b.len() == 0 {
        CellOrder::Greater
    } else if (a[0] as u32) != (b[0] as u32) {
        int_order((a[0] as u32) as int, (b[0] as u32) as int)
    } else {
        text_order(a.drop_first(), b.drop_first())
    }
}

/// Ascending order of two cells, given the display texts `da` and `db`
/// used for values of different kinds: `NULL` after everything, booleans
/// (false first), integers, strings case-insensitively, date-times as text,
/// other pairs by their lower-cased display texts. `None` when a
/// floating-point value is involved with a number.
pub open spec fn cell_order(a: CellValue, b: CellValue, da: Seq<char>, db: Seq<char>) -> Option<
    CellOrder,
> {
    match (a, b) {
        (CellValue::Null, CellValue::Null) => Some(CellOrder::Equal),
        (CellValue::Null, _) => Some(CellOrder::Greater),
        (_, CellValue::Null) => Some(CellOrder::Less),
        (CellValue::Bool(x), CellValue::Bool(y)) => Some(
            int_order(
                if x {
                    1
                } else {
                    0
                },
                if y {
                    1
                } else {
                    0
                },
            ),
        ),
        (CellValue::Int(x), CellValue::Int(y)) => Some(int_order(x as int, y as int)),
        (CellValue::Float(_), CellValue::Float(_)) => None,
        (CellValue::Int(_), CellValue::Float(_)) => None,
        (CellValue::Float(_), CellValue::Int(_)) => None,
        (CellValue::Text(x), CellValue::Text(y)) => Some(
            text_order(spec_to_lowercase(x), spec_to_lowercase(y)),
        ),
        (CellValue::DateTime(x), CellValue::DateTime(y)) => Some(text_order(x, y)),
        _ => Some(text_order(spec_to_lowercase(da), spec_to_lowercase(db))),
    }
}

/// `o` in the sort direction.
pub open spec fn directed(o: CellOrder, dir: SortDirection) -> CellOrder {
    match dir {
        SortDirection::Ascending => o,
        SortDirection::Descending => reversed(o),
    }
}

proof fn lemma_int_order_swap(a: int, b: int)
    ensures
        int_order(b, a) == reversed(int_order(a, b)),
{
}

proof fn lemma_text_order_swap(a: Seq<char>, b: Seq<char>)
    ensures
        text_order(b, a) == reversed(text_order(a, b)),
    decreases a.len(),
{
    if a.len() > 0 && b.len() > 0 && (a[0] as u32) == (b[0] as u32) {
        lemma_text_order_swap(a.drop_first(), b.drop_first());
    }
}

/// Swapping two cells reverses their order (given each with its own display
/// text), in either direction; a descending sort orders every pair the
/// opposite way of an ascending one. The pairs left to floating-point
/// comparison are left so either way round.
pub proof fn law_cell_order_swap(
    a: CellValue,
    b: CellValue,
    da: Seq<char>,
    db: Seq<char>,
    dir: SortDirection,
)
    ensures
        match (cell_order(a, b, da, db), cell_order(b, a, db, da)) {
            (Some(x), Some(y)) => directed(y, dir) == reversed(directed(x, dir)),
            (None, None) => true,
            _ => false,
        },
        forall|o: CellOrder|
            #[trigger] directed(o, SortDirection::Descending) == reversed(
                directed(o, SortDirection::Ascending),
            ),
{
    lemma_text_order_swap(spec_to_lowercase(da), spec_to_lowercase(db));
    match (a, b) {
        (CellValue::Bool(x), CellValue::Bool(y)) => {
            lemma_int_order_swap(
                if x {
                    1
                } else {
                    0
                },
                if y {
                    1
                } else {
                    0
                },
            );
        },
        (CellValue::Int(x), CellValue::Int(y)) => {
            lemma_int_order_swap(x as int, y as int);
        },
        (CellValue::Text(x), CellValue::Text(y)) => {
            lemma_text_order_swap(spec_to_lowercase(x), spec_to_lowercase(y));
        },
        (CellValue::DateTime(x), CellValue::DateTime(y)) => {
            lemma_text_order_swap(x, y);
        },
        _ => {},
    }
}

/// Texts compare lexicographically by code point: past a common first part
/// of length `k`, the first differing character decides, and a text that
/// runs out first (a proper prefix of the other) orders first; equal texts
/// are equal.
pub proof fn law_text_order_lexicographic(a: Seq<char>, b: Seq<char>, k: int)
    requires
        0 <= k <= a.len(),
        k <= b.len(),
        a.take(k) == b.take(k),
    ensures
        k == a.len() && k == b.len() ==> text_order(a, b) == CellOrder::Equal,
        k == a.len() && k < b.len() ==> text_order(a, b) == CellOrder::Less,
        k < a.len() && k == b.len() ==> text_order(a, b) == CellOrder::Greater,
        k < a.len() && k < b.len() && (a[k] as u32) < (b[k] as u32) ==> text_order(a, b)
            == CellOrder::Less,
        k < a.len() && k < b.len() && (a[k] as u32) > (b[k] as u32) ==> text_order(a, b)
            == CellOrder::Greater,
    decreases k,
{
    if k > 0 {
        assert(a[0] == a.take(k)[0] && b[0] == b.take(k)[0]);
        assert(a.drop_first().take(k - 1) =~= a.take(k).drop_first());
        assert(b.drop_first().take(k - 1) =~= b.take(k).drop_first());
        law_text_order_lexicographic(a.drop_first(), b.drop_first(), k - 1);
        if k < a.len() {
            assert(a.drop_first()[k - 1] == a[k]);
        }
        if k < b.len() {
            assert(b.drop_first()[k - 1] == b[k]);
        }
    }
}

/// A text orders before every longer text that starts with it.
pub proof fn law_text_order_prefix_first(a: Seq<char>, s: Seq<char>)
    requires
        s.len() > 0,
    ensures
        text_order(a, a + s) == CellOrder::Less,
        text_order(a + s, a) == CellOrder::Greater,
        text_order(a, a) == CellOrder::Equal,
{
    let n = a.len() as int;
    assert((a + s).take(n) =~= a.take(n));
    law_text_order_lexicographic(a, a + s, n);
    law_text_order_lexicographic(a + s, a, n);
    law_text_order_lexicographic(a, a, n);
}

/// In an ascending sort, `NULL` comes after every other value and equals
/// `NULL`; integers come in increasing order; `false` comes before `true`;
/// a date-time that is a proper prefix of another comes first.
pub proof fn law_cell_order_ascending(a: CellValue, x: i64, y: i64, d: Seq<char>, s: Seq<char>)
    requires
        s.len() > 0,
    ensures
        a !is Null ==> cell_order(CellValue::Null, a, d, d) == Some(CellOrder::Greater)
            && cell_order(a, CellValue::Null, d, d) == Some(CellOrder::Less),
        cell_order(CellValue::Null, CellValue::Null, d, d) == Some(CellOrder::Equal),
        x < y ==> cell_order(CellValue::Int(x), CellValue::Int(y), d, d) == Some(CellOrder::Less),
        x > y ==> cell_order(CellValue::Int(x), CellValue::Int(y), d, d) == Some(
            CellOrder::Greater,
        ),
        cell_order(CellValue::Int(x), CellValue::Int(x), d, d) == Some(CellOrder::Equal),
        cell_order(CellValue::Bool(false), CellValue::Bool(true), d, d) == Some(CellOrder::Less),
        cell_order(CellValue::DateTime(d), CellValue::DateTime(d + s), d, d) == Some(
            CellOrder::Less,
        ),
{
    law_text_order_prefix_first(d, s);
}

fn text_order_exec(a: &str, b: &str) -> (res: CellOrder)
    ensures
        res == text_order(a@, b@),
{
    let av = chars_of(a);
    let bv = chars_of(b);
    let mut i: usize = 0;
    assert(a@.skip(0) =~= a@ && b@.skip(0) =~= b@);
    while i < av.len() && i < bv.len()
        invariant
            av@ == a@,
            bv@ == b@,
            i <= av.len(),
            i <= bv.len(),
            text_order(a@, b@) == text_order(a@.skip(i as int), b@.skip(i as int)),
        decreases av.len() - i,
    {
        let x = av[i] as u32;
        let y = bv[i] as u32;
        assert(a@.skip(i as int)[0] == av[i as int] && b@.skip(i as int)[0] == bv[i as int]);
        if x != y {
            return if x < y {
                CellOrder::Less
            } else {
                CellOrder::Greater
            };
        }
        assert(a@.skip(i as int).drop_first() =~= a@.skip(i + 1));
        assert(b@.skip(i as int).drop_first() =~= b@.skip(i + 1));
        i += 1;
    }
    if i < av.len() {
        CellOrder::Greater
    } else if i < bv.len() {
        CellOrder::Less
    } else {
        CellOrder::Equal
    }
}

fn int_order_exec(a: i64, b: i64) -> (res: CellOrder)
    ensures
        res == int_order(a as int, b as int),
{
    if a < b {
        CellOrder::Less
    } else if a > b {
        CellOrder::Greater
    } else {
        CellOrder::Equal
    }
}

/// Compares two cells for a column sort in direction `dir`, given their
/// display texts for values of different kinds. `None` when a
/// floating-point value is compared with a number, which is left to the
/// caller.
pub fn compare_cells(
    a: &QueryValue,
    b: &QueryValue,
    display_a: &str,
    display_b: &str,
    dir: SortDirection,
) -> (res: Option<CellOrder>)
    ensures
        res == match cell_order(a@, b@, display_a@, display_b@) {
            Some(o) => Some(directed(o, dir)),
            None => None,
        },
{
    let o = match (a, b) {
        (QueryValue::Null, QueryValue::Null) => CellOrder::Equal,
        (QueryValue::Null, _) => CellOrder::Greater,
        (_, QueryValue::Null) => CellOrder::Less,
        (QueryValue::Bool(x), QueryValue::Bool(y)) => int_order_exec(
            if *x {
                1
            } else {
                0
            },
            if *y {
                1
            } else {
                0
            },
        ),
        (QueryValue::Int(x), QueryValue::Int(y)) => int_order_exec(*x, *y),
        (QueryValue::Float(_), QueryValue::Float(_)) => {
            return None;
        },
        (QueryValue::Int(_), QueryValue::Float(_)) => {
            return None;
        },
        (QueryValue::Float(_), QueryValue::Int(_)) => {
            return None;
        },
        (QueryValue::String(x), QueryValue::String(y)) => {
            let lx = to_lowercase(x.as_str());
            let ly = to_lowercase(y.as_str());
            text_order_exec(lx.as_str(), ly.as_str())
        },
        (QueryValue::DateTime(x), QueryValue::DateTime(y)) => text_order_exec(x.as_str(), y.as_str()),
        _ => {
            let lx = to_lowercase(display_a);
            let ly = to_lowercase(display_b);
            text_order_exec(lx.as_str(), ly.as_str())
        },
    };
    Some(
        match dir {
            SortDirection::Ascending => o,
            SortDirection::Descending => match o {
                CellOrder::Less => CellOrder::Greater,
                CellOrder::Equal => CellOrder::Equal,
                CellOrder::Greater => CellOrder::Less,
            },
        },
    )
}

// ---------------------------------------------------------------------------
// One page of the grid
// ---------------------------------------------------------------------------

/// Lays out one page of the grid from the matching rows in display order:
/// the page window, then the displayed sequence of that page's rows with
/// the staged rows placed among them.
pub fn layout_page(
    row_indices: &Vec<usize>,
    page_size: usize,
    current_page: usize,
    inserted_rows: &[RowInsertion],
) -> (res: (PageWindow, Vec<GridDisplayItem>))
    requires
        page_size > 0,
        row_indices@.len() + page_size - 1 <= usize::MAX,
    ensures
        (res.0.total_pages as nat, res.0.current_page as nat, res.0.start as nat, res.0.end as nat)
            == page_window_spec(row_indices@.len(), page_size as nat, current_page as nat),
        res.1@ == grid_display_items(
            row_indices@.subrange(res.0.start as int, res.0.end as int),
            res.0.current_page,
            res.0.total_pages,
            inserted_rows@,
        ),
{
    let w = page_window(row_indices.len(), page_size, current_page);
    proof {
        law_page_window_bounds(row_indices@.len(), page_size as nat, current_page as nat);
    }
    let mut slice: Vec<usize> = Vec::new();
    let mut k: usize = w.start;
    while k < w.end
        invariant
            w.start <= k <= w.end,
            w.end <= row_indices.len(),
            slice@ == row_indices@.subrange(w.start as int, k as int),
        decreases w.end - k,
    {
        slice.push(row_indices[k]);
        k += 1;
        assert(slice@ =~= row_indices@.subrange(w.start as int, k as int));
    }
    let items = compute_grid_display_items(slice.as_slice(), w.current_page, w.total_pages, inserted_rows);
    (w, items)
}


/// The statement that loads a table into the grid: its first `limit` rows
/// (`qualified` is the table's name as the dialect writes it).
pub fn table_preview_query(qualified: &str, limit: usize) -> (res: String)
    ensures
        res@ == "SELECT * FROM "@ + qualified@ + " LIMIT "@ + decimal(limit as nat),
{
    let mut q = String::new();
    append_str(&mut q, "SELECT * FROM ");
    append_str(&mut q, qualified);
    append_str(&mut q, " LIMIT ");
    push_decimal(&mut q, limit);
    q
}

// ---------------------------------------------------------------------------
// Toolbar labels
// ---------------------------------------------------------------------------

/// `n` followed by a noun, pluralised with `s` unless `n` is one.
pub open spec fn counted(n: nat, noun: Seq<char>) -> Seq<char> {
    decimal(n) + " "@ + noun + if n != 1 {
        "s"@
    } else {
        Seq::<char>::empty()
    }
}

/// The non-empty parts, joined with `", "`.
pub open spec fn join_parts(parts: Seq<Seq<char>>) -> Seq<char>
    decreases parts.len(),
{
    if parts.len() == 0 {
        Seq::empty()
    } else if parts.len() == 1 {
        parts[0]
    } else {
        join_parts(parts.drop_last()) + ", "@ + parts.last()
    }
}

/// Parts of the staged-changes summary: new rows, updates and deletions,
/// each only when there is at least one.
pub open spec fn staged_parts(inserted: nat, updates: nat, deleted: nat) -> Seq<Seq<char>> {
    let a = if inserted > 0 {
        seq![counted(inserted, "new row"@)]
    } else {
        Seq::empty()
    };
    let b = if updates > 0 {
        a.push(counted(updates, "update"@))
    } else {
        a
    };
    if deleted > 0 {
        b.push(counted(deleted, "deletion"@))
    } else {
        b
    }
}

fn push_counted(s: &mut String, n: usize, noun: &str)
    ensures
        final(s)@ == old(s)@ + counted(n as nat, noun@),
{
    push_decimal(s, n);
    append_str(s, " ");
    append_str(s, noun);
    if n != 1 {
        append_str(s, "s");
    }
    proof {
        if n == 1 {
            assert(final(s)@ =~= old(s)@ + counted(n as nat, noun@));
        }
    }
}

/// Summary of the staged changes, for example `2 new rows, 1 update`.
pub fn staged_summary(inserted: usize, updates: usize, deleted: usize) -> (res: String)
    ensures
        res@ == join_parts(staged_parts(inserted as nat, updates as nat, deleted as nat)),
{
    let mut s = String::new();
    let mut any = false;
    let ghost mut parts: Seq<Seq<char>> = Seq::empty();
    if inserted > 0 {
        push_counted(&mut s, inserted, "new row");
        any = true;
        proof {
            parts = seq![counted(inserted as nat, "new row"@)];
            assert(s@ =~= join_parts(parts));
        }
    }
    if updates > 0 {
        if any {
            append_str(&mut s, ", ");
        }
        push_counted(&mut s, updates, "update");
        proof {
            let prev = parts;
            parts = parts.push(counted(updates as nat, "update"@));
            assert(parts.drop_last() =~= prev);
            if !any {
                assert(s@ =~= join_parts(parts));
            } else {
                assert(s@ =~= join_parts(parts));
            }
        }
        any = true;
    }
    if deleted > 0 {
        if any {
            append_str(&mut s, ", ");
        }
        push_counted(&mut s, deleted, "deletion");
        proof {
            let prev = parts;
            parts = parts.push(counted(deleted as nat, "deletion"@));
            assert(parts.drop_last() =~= prev);
            assert(s@ =~= join_parts(parts));
        }
    }
    proof {
        assert(parts =~= staged_parts(inserted as nat, updates as nat, deleted as nat));
    }
    s
}

/// Row-count label of the grid toolbar: `<total> row(s)` without a filter,
/// `<matching> of <total> row(s)` with one.
pub fn row_count_label(filtered: bool, matching: usize, total: usize) -> (res: String)
    ensures
        !filtered ==> res@ == decimal(total as nat) + " row(s)"@,
        filtered ==> res@ == decimal(matching as nat) + " of "@ + decimal(total as nat)
            + " row(s)"@,
{
    let mut s = String::new();
    if filtered {
        push_decimal(&mut s, matching);
        append_str(&mut s, " of ");
    }
    push_decimal(&mut s, total);
    append_str(&mut s, " row(s)");
    s
}

} // verus!
