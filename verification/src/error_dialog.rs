//! Connection-error dialog model: the failed connection's description and
//! the wrapping of long error text so that unbroken tokens never overflow.

use vstd::prelude::*;
use crate::text::{
    append_str, chars_of, decimal, is_whitespace, is_ws, push_char, push_decimal, string_of,
};

verus! {

/// Supported database engines.
#[derive(Debug, Clone, Copy, PartialEq, Eq, Structural)]
pub enum DatabaseType {
    Sqlite,
    Mysql,
    MariaDB,
    TiDB,
    OceanBase,
    StarRocks,
    Doris,
    PolarDB,
    TDSQL,
    SelectDB,
    Databend,
    GoldenDB,
    SingleStore,
    ManticoreSearch,
    CloudSQLMySQL,
    Postgres,
    CockroachDB,
    TimescaleDB,
    Redshift,
    YugabyteDB,
    OpenGauss,
    Kingbase,
    GaussDB,
    Greenplum,
    QuestDB,
    Vastbase,
    YashanDB,
    HighGo,
    UXDB,
    GBase8c,
    EnterpriseDB,
    CrateDB,
    Materialize,
    AlloyDB,
    CloudSQLPG,
    FujitsuPG,
}

/// Wire-protocol family of an engine.
#[derive(Debug, Clone, Copy, PartialEq, Eq, Structural)]
pub enum DatabaseFamily {
    Sqlite,
    MySql,
    Postgres,
}

/// Engines that speak the MySQL wire protocol.
pub open spec fn is_mysql_engine(t: DatabaseType) -> bool {
    ||| t == DatabaseType::Mysql
    ||| t == DatabaseType::MariaDB
    ||| t == DatabaseType::TiDB
    ||| t == DatabaseType::OceanBase
    ||| t == DatabaseType::StarRocks
    ||| t == DatabaseType::Doris
    ||| t == DatabaseType::PolarDB
    ||| t == DatabaseType::TDSQL
    ||| t == DatabaseType::SelectDB
    ||| t == DatabaseType::Databend
    ||| t == DatabaseType::GoldenDB
    ||| t == DatabaseType::SingleStore
    ||| t == DatabaseType::ManticoreSearch
    ||| t == DatabaseType::CloudSQLMySQL
}

impl DatabaseType {
    /// The protocol family: SQLite is embedded, the MySQL-compatible engines
    /// form one family and every other engine speaks the PostgreSQL protocol.
    pub fn family(&self) -> (res: DatabaseFamily)
        ensures
            *self == DatabaseType::Sqlite ==> res == DatabaseFamily::Sqlite,
            is_mysql_engine(*self) ==> res == DatabaseFamily::MySql,
            *self != DatabaseType::Sqlite && !is_mysql_engine(*self) ==> res
                == DatabaseFamily::Postgres,
    {
        match self {
            DatabaseType::Sqlite => DatabaseFamily::Sqlite,
            DatabaseType::Mysql | DatabaseType::MariaDB | DatabaseType::TiDB
            | DatabaseType::OceanBase | DatabaseType::StarRocks | DatabaseType::Doris
            | DatabaseType::PolarDB | DatabaseType::TDSQL | DatabaseType::SelectDB
            | DatabaseType::Databend | DatabaseType::GoldenDB | DatabaseType::SingleStore
            | DatabaseType::ManticoreSearch | DatabaseType::CloudSQLMySQL => DatabaseFamily::MySql,
            _ => DatabaseFamily::Postgres,
        }
    }

    /// Whether the engine keeps its database in a local file (SQLite) rather
    /// than behind a server address.
    pub fn is_file_based(&self) -> (res: bool)
        ensures
            res == (*self == DatabaseType::Sqlite),
    {
        match self {
            DatabaseType::Sqlite => true,
            _ => false,
        }
    }
}

/// State describing a failed database connection attempt.
#[derive(Debug, Clone, PartialEq, Eq)]
pub struct ConnectionErrorInfo {
    pub connection_id: String,
    pub connection_name: String,
    pub database_type: DatabaseType,
    pub host: String,
    pub port: u16,
    pub database: String,
    pub error_message: String,
}

/// The target shown on the error dialog's badge: for a file database its
/// path (`:memory:` when none is set); for a server `host:port`, followed by
/// ` / database` when a database is set.
pub open spec fn target_summary_text(info: ConnectionErrorInfo) -> Seq<char> {
    if info.database_type == DatabaseType::Sqlite {
        if info.database@.len() == 0 {
            ":memory:"@
        } else {
            info.database@
        }
    } else {
        let base = info.host@ + ":"@ + decimal(info.port as nat);
        if info.database@.len() == 0 {
            base
        } else {
            base + " / "@ + info.database@
        }
    }
}

impl ConnectionErrorInfo {
    /// The target shown on the error dialog's badge.
    pub fn target_summary(&self) -> (res: String)
        ensures
            res@ == target_summary_text(*self),
    {
        let db_empty = chars_of(self.database.as_str()).len() == 0;
        if self.database_type.is_file_based() {
            if db_empty {
                string_of(":memory:")
            } else {
                string_of(self.database.as_str())
            }
        } else {
            let mut s = string_of(self.host.as_str());
            append_str(&mut s, ":");
            push_decimal(&mut s, self.port as usize);
            if !db_empty {
                append_str(&mut s, " / ");
                append_str(&mut s, self.database.as_str());
            }
            s
        }
    }
}

// ---------------------------------------------------------------------------
// Lines of a text
// ---------------------------------------------------------------------------

/// The pieces of `s` between `'\n'` characters (one more than there are
/// newlines).
pub open spec fn split_nl(s: Seq<char>) -> Seq<Seq<char>>
    decreases s.len(),
{
    if s.len() == 0 {
        seq![Seq::<char>::empty()]
    } else {
        let p = split_nl(s.drop_last());
        if s.last() == '\n' {
            p.push(Seq::empty())
        } else {
            p.update(p.len() - 1, p.last().push(s.last()))
        }
    }
}

/// A piece that ended in `"\r\n"` loses its `'\r'`.
pub open spec fn strip_cr(p: Seq<char>) -> Seq<char> {
    if p.len() > 0 && p.last() == '\r' {
        p.drop_last()
    } else {
        p
    }
}

/// The lines of `s` as `str::lines` yields them: split at `"\n"` or
/// `"\r\n"`, the line terminators removed, and no final empty line after a
/// trailing terminator (so an empty text has no lines).
pub open spec fn lines_of(s: Seq<char>) -> Seq<Seq<char>> {
    let pieces = split_nl(s);
    let init = pieces.drop_last().map_values(|p: Seq<char>| strip_cr(p));
    if pieces.last().len() == 0 {
        init
    } else {
        init.push(pieces.last())
    }
}

/// The lines joined with `'\n'` between consecutive lines.
pub open spec fn join_lines(ls: Seq<Seq<char>>) -> Seq<char>
    decreases ls.len(),
{
    if ls.len() == 0 {
        Seq::empty()
    } else if ls.len() == 1 {
        ls[0]
    } else {
        join_lines(ls.drop_last()) + seq!['\n'] + ls.last()
    }
}

// ---------------------------------------------------------------------------
// Wrapping of one line
// ---------------------------------------------------------------------------

/// Number of non-whitespace characters directly before position `i`.
pub open spec fn run_len(line: Seq<char>, i: int) -> nat
    decreases i,
{
    if i <= 0 {
        0
    } else if is_ws(line[i - 1]) {
        0
    } else {
        run_len(line, i - 1) + 1
    }
}

/// A line break goes before the non-whitespace character at `i` when it
/// would extend an unbroken run that already holds a multiple of `max`
/// characters (before every such character when `max` is 0).
pub open spec fn breaks_before(line: Seq<char>, max: nat, i: int) -> bool {
    &&& !is_ws(line[i])
    &&& (max == 0 || (run_len(line, i) > 0 && run_len(line, i) % max == 0))
}

/// The first `n` characters of `line`, with the breaks inserted.
pub open spec fn wrap_prefix(line: Seq<char>, max: nat, n: int) -> Seq<char>
    decreases n,
{
    if n <= 0 {
        Seq::empty()
    } else {
        let prev = wrap_prefix(line, max, n - 1);
        if breaks_before(line, max, n - 1) {
            prev.push('\n').push(line[n - 1])
        } else {
            prev.push(line[n - 1])
        }
    }
}

/// A line with the breaks inserted.
pub open spec fn wrap_line(line: Seq<char>, max: nat) -> Seq<char> {
    wrap_prefix(line, max, line.len() as int)
}

/// The wrapped text: every line wrapped, lines joined with `'\n'`.
pub open spec fn wrapped_text(s: Seq<char>, max: nat) -> Seq<char> {
    join_lines(lines_of(s).map_values(|l: Seq<char>| wrap_line(l, max)))
}

/// Length of the unbroken counter kept while scanning a run of `r`
/// non-whitespace characters.
pub open spec fn run_counter(r: nat, max: nat) -> nat {
    if r == 0 {
        0
    } else if max == 0 {
        1
    } else {
        (((r - 1) as int % max as int) + 1) as nat
    }
}

proof fn lemma_counter_step(r: nat, m: nat)
    requires
        m > 0,
        r > 0,
    ensures
        (run_counter(r, m) >= m) == (r % m == 0),
        r % m == 0 ==> run_counter(r + 1, m) == 1,
        r % m != 0 ==> run_counter(r + 1, m) == run_counter(r, m) + 1,
        run_counter(r, m) <= m,
{
    let x = (r - 1) as int;
    let mi = m as int;
    vstd::arithmetic::div_mod::lemma_fundamental_div_mod(x, mi);
    let q = x / mi;
    let t = x % mi;
    assert(0 <= t < mi);
    assert(mi * q == q * mi) by (nonlinear_arith);
    if t == mi - 1 {
        assert(r as int == (q + 1) * mi + 0) by (nonlinear_arith)
            requires
                x == q * mi + t,
                t == mi - 1,
                r as int == x + 1,
        ;
        vstd::arithmetic::div_mod::lemma_fundamental_div_mod_converse_mod(r as int, mi, q + 1, 0);
    } else {
        assert(r as int == q * mi + (t + 1)) by (nonlinear_arith)
            requires
                x == q * mi + t,
                r as int == x + 1,
        ;
        vstd::arithmetic::div_mod::lemma_fundamental_div_mod_converse_mod(r as int, mi, q, t + 1);
    }
}

// ---------------------------------------------------------------------------
// Implementation
// ---------------------------------------------------------------------------

/// The character views of a sequence of character vectors.
pub open spec fn views(v: Seq<Vec<char>>) -> Seq<Seq<char>> {
    Seq::new(v.len(), |i: int| v[i]@)
}

proof fn lemma_split_nonempty(s: Seq<char>)
    ensures
        split_nl(s).len() >= 1,
    decreases s.len(),
{
    if s.len() > 0 {
        lemma_split_nonempty(s.drop_last());
    }
}

fn split_lines(chars: &Vec<char>) -> (res: Vec<Vec<char>>)
    ensures
        views(res@) == lines_of(chars@),
{
    let mut done: Vec<Vec<char>> = Vec::new();
    let mut cur: Vec<char> = Vec::new();
    let n = chars.len();
    let mut i: usize = 0;
    proof {
        assert(chars@.take(0) =~= Seq::<char>::empty());
        assert(views(done@) =~= split_nl(chars@.take(0)).drop_last().map_values(
            |p: Seq<char>| strip_cr(p),
        ));
    }
    while i < n
        invariant
            n == chars.len(),
            i <= n,
            split_nl(chars@.take(i as int)).len() >= 1,
            views(done@) == split_nl(chars@.take(i as int)).drop_last().map_values(
                |p: Seq<char>| strip_cr(p),
            ),
            cur@ == split_nl(chars@.take(i as int)).last(),
        decreases n - i,
    {
        let c = chars[i];
        let ghost prev = split_nl(chars@.take(i as int));
        proof {
            assert(chars@.take(i + 1).drop_last() =~= chars@.take(i as int));
            assert(chars@.take(i + 1).last() == c);
            lemma_split_nonempty(chars@.take(i + 1));
        }
        if c == '\n' {
            let k = cur.len();
            if k > 0 && cur[k - 1] == '\r' {
                cur.pop();
            }
            let ghost d0 = done@;
            done.push(cur);
            cur = Vec::new();
            proof {
                let nxt = split_nl(chars@.take(i + 1));
                assert(nxt == prev.push(Seq::<char>::empty()));
                assert(nxt.drop_last() =~= prev);
                assert(views(done@) =~= views(d0).push(strip_cr(prev.last())));
                assert(prev =~= prev.drop_last().push(prev.last()));
                assert(nxt.drop_last().map_values(|p: Seq<char>| strip_cr(p)) =~= prev.drop_last().map_values(
                    |p: Seq<char>| strip_cr(p),
                ).push(strip_cr(prev.last())));
            }
        } else {
            cur.push(c);
            proof {
                let nxt = split_nl(chars@.take(i + 1));
                assert(nxt == prev.update(prev.len() - 1, prev.last().push(c)));
                assert(nxt.drop_last() =~= prev.drop_last());
            }
        }
        i += 1;
    }
    proof {
        assert(chars@.take(n as int) =~= chars@);
    }
    if cur.len() > 0 {
        let ghost d0 = done@;
        done.push(cur);
        proof {
            assert(views(done@) =~= views(d0).push(split_nl(chars@).last()));
        }
    }
    done
}

/// Number of lines of a text, as `str::lines().count()` gives it.
pub fn line_count(s: &str) -> (res: usize)
    ensures
        res == lines_of(s@).len(),
{
    let cs = chars_of(s);
    let ls = split_lines(&cs);
    assert(views(ls@).len() == ls@.len());
    ls.len()
}

fn wrap_line_into(result: &mut String, line: &Vec<char>, max: usize)
    ensures
        final(result)@ == old(result)@ + wrap_line(line@, max as nat),
{
    let ghost base = result@;
    let mut cur: usize = 0;
    let mut j: usize = 0;
    proof {
        assert(result@ =~= base + wrap_prefix(line@, max as nat, 0));
    }
    while j < line.len()
        invariant
            j <= line.len(),
            result@ == base + wrap_prefix(line@, max as nat, j as int),
            cur == run_counter(run_len(line@, j as int), max as nat),
            max > 0 ==> cur <= max,
            cur <= 1 || cur <= max,
        decreases line.len() - j,
    {
        let ch = line[j];
        let ghost r = run_len(line@, j as int);
        if is_whitespace(ch) {
            push_char(result, ch);
            cur = 0;
            proof {
                assert(result@ =~= base + wrap_prefix(line@, max as nat, j + 1));
            }
        } else {
            proof {
                assert(run_len(line@, j + 1) == r + 1);
                if max > 0 && r > 0 {
                    lemma_counter_step(r, max as nat);
                }
                if max > 0 && r == 0 {
                    assert(0int % (max as int) == 0);
                    assert(run_counter(1, max as nat) == 1);
                }
            }
            if cur >= max {
                push_char(result, '\n');
                cur = 0;
            }
            push_char(result, ch);
            cur += 1;
            proof {
                assert(result@ =~= base + wrap_prefix(line@, max as nat, j + 1));
            }
        }
        j += 1;
    }
}

proof fn lemma_join_step(ls: Seq<Seq<char>>, idx: int)
    requires
        0 <= idx < ls.len(),
    ensures
        join_lines(ls.take(idx + 1)) == if idx == 0 {
            ls[0]
        } else {
            join_lines(ls.take(idx)) + seq!['\n'] + ls[idx]
        },
{
    assert(ls.take(idx + 1).drop_last() =~= ls.take(idx));
    if idx == 0 {
        assert(ls.take(1)[0] == ls[0]);
    }
}

/// Breaks unbroken long tokens (unbroken error strings, URLs, long socket
/// paths) so that they wrap cleanly: every line of the input is kept, and a
/// line break is inserted before a non-whitespace character that would make
/// an unbroken run longer than `max_unbroken_len`.
pub fn wrap_error_text(input: &str, max_unbroken_len: usize) -> (res: String)
    ensures
        res@ == wrapped_text(input@, max_unbroken_len as nat),
{
    let chars = chars_of(input);
    let lines = split_lines(&chars);
    let ghost ls = lines_of(input@);
    let ghost wrapped = ls.map_values(|l: Seq<char>| wrap_line(l, max_unbroken_len as nat));
    let mut result = String::new();
    let mut idx: usize = 0;
    proof {
        assert(wrapped.take(0) =~= Seq::<Seq<char>>::empty());
    }
    while idx < lines.len()
        invariant
            idx <= lines.len(),
            views(lines@) == ls,
            wrapped == ls.map_values(|l: Seq<char>| wrap_line(l, max_unbroken_len as nat)),
            result@ == join_lines(wrapped.take(idx as int)),
        decreases lines.len() - idx,
    {
        proof {
            lemma_join_step(wrapped, idx as int);
            assert(lines@[idx as int]@ == ls[idx as int]);
        }
        if idx > 0 {
            push_char(&mut result, '\n');
        }
        wrap_line_into(&mut result, &lines[idx], max_unbroken_len);
        proof {
            if idx > 0 {
                assert(result@ =~= join_lines(wrapped.take(idx + 1)));
            } else {
                assert(result@ =~= join_lines(wrapped.take(idx + 1)));
            }
        }
        idx += 1;
    }
    proof {
        assert(wrapped.take(lines.len() as int) =~= wrapped);
    }
    result
}


// ---------------------------------------------------------------------------
// Laws of the wrapping
// ---------------------------------------------------------------------------

/// Number of non-whitespace characters at the end of `s`.
pub open spec fn trailing_run(s: Seq<char>) -> nat
    decreases s.len(),
{
    if s.len() == 0 {
        0
    } else if is_ws(s.last()) {
        0
    } else {
        trailing_run(s.drop_last()) + 1
    }
}

/// Characters `i` to `j` of `s` are all non-whitespace.
pub open spec fn non_ws_span(s: Seq<char>, i: int, j: int) -> bool {
    forall|k: int| i <= k <= j ==> !is_ws(#[trigger] s[k])
}

/// No stretch of consecutive non-whitespace characters of `s` is longer
/// than `max`.
pub open spec fn runs_within(s: Seq<char>, max: nat) -> bool {
    forall|i: int, j: int|
        0 <= i <= j < s.len() && #[trigger] non_ws_span(s, i, j) ==> j - i + 1 <= max
}

spec fn ends_within(s: Seq<char>, max: nat) -> bool {
    forall|k: int| 0 <= k < s.len() ==> #[trigger] trailing_run(s.take(k + 1)) <= max
}

proof fn lemma_trailing_after_break(x: Seq<char>, y: Seq<char>)
    requires
        trailing_run(x) == 0,
    ensures
        trailing_run(x + y) == trailing_run(y),
    decreases y.len(),
{
    if y.len() == 0 {
        assert(x + y =~= x);
    } else {
        assert((x + y).drop_last() =~= x + y.drop_last());
        lemma_trailing_after_break(x, y.drop_last());
    }
}

proof fn lemma_trailing_covers(s: Seq<char>, i: int, j: int)
    requires
        0 <= i <= j < s.len(),
        forall|k: int| i <= k <= j ==> !is_ws(#[trigger] s[k]),
    ensures
        trailing_run(s.take(j + 1)) >= j - i + 1,
    decreases j - i,
{
    assert(s.take(j + 1).drop_last() =~= s.take(j));
    assert(s.take(j + 1).last() == s[j]);
    if j > i {
        lemma_trailing_covers(s, i, j - 1);
    }
}

proof fn lemma_ends_within_runs(s: Seq<char>, max: nat)
    requires
        ends_within(s, max),
    ensures
        runs_within(s, max),
{
    assert forall|i: int, j: int|
        0 <= i <= j < s.len() && #[trigger] non_ws_span(s, i, j) implies j - i + 1 <= max by {
        lemma_trailing_covers(s, i, j);
        assert(trailing_run(s.take(j + 1)) <= max);
    }
}

proof fn lemma_push_keeps_prefix(s: Seq<char>, c: char)
    ensures
        forall|k: int| 0 <= k < s.len() ==> #[trigger] s.push(c).take(k + 1) == s.take(k + 1),
        s.push(c).take(s.len() as int + 1) == s.push(c),
        s.push(c).drop_last() == s,
{
    assert forall|k: int| 0 <= k < s.len() implies #[trigger] s.push(c).take(k + 1) == s.take(k + 1) by {
        assert(s.push(c).take(k + 1) =~= s.take(k + 1));
    }
    assert(s.push(c).take(s.len() as int + 1) =~= s.push(c));
    assert(s.push(c).drop_last() =~= s);
}

proof fn lemma_wrap_prefix_runs(line: Seq<char>, max: nat, n: int)
    requires
        max >= 1,
        0 <= n <= line.len(),
    ensures
        trailing_run(wrap_prefix(line, max, n)) == run_counter(run_len(line, n), max),
        run_counter(run_len(line, n), max) <= max,
        ends_within(wrap_prefix(line, max, n), max),
    decreases n,
{
    if n > 0 {
        lemma_wrap_prefix_runs(line, max, n - 1);
        let prev = wrap_prefix(line, max, n - 1);
        let c = line[n - 1];
        let r = run_len(line, n - 1);
        if r > 0 {
            lemma_counter_step(r, max);
        } else {
            assert(0int % (max as int) == 0);
            assert(run_counter(1, max) == 1);
        }
        if !is_ws(c) {
            assert(run_len(line, n) == r + 1);
        }
        lemma_push_keeps_prefix(prev, c);
        if breaks_before(line, max, n - 1) {
            let p1 = prev.push('\n');
            lemma_push_keeps_prefix(prev, '\n');
            lemma_push_keeps_prefix(p1, c);
            assert(trailing_run(p1) == 0);
            assert(trailing_run(p1.push(c)) == 1);
            assert forall|k: int| 0 <= k < p1.push(c).len() implies #[trigger] trailing_run(
                p1.push(c).take(k + 1),
            ) <= max by {
                if k < prev.len() {
                    assert(p1.push(c).take(k + 1) == p1.take(k + 1));
                    assert(p1.take(k + 1) == prev.take(k + 1));
                } else if k == prev.len() {
                    assert(p1.push(c).take(k + 1) == p1.take(k + 1));
                    assert(p1.take(k + 1) == p1);
                }
            }
        } else {
            assert forall|k: int| 0 <= k < prev.push(c).len() implies #[trigger] trailing_run(
                prev.push(c).take(k + 1),
            ) <= max by {
                if k < prev.len() {
                    assert(prev.push(c).take(k + 1) == prev.take(k + 1));
                }
            }
        }
    } else {
        assert(wrap_prefix(line, max, n) =~= Seq::<char>::empty());
    }
}

proof fn lemma_join_ends_within(ls: Seq<Seq<char>>, max: nat)
    requires
        forall|i: int| 0 <= i < ls.len() ==> ends_within(#[trigger] ls[i], max),
    ensures
        ends_within(join_lines(ls), max),
    decreases ls.len(),
{
    if ls.len() == 1 {
        assert(ends_within(ls[0], max));
    } else if ls.len() > 1 {
        let init = ls.drop_last();
        assert forall|i: int| 0 <= i < init.len() implies ends_within(#[trigger] init[i], max) by {
            assert(init[i] == ls[i]);
        }
        lemma_join_ends_within(init, max);
        let j = join_lines(init);
        let x = j + seq!['\n'];
        let last = ls.last();
        assert(ends_within(last, max)) by {
            assert(last == ls[ls.len() - 1]);
        }
        let full = x + last;
        assert(join_lines(ls) == full);
        assert(x.drop_last() =~= j);
        assert(trailing_run(x) == 0);
        assert forall|k: int| 0 <= k < full.len() implies #[trigger] trailing_run(full.take(k + 1))
            <= max by {
            if k < j.len() {
                assert(full.take(k + 1) =~= j.take(k + 1));
            } else if k == j.len() {
                assert(full.take(k + 1) =~= x);
            } else {
                let k2 = k - x.len();
                assert(full.take(k + 1) =~= x + last.take(k2 + 1));
                lemma_trailing_after_break(x, last.take(k2 + 1));
            }
        }
    }
}

/// With a limit of at least one character, no stretch of consecutive
/// non-whitespace characters of the wrapped text is longer than the limit.
pub proof fn law_wrap_bounds_runs(s: Seq<char>, max: nat)
    requires
        max >= 1,
    ensures
        runs_within(wrapped_text(s, max), max),
{
    let ls = lines_of(s).map_values(|l: Seq<char>| wrap_line(l, max));
    assert forall|i: int| 0 <= i < ls.len() implies ends_within(#[trigger] ls[i], max) by {
        let l = lines_of(s)[i];
        lemma_wrap_prefix_runs(l, max, l.len() as int);
    }
    lemma_join_ends_within(ls, max);
    lemma_ends_within_runs(wrapped_text(s, max), max);
}

/// No line of `s` holds a non-whitespace character preceded by `max` or more
/// non-whitespace characters.
pub open spec fn tokens_within(s: Seq<char>, max: nat) -> bool {
    forall|i: int, k: int|
        0 <= i < lines_of(s).len() && 0 <= k < lines_of(s)[i].len() && !is_ws(
            #[trigger] lines_of(s)[i][k],
        ) ==> run_len(lines_of(s)[i], k) < max
}

proof fn lemma_wrap_prefix_unchanged(line: Seq<char>, max: nat, n: int)
    requires
        max >= 1,
        0 <= n <= line.len(),
        forall|k: int| 0 <= k < line.len() && !is_ws(#[trigger] line[k]) ==> run_len(line, k) < max,
    ensures
        wrap_prefix(line, max, n) == line.take(n),
    decreases n,
{
    if n > 0 {
        lemma_wrap_prefix_unchanged(line, max, n - 1);
        if !is_ws(line[n - 1]) {
            let r = run_len(line, n - 1);
            if r > 0 {
                vstd::arithmetic::div_mod::lemma_small_mod(r, max);
            }
        }
        assert(line.take(n) =~= line.take(n - 1).push(line[n - 1]));
    } else {
        assert(line.take(0) =~= Seq::<char>::empty());
    }
}

/// Text whose lines hold no token longer than the limit comes back as its
/// lines joined with `'\n'`: nothing is broken.
pub proof fn law_wrap_short_tokens_unchanged(s: Seq<char>, max: nat)
    requires
        max >= 1,
        tokens_within(s, max),
    ensures
        wrapped_text(s, max) == join_lines(lines_of(s)),
{
    let ls = lines_of(s);
    let ws = ls.map_values(|l: Seq<char>| wrap_line(l, max));
    assert forall|i: int| 0 <= i < ls.len() implies #[trigger] ws[i] == ls[i] by {
        let l = ls[i];
        assert forall|k: int| 0 <= k < l.len() && !is_ws(#[trigger] l[k]) implies run_len(l, k) < max by {
            assert(ls[i][k] == l[k]);
        }
        lemma_wrap_prefix_unchanged(l, max, l.len() as int);
        assert(l.take(l.len() as int) =~= l);
    }
    assert(ws =~= ls);
}

/// `s` holds no carriage return.
pub open spec fn no_cr(s: Seq<char>) -> bool {
    forall|k: int| 0 <= k < s.len() ==> #[trigger] s[k] != '\r'
}

proof fn lemma_split_join(t: Seq<char>)
    ensures
        join_lines(split_nl(t)) == t,
    decreases t.len(),
{
    if t.len() > 0 {
        let t0 = t.drop_last();
        let c = t.last();
        let p = split_nl(t0);
        lemma_split_nonempty(t0);
        lemma_split_join(t0);
        if c == '\n' {
            let q = p.push(Seq::<char>::empty());
            assert(q.drop_last() =~= p);
            assert(join_lines(q) =~= t);
        } else {
            let q = p.update(p.len() - 1, p.last().push(c));
            if p.len() == 1 {
                assert(join_lines(q) =~= t);
            } else {
                assert(q.drop_last() =~= p.drop_last());
                assert(join_lines(q) =~= join_lines(p).push(c));
                assert(join_lines(q) =~= t);
            }
        }
    } else {
        assert(join_lines(split_nl(t)) =~= t);
    }
}

proof fn lemma_split_no_cr(t: Seq<char>)
    requires
        no_cr(t),
    ensures
        forall|i: int| 0 <= i < split_nl(t).len() ==> no_cr(#[trigger] split_nl(t)[i]),
    decreases t.len(),
{
    if t.len() > 0 {
        let t0 = t.drop_last();
        let c = t.last();
        assert(no_cr(t0)) by {
            assert forall|k: int| 0 <= k < t0.len() implies #[trigger] t0[k] != '\r' by {
                assert(t0[k] == t[k]);
            }
        }
        lemma_split_no_cr(t0);
        lemma_split_nonempty(t0);
        let p = split_nl(t0);
        assert(c == t[t.len() - 1]);
        if c != '\n' {
            let x = p.last();
            assert(no_cr(x)) by {
                assert(x == p[p.len() - 1]);
            }
            assert(no_cr(x.push(c))) by {
                assert forall|k: int| 0 <= k < x.push(c).len() implies #[trigger] x.push(c)[k]
                    != '\r' by {
                    if k < x.len() {
                        assert(x.push(c)[k] == x[k]);
                    }
                }
            }
        }
    } else {
        assert(no_cr(split_nl(t)[0])) by {
            assert(split_nl(t)[0] =~= Seq::<char>::empty());
        }
    }
}

proof fn lemma_lines_are_pieces(t: Seq<char>)
    requires
        no_cr(t),
        t.len() > 0,
        t.last() != '\n',
    ensures
        lines_of(t) == split_nl(t),
        split_nl(t).last().len() > 0,
        split_nl(t).last().last() == t.last(),
{
    let pieces = split_nl(t);
    lemma_split_nonempty(t.drop_last());
    lemma_split_no_cr(t);
    let init = pieces.drop_last().map_values(|p: Seq<char>| strip_cr(p));
    assert forall|i: int| 0 <= i < init.len() implies #[trigger] init[i] == pieces[i] by {
        let q = pieces[i];
        assert(no_cr(q));
        if q.len() > 0 {
            assert(q[q.len() - 1] != '\r');
        }
    }
    assert(lines_of(t) =~= pieces);
}

proof fn lemma_run_len_trailing(l: Seq<char>, i: int)
    requires
        0 <= i <= l.len(),
    ensures
        run_len(l, i) == trailing_run(l.take(i)),
    decreases i,
{
    if i > 0 {
        lemma_run_len_trailing(l, i - 1);
        assert(l.take(i).drop_last() =~= l.take(i - 1));
        assert(l.take(i).last() == l[i - 1]);
    } else {
        assert(l.take(0) =~= Seq::<char>::empty());
    }
}

proof fn lemma_split_trailing(t: Seq<char>)
    ensures
        trailing_run(t) == trailing_run(split_nl(t).last()),
    decreases t.len(),
{
    if t.len() > 0 {
        let t0 = t.drop_last();
        let c = t.last();
        lemma_split_trailing(t0);
        lemma_split_nonempty(t0);
        let p = split_nl(t0);
        if c == '\n' {
            assert(is_ws(c));
        } else {
            let x = p.last();
            assert(x.push(c).drop_last() =~= x);
        }
    }
}

proof fn lemma_split_tokens(t: Seq<char>, max: nat)
    requires
        max >= 1,
        ends_within(t, max),
    ensures
        forall|i: int, k: int|
            0 <= i < split_nl(t).len() && 0 <= k < split_nl(t)[i].len() && !is_ws(
                #[trigger] split_nl(t)[i][k],
            ) ==> run_len(split_nl(t)[i], k) < max,
    decreases t.len(),
{
    if t.len() > 0 {
        let t0 = t.drop_last();
        let c = t.last();
        assert(ends_within(t0, max)) by {
            assert forall|k: int| 0 <= k < t0.len() implies #[trigger] trailing_run(t0.take(k + 1))
                <= max by {
                assert(t0.take(k + 1) =~= t.take(k + 1));
            }
        }
        lemma_split_tokens(t0, max);
        lemma_split_nonempty(t0);
        let p = split_nl(t0);
        let q = split_nl(t);
        if c == '\n' {
            assert forall|i: int, k: int|
                0 <= i < q.len() && 0 <= k < q[i].len() && !is_ws(#[trigger] q[i][k]) implies run_len(
                q[i],
                k,
            ) < max by {
                assert(i < p.len());
                assert(q[i] == p[i]);
            }
        } else {
            let x = p.last();
            let last = p.len() - 1;
            assert(q[last] == x.push(c));
            assert forall|i: int, k: int|
                0 <= i < q.len() && 0 <= k < q[i].len() && !is_ws(#[trigger] q[i][k]) implies run_len(
                q[i],
                k,
            ) < max by {
                if i < last {
                    assert(q[i] == p[i]);
                } else {
                    let y = x.push(c);
                    lemma_run_len_trailing(y, k);
                    if k < x.len() {
                        lemma_run_len_trailing(x, k);
                        assert(y.take(k) =~= x.take(k));
                        assert(y[k] == x[k]);
                        assert(p[last] == x);
                        assert(p[last][k] == x[k]);
                    } else {
                        assert(y.take(k) =~= x);
                        lemma_split_trailing(t0);
                        assert(t.take(t.len() as int) =~= t);
                        assert(trailing_run(t.take((t.len() - 1) + 1)) <= max);
                        assert(t.drop_last() == t0);
                        assert(!is_ws(c));
                        assert(trailing_run(t) == trailing_run(t0) + 1);
                    }
                }
            }
        }
    }
}

proof fn lemma_wrap_prefix_no_cr(line: Seq<char>, max: nat, m: int)
    requires
        no_cr(line),
        0 <= m <= line.len(),
    ensures
        no_cr(wrap_prefix(line, max, m)),
    decreases m,
{
    if m > 0 {
        lemma_wrap_prefix_no_cr(line, max, m - 1);
        let prev = wrap_prefix(line, max, m - 1);
        let c = line[m - 1];
        assert(c != '\r');
        let w = wrap_prefix(line, max, m);
        assert forall|k: int| 0 <= k < w.len() implies #[trigger] w[k] != '\r' by {
            if k < prev.len() {
                if breaks_before(line, max, m - 1) {
                    assert(w[k] == prev.push('\n')[k]);
                }
                assert(w[k] == prev[k]);
            }
        }
    }
}

proof fn lemma_join_no_cr(ls: Seq<Seq<char>>)
    requires
        forall|i: int| 0 <= i < ls.len() ==> no_cr(#[trigger] ls[i]),
    ensures
        no_cr(join_lines(ls)),
    decreases ls.len(),
{
    if ls.len() == 1 {
        assert(no_cr(ls[0]));
    } else if ls.len() > 1 {
        let init = ls.drop_last();
        assert forall|i: int| 0 <= i < init.len() implies no_cr(#[trigger] init[i]) by {
            assert(init[i] == ls[i]);
        }
        lemma_join_no_cr(init);
        let j = join_lines(init);
        let l = ls.last();
        assert(no_cr(l)) by {
            assert(l == ls[ls.len() - 1]);
        }
        let full = join_lines(ls);
        assert forall|k: int| 0 <= k < full.len() implies #[trigger] full[k] != '\r' by {
            if k < j.len() {
                assert(full[k] == j[k]);
            } else if k > j.len() {
                assert(full[k] == l[k - j.len() - 1]);
            }
        }
    }
}

/// Wrapping already wrapped text changes nothing, for a text without
/// carriage returns and without a line break at its end, and a limit of at
/// least one character.
pub proof fn law_wrap_idempotent(s: Seq<char>, max: nat)
    requires
        max >= 1,
        no_cr(s),
        s.len() == 0 || s.last() != '\n',
    ensures
        wrapped_text(wrapped_text(s, max), max) == wrapped_text(s, max),
{
    let w = wrapped_text(s, max);
    if s.len() == 0 {
        assert(lines_of(s) =~= Seq::<Seq<char>>::empty());
        assert(w =~= s);
    } else {
        lemma_lines_are_pieces(s);
        lemma_split_no_cr(s);
        let ls = lines_of(s);
        let ws = ls.map_values(|l: Seq<char>| wrap_line(l, max));
        assert forall|i: int| 0 <= i < ws.len() implies ends_within(#[trigger] ws[i], max) && no_cr(
            ws[i],
        ) by {
            let l = ls[i];
            assert(no_cr(l));
            lemma_wrap_prefix_runs(l, max, l.len() as int);
            lemma_wrap_prefix_no_cr(l, max, l.len() as int);
        }
        lemma_join_ends_within(ws, max);
        lemma_join_no_cr(ws);
        // the last wrapped line ends with the text's last character
        let l = ls.last();
        assert(l.len() > 0 && l.last() == s.last());
        assert(wrap_line(l, max).last() == l.last()) by {
            let n = l.len() as int;
            assert(wrap_prefix(l, max, n).last() == l[n - 1]);
        }
        assert(ws.last() == wrap_line(l, max));
        assert(w.len() > 0 && w.last() == s.last()) by {
            if ws.len() > 1 {
                assert(w == join_lines(ws.drop_last()) + seq!['\n'] + ws.last());
            }
        }
        lemma_lines_are_pieces(w);
        lemma_split_tokens(w, max);
        assert(tokens_within(w, max));
        law_wrap_short_tokens_unchanged(w, max);
        lemma_split_join(w);
    }
}

} // verus!
