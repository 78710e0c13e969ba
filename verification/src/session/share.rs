//! Sharing sessions between all accounts, by taking their owner away.

use vstd::prelude::*;

use crate::json::{Json, Tree};
use crate::text::{decode_lossy, joined, texts, utf8_lossy};
use super::store::{claw, is_claw_workspace};
use super::table::{
    answers_elsewhere, cell, cells, column, equals, find_column, is_equal, is_null, place_of,
    told_elsewhere, value_at, Cell, Grid, Line, Row, SqlValue, Table,
};

verus! {

/// Whether the workspace of a session is bound to a channel; unknown where there is
/// none.
pub open spec fn bound(cwd: Cell) -> Option<bool> {
    match cwd {
        Cell::Null => None,
        Cell::Text(s) => Some(claw(s)),
        Cell::Blob(b) => Some(claw(utf8_lossy(b))),
        _ => Some(false),
    }
}

/// Whether a session has an owner in the column `at`.
pub open spec fn owned(row: Line, at: Option<int>) -> bool {
    cell(row, at) != Cell::Null && !equals(row, at, ""@)
}

/// Whether a session is not deleted.
pub open spec fn alive(names: Seq<Seq<char>>, row: Line) -> bool {
    cell(row, column(names, "deleted_at"@)) == Cell::Null
}

/// Whether a session has an owner that could be taken away.
pub open spec fn in_question(names: Seq<Seq<char>>, row: Line) -> bool {
    alive(names, row) && owned(row, column(names, "user_id"@))
}

/// Whether a session is shared: it is not deleted, has an owner, and its workspace
/// is known not to be bound to a channel.
pub open spec fn sharable(names: Seq<Seq<char>>, row: Line) -> bool {
    in_question(names, row) && bound(cell(row, column(names, "cwd"@))) == Some(false)
}

/// Whether a session keeps its owner because its workspace is bound to a channel.
pub open spec fn kept_back(names: Seq<Seq<char>>, row: Line) -> bool {
    in_question(names, row) && bound(cell(row, column(names, "cwd"@))) == Some(true)
}

/// A row once the sessions are shared.
pub open spec fn shared_row(names: Seq<Seq<char>>, row: Line) -> Line {
    if sharable(names, row) {
        let owner = column(names, "user_id"@)->0;
        Line {
            cells: row.cells.update(owner, Cell::Text(""@)),
            told: told_elsewhere(row.told, owner),
        }
    } else {
        row
    }
}

/// A table once the sessions are shared.
pub open spec fn shared(g: Grid) -> Grid {
    Grid {
        columns: g.columns,
        rows: g.rows.map_values(|row: Line| shared_row(g.columns, row)),
    }
}

/// Whether a table has the columns that sharing needs.
pub open spec fn has_share_columns(names: Seq<Seq<char>>) -> bool {
    &&& column(names, "user_id"@) is Some
    &&& column(names, "deleted_at"@) is Some
    &&& column(names, "cwd"@) is Some
}

/// How many of the first `n` rows are not deleted.
pub open spec fn count_alive(g: Grid, n: nat) -> nat
    decreases n,
{
    if n == 0 {
        0
    } else {
        count_alive(g, (n - 1) as nat) + if alive(g.columns, g.rows[n - 1]) {
            1nat
        } else {
            0nat
        }
    }
}

/// How many of the first `n` rows are kept back.
pub open spec fn count_kept_back(g: Grid, n: nat) -> nat
    decreases n,
{
    if n == 0 {
        0
    } else {
        count_kept_back(g, (n - 1) as nat) + if kept_back(g.columns, g.rows[n - 1]) {
            1nat
        } else {
            0nat
        }
    }
}

/// The positions of the first `n` rows that are shared.
pub open spec fn changed(g: Grid, n: nat) -> Seq<int>
    decreases n,
{
    if n == 0 {
        Seq::empty()
    } else {
        let before = changed(g, (n - 1) as nat);
        if sharable(g.columns, g.rows[n - 1]) {
            before.push(n - 1)
        } else {
            before
        }
    }
}

/// What is reported of sharing the sessions of a table.
pub open spec fn share_report(g: Grid) -> Tree {
    Tree::Dict(
        Map::<Seq<char>, Tree>::empty().insert(
            "total"@,
            Tree::Int(count_alive(g, g.rows.len()) as int),
        ).insert("shared"@, Tree::Int(changed(g, g.rows.len()).len() as int)).insert(
            "skippedClaw"@,
            Tree::Int(count_kept_back(g, g.rows.len()) as int),
        ),
    )
}

/// The database of the sessions as it was found.
pub enum Store {
    /// There is no such file; how its path is shown.
    Missing(String),
    /// It cannot be opened.
    Closed,
    /// It has no table of sessions.
    NoTable,
    /// It refuses the statement that is to work on the table of sessions, as it does
    /// where a column is not there; what it says.
    Refused(String),
    /// The table of sessions.
    Open(Table),
}

/// What came of sharing sessions.
pub struct Sharing {
    /// The positions of the rows whose owner was taken away.
    pub rows: Vec<usize>,
    /// What is reported.
    pub report: Json,
}

/// Whether the workspace of a session is bound to a channel.
fn is_bound(cwd: Option<&SqlValue>) -> (r: Option<bool>)
    ensures
        r == bound(
            match cwd {
                Some(x) => x@,
                None => Cell::Null,
            },
        ),
{
    match cwd {
        Some(x) => match x {
            SqlValue::Null => None,
            SqlValue::Text(s) => Some(is_claw_workspace(s.as_str())),
            SqlValue::Blob(b) => {
                let s = decode_lossy(b.as_slice());
                Some(is_claw_workspace(s.as_str()))
            },
            SqlValue::Integer(_) => Some(false),
            SqlValue::Real(_) => Some(false),
        },
        None => None,
    }
}

/// Whether a session has an owner in the column `at`.
fn is_owned(row: &Row, at: Option<usize>) -> (r: bool)
    ensures
        r == owned(row@, place_of(at)),
{
    !is_null(value_at(row, at)) && !is_equal(row, at, "")
}

/// Whether a table has the columns that sharing needs.
pub fn can_share(t: &Table) -> (r: bool)
    ensures
        r == has_share_columns(t@.columns),
{
    find_column(&t.columns, "user_id").is_some() && find_column(&t.columns, "deleted_at").is_some()
        && find_column(&t.columns, "cwd").is_some()
}

/// A row without its owner, which is in the column `owner`.
fn without_owner(row: &Row, owner: usize) -> (r: Row)
    requires
        owner < row@.cells.len(),
    ensures
        r@.cells == row@.cells.update(owner as int, Cell::Text(""@)),
        r@.told == told_elsewhere(row@.told, owner as int),
{
    let mut values: Vec<SqlValue> = Vec::new();
    let mut k: usize = 0;
    while k < row.values.len()
        invariant
            k <= row.values.len(),
            values@.len() == k,
            forall|j: int|
                0 <= j < k ==> (#[trigger] values@[j])@ == if j == owner {
                    Cell::Text(""@)
                } else {
                    row.values@[j]@
                },
        decreases row.values.len() - k,
    {
        if k == owner {
            values.push(SqlValue::Text("".to_owned()));
        } else {
            values.push(row.values[k].copy());
        }
        k = k + 1;
    }
    let r = Row { values, told: answers_elsewhere(&row.told, owner) };
    assert(r@.cells =~= row@.cells.update(owner as int, Cell::Text(""@)));
    r
}

/// The positions in the model.
pub open spec fn positions(v: Seq<usize>) -> Seq<int> {
    v.map_values(|i: usize| i as int)
}

/// Shares the sessions of a table that has the columns for it.
fn share_table(t: &mut Table) -> (r: Sharing)
    requires
        has_share_columns(old(t)@.columns),
        old(t)@.rows.len() <= i64::MAX,
    ensures
        final(t)@ == shared(old(t)@),
        positions(r.rows@) == changed(old(t)@, old(t)@.rows.len()),
        r.report.tree() == share_report(old(t)@),
{
    let ghost g = t@;
    let ghost names = g.columns;
    let deleted = find_column(&t.columns, "deleted_at");
    let owner = find_column(&t.columns, "user_id");
    let cwd = find_column(&t.columns, "cwd");
    let mut total: i64 = 0;
    let mut skipped: i64 = 0;
    let mut changes: Vec<usize> = Vec::new();
    let n = t.rows.len();
    let mut i: usize = 0;
    assert(positions(changes@) =~= Seq::<int>::empty());
    while i < n
        invariant
            texts(t.columns@) == names,
            names == g.columns,
            n == t.rows@.len(),
            g.rows.len() == n,
            n <= i64::MAX,
            i <= n,
            place_of(deleted) == column(names, "deleted_at"@),
            place_of(owner) == column(names, "user_id"@),
            place_of(cwd) == column(names, "cwd"@),
            owner is Some,
            total <= i,
            skipped <= i,
            total == count_alive(g, i as nat),
            skipped == count_kept_back(g, i as nat),
            positions(changes@) == changed(g, i as nat),
            changes@.len() <= i,
            forall|k: int| 0 <= k < i ==> (#[trigger] t.rows@[k])@ == shared_row(names, g.rows[k]),
            forall|k: int| i <= k < n ==> (#[trigger] t.rows@[k])@ == g.rows[k],
        decreases n - i,
    {
        let row = &t.rows[i];
        let living = is_null(value_at(row, deleted));
        let at_stake = living && is_owned(row, owner);
        let claw = is_bound(value_at(row, cwd));
        if living {
            total = total + 1;
        }
        if at_stake && matches!(claw, Some(true)) {
            skipped = skipped + 1;
        }
        if at_stake && matches!(claw, Some(false)) {
            let ghost before = changes@;
            changes.push(i);
            assert(positions(changes@) =~= positions(before).push(i as int));
            if let Some(o) = owner {
                let free = without_owner(row, o);
                assert(free@ =~= shared_row(names, row@));
                t.rows.set(i, free);
            }
        }
        i = i + 1;
    }
    assert(t@.rows =~= shared(g).rows);
    let mut report = Json::dict();
    report.set("total", Json::integer(total));
    report.set("shared", Json::integer(changes.len() as i64));
    report.set("skippedClaw", Json::integer(skipped));
    assert(changed(g, g.rows.len()).len() == changes@.len());
    Sharing { rows: changes, report }
}

/// Whether sharing the sessions of the database `before` leaves it as `after` and
/// returns `r`.
pub open spec fn sharing(before: Store, after: Store, r: Result<Sharing, String>) -> bool {
    match before {
        Store::Missing(shown) => after == before && r is Err && r->Err_0@ == "找不到 "@ + shown@,
        Store::Closed => after == before && r is Err && r->Err_0@ == "无法打开 workbuddy.db"@,
        Store::NoTable => after == before && r is Err && r->Err_0@ == "sessions 表不存在"@,
        Store::Refused(said) => after == before && r is Err && r->Err_0@ == said@,
        Store::Open(t) => r is Ok && positions(r->Ok_0.rows@) == changed(t@, t@.rows.len())
            && r->Ok_0.report.tree() == share_report(t@) && (match after {
            Store::Open(u) => u@ == shared(t@),
            _ => false,
        }),
    }
}

/// Whether an open table has the columns that the database would refuse to do without,
/// and its rows can be counted.
pub open spec fn ready(store: Store) -> bool {
    match store {
        Store::Open(t) => has_share_columns(t@.columns) && t@.rows.len() <= i64::MAX,
        _ => true,
    }
}

/// Shares the sessions of a database: takes the owner of every session away, so that
/// all accounts see it, unless it is deleted or its workspace is bound to a channel.
/// No session is added. Where the database refuses, its words are passed on.
pub fn share_sessions_in(store: &mut Store) -> (r: Result<Sharing, String>)
    requires
        ready(*old(store)),
    ensures
        sharing(*old(store), *final(store), r),
{
    match store {
        Store::Missing(shown) => Err(joined("找不到 ", shown.as_str())),
        Store::Closed => Err("无法打开 workbuddy.db".to_owned()),
        Store::NoTable => Err("sessions 表不存在".to_owned()),
        Store::Refused(said) => Err(said.as_str().to_owned()),
        Store::Open(t) => Ok(share_table(t)),
    }
}

/// Shares the sessions of an edition's database.
pub fn share_sessions_for_switch_for(store: &mut Store) -> (r: Result<Sharing, String>)
    requires
        ready(*old(store)),
    ensures
        sharing(*old(store), *final(store), r),
{
    share_sessions_in(store)
}

/// Shares the sessions of the domestic edition's database.
pub fn share_sessions_for_switch(store: &mut Store) -> (r: Result<Sharing, String>)
    requires
        ready(*old(store)),
    ensures
        sharing(*old(store), *final(store), r),
{
    share_sessions_for_switch_for(store)
}

} // verus!
